//! The structural model of a G-code command value and its textual
//! rendering: the body of a line, before any sequence number or checksum
//! is applied.
//!
//! A command is a tree of primitives (integers, booleans, raw text),
//! records (a mnemonic name plus named fields), and plain lists. Values
//! that only an outside formatter can render — floating-point numbers in
//! particular — enter the tree as already-rendered text.

use vstd::prelude::*;

use crate::decimal::{dec_int, dec_nat, push_dec_i64, push_dec_u64};

verus! {

/// One named field of a record: only the first byte of the name reaches
/// the wire, uppercased.
pub struct GField {
    pub name: Vec<u8>,
    pub value: GValue,
}

/// A structural command value.
pub enum GValue {
    /// Renders as `1` or `0`.
    Bool(bool),
    /// Renders as signed decimal.
    Int(i64),
    /// Renders as unsigned decimal.
    Uint(u64),
    /// Renders verbatim: strings, characters, byte slices, and values
    /// rendered by an outside formatter (floats).
    Text(Vec<u8>),
    /// Renders as nothing: unit, `None`, empty.
    Empty,
    /// A unit struct or unit variant: renders its name.
    Named(Vec<u8>),
    /// A record: renders the name, then each field as the uppercased
    /// first byte of its name followed by its value, no separators.
    Record(Vec<u8>, Vec<GField>),
    /// A sequence or tuple: renders each element in order, no separators.
    List(Vec<GValue>),
}

/// ASCII uppercasing of a single byte.
pub open spec fn upper(b: u8) -> u8 {
    if 97 <= b <= 122 {
        (b - 32) as u8
    } else {
        b
    }
}

/// The rendered body of a value.
pub open spec fn render_value(v: GValue) -> Seq<u8>
    decreases v,
{
    match v {
        GValue::Bool(b) => if b {
            seq![49u8]
        } else {
            seq![48u8]
        },
        GValue::Int(i) => dec_int(i as int),
        GValue::Uint(u) => dec_nat(u as nat),
        GValue::Text(t) => t@,
        GValue::Empty => Seq::empty(),
        GValue::Named(n) => n@,
        GValue::Record(name, fields) => name@ + render_fields(fields@),
        GValue::List(es) => render_elems(es@),
    }
}

pub open spec fn render_fields(fs: Seq<GField>) -> Seq<u8>
    decreases fs,
{
    if fs.len() == 0 {
        Seq::empty()
    } else {
        render_fields(fs.subrange(0, fs.len() - 1)) + render_field(fs[fs.len() - 1])
    }
}

/// A field renders as the uppercased first byte of its name, then its value.
pub open spec fn render_field(f: GField) -> Seq<u8>
    decreases f,
{
    seq![upper(f.name@[0])] + render_value(f.value)
}

pub open spec fn render_elems(es: Seq<GValue>) -> Seq<u8>
    decreases es,
{
    if es.len() == 0 {
        Seq::empty()
    } else {
        render_elems(es.subrange(0, es.len() - 1)) + render_value(es[es.len() - 1])
    }
}

/// Well-formedness: every record field has a nonempty name, so that the
/// single-letter prefix exists.
pub open spec fn value_wf(v: GValue) -> bool
    decreases v,
{
    match v {
        GValue::Record(_name, fields) => forall|i: int|
            0 <= i < fields@.len() ==> (#[trigger] fields@[i]).name@.len() > 0 && value_wf(
                fields@[i].value,
            ),
        GValue::List(es) => forall|i: int| 0 <= i < es@.len() ==> value_wf(#[trigger] es@[i]),
        _ => true,
    }
}

/// Decides well-formedness, so that callers outside the proof can test
/// it before serializing.
pub fn is_wf(v: &GValue) -> (r: bool)
    ensures
        r == value_wf(*v),
    decreases *v,
{
    match v {
        GValue::Record(_name, fields) => {
            let mut i: usize = 0;
            while i < fields.len()
                invariant
                    *v == GValue::Record(*_name, *fields),
                    i <= fields@.len(),
                    forall|j: int|
                        0 <= j < i ==> (#[trigger] fields@[j]).name@.len() > 0 && value_wf(
                            fields@[j].value,
                        ),
                decreases fields@.len() - i,
            {
                if fields[i].name.len() == 0 {
                    return false;
                }
                proof {
                    assert(decreases_to!(*v => fields@[i as int].value));
                }
                if !is_wf(&fields[i].value) {
                    return false;
                }
                i = i + 1;
            }
            true
        },
        GValue::List(es) => {
            let mut i: usize = 0;
            while i < es.len()
                invariant
                    *v == GValue::List(*es),
                    i <= es@.len(),
                    forall|j: int| 0 <= j < i ==> value_wf(#[trigger] es@[j]),
                decreases es@.len() - i,
            {
                proof {
                    assert((*v)->List_0 == *es);
                    assert(decreases_to!(*v => (*v)->List_0));
                    assert(decreases_to!(*es => es@));
                    assert(decreases_to!(es@ => es@[i as int]));
                    assert(decreases_to!(*v => es@[i as int]));
                }
                if !is_wf(&es[i]) {
                    return false;
                }
                i = i + 1;
            }
            true
        },
        _ => true,
    }
}

fn upper_byte(b: u8) -> (r: u8)
    ensures
        r == upper(b),
{
    if 97 <= b && b <= 122 {
        b - 32
    } else {
        b
    }
}

/// Appends the bytes of `s` to `out`.
pub fn push_bytes(out: &mut Vec<u8>, s: &Vec<u8>)
    ensures
        final(out)@ == old(out)@ + s@,
{
    let mut i: usize = 0;
    while i < s.len()
        invariant
            i <= s@.len(),
            out@ == old(out)@ + s@.take(i as int),
        decreases s@.len() - i,
    {
        out.push(s[i]);
        proof {
            assert(s@.take(i + 1).drop_last() =~= s@.take(i as int));
            assert(out@ =~= old(out)@ + s@.take(i + 1));
        }
        i = i + 1;
    }
    proof {
        assert(s@.take(s@.len() as int) =~= s@);
    }
}

/// Appends the rendered body of `v` to `out`.
pub fn write_value(out: &mut Vec<u8>, v: &GValue)
    requires
        value_wf(*v),
    ensures
        final(out)@ == old(out)@ + render_value(*v),
    decreases *v,
{
    match v {
        GValue::Bool(b) => {
            out.push(if *b {
                49
            } else {
                48
            });
            assert(out@ =~= old(out)@ + render_value(*v));
        },
        GValue::Int(i) => {
            push_dec_i64(out, *i);
        },
        GValue::Uint(u) => {
            push_dec_u64(out, *u);
        },
        GValue::Text(t) => {
            push_bytes(out, t);
        },
        GValue::Empty => {
            assert(out@ =~= old(out)@ + render_value(*v));
        },
        GValue::Named(n) => {
            push_bytes(out, n);
        },
        GValue::Record(name, fields) => {
            push_bytes(out, name);
            let mut i: usize = 0;
            while i < fields.len()
                invariant
                    value_wf(*v),
                    *v == GValue::Record(*name, *fields),
                    i <= fields@.len(),
                    out@ == old(out)@ + name@ + render_fields(fields@.take(i as int)),
                decreases fields@.len() - i,
            {
                let letter = upper_byte(fields[i].name[0]);
                out.push(letter);
                proof {
                    assert(decreases_to!(*v => fields@[i as int].value));
                }
                write_value(out, &fields[i].value);
                proof {
                    let fs1 = fields@.take(i + 1);
                    assert(fs1.subrange(0, fs1.len() - 1) =~= fields@.take(i as int));
                    assert(fs1[fs1.len() - 1] == fields@[i as int]);
                    assert(render_fields(fs1) == render_fields(fields@.take(i as int))
                        + render_field(fields@[i as int]));
                    assert(render_field(fields@[i as int]) == seq![upper(
                        fields@[i as int].name@[0],
                    )] + render_value(fields@[i as int].value));
                    assert(out@ =~= old(out)@ + name@ + render_fields(fields@.take(i + 1)));
                }
                i = i + 1;
            }
            proof {
                assert(fields@.take(fields@.len() as int) =~= fields@);
            }
        },
        GValue::List(es) => {
            let mut i: usize = 0;
            while i < es.len()
                invariant
                    value_wf(*v),
                    *v == GValue::List(*es),
                    i <= es@.len(),
                    out@ == old(out)@ + render_elems(es@.take(i as int)),
                decreases es@.len() - i,
            {
                proof {
                    assert((*v)->List_0 == *es);
                    assert(value_wf(es@[i as int]));
                    assert(decreases_to!(*v => (*v)->List_0));
                    assert(decreases_to!(*es => es@));
                    assert(decreases_to!(es@ => es@[i as int]));
                    assert(decreases_to!(*v => es@[i as int]));
                }
                write_value(out, &es[i]);
                proof {
                    let es1 = es@.take(i + 1);
                    assert(es1.subrange(0, es1.len() - 1) =~= es@.take(i as int));
                    assert(es1[es1.len() - 1] == es@[i as int]);
                    assert(out@ =~= old(out)@ + render_elems(es@.take(i + 1)));
                }
                i = i + 1;
            }
            proof {
                assert(es@.take(es@.len() as int) =~= es@);
            }
        },
    }
}

/// The rendered body of `v`, on its own.
pub fn render_body(v: &GValue) -> (r: Vec<u8>)
    requires
        value_wf(*v),
    ensures
        r@ == render_value(*v),
{
    let mut out: Vec<u8> = Vec::new();
    write_value(&mut out, v);
    proof {
        assert(out@ =~= render_value(*v));
    }
    out
}

} // verus!
