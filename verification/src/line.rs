//! Framing of a rendered body into a wire line: the `N<seq>` prefix, the
//! `*<checksum>` suffix, the terminating newline, and the law that the
//! printed checksum always matches a byte-by-byte recomputation.

use vstd::prelude::*;

use crate::checksum::{xor_of, xor_range};
use crate::decimal::{
    all_digits, dec_int, dec_nat, digits_value, is_digit, lemma_dec_nat_shape, lemma_dec_nat_value,
    parse_digits_range, push_dec_i64,
};
use crate::gcode::{render_value, value_wf, write_value, GValue};

verus! {

/// Everything a sequenced line holds before the `*`: the letter `N`, the
/// sequence number in decimal, the rendered body.
pub open spec fn seq_payload(v: GValue, n: i32) -> Seq<u8> {
    seq![78u8] + dec_int(n as int) + render_value(v)
}

/// A full sequenced line: payload, `*`, the payload's XOR checksum in
/// decimal, newline.
pub open spec fn sequenced_line(v: GValue, n: i32) -> Seq<u8> {
    seq_payload(v, n) + seq![42u8] + dec_nat(xor_of(seq_payload(v, n)) as nat) + seq![10u8]
}

/// A full unsequenced line: the rendered body and a newline.
pub open spec fn unsequenced_line(v: GValue) -> Seq<u8> {
    render_value(v) + seq![10u8]
}

/// An output buffer that folds every written byte into a running XOR
/// checksum, so the checksum of a line is maintained incrementally as the
/// line is produced.
pub struct GcodeLineWriter {
    pub buffer: Vec<u8>,
    pub checksum: u8,
}

impl GcodeLineWriter {
    pub fn new() -> (r: GcodeLineWriter)
        ensures
            r.buffer@ == Seq::<u8>::empty(),
            r.checksum == 0,
    {
        GcodeLineWriter { buffer: Vec::new(), checksum: 0 }
    }

    /// Folds the bytes of `buf` into the running checksum, leaving the
    /// buffer alone.
    pub fn checksum(&mut self, buf: &[u8])
        ensures
            final(self).buffer == old(self).buffer,
            final(self).checksum == old(self).checksum ^ xor_of(buf@),
    {
        let mut acc = self.checksum;
        let mut i: usize = 0;
        proof {
            assert(buf@.take(0) =~= Seq::<u8>::empty());
            let a = old(self).checksum;
            assert(a ^ 0 == a) by (bit_vector);
        }
        while i < buf.len()
            invariant
                i <= buf@.len(),
                acc == old(self).checksum ^ xor_of(buf@.take(i as int)),
                self == old(self),
            decreases buf@.len() - i,
        {
            proof {
                assert(buf@.take(i + 1).drop_last() =~= buf@.take(i as int));
                assert(buf@.take(i + 1).last() == buf@[i as int]);
                let a = old(self).checksum;
                let x = xor_of(buf@.take(i as int));
                let b = buf@[i as int];
                assert((a ^ x) ^ b == a ^ (x ^ b)) by (bit_vector);
            }
            acc = acc ^ buf[i];
            i = i + 1;
        }
        proof {
            assert(buf@.take(buf@.len() as int) =~= buf@);
        }
        self.checksum = acc;
    }

    /// Appends the bytes of `buf` to the buffer and folds them into the
    /// checksum.
    pub fn write(&mut self, buf: &[u8])
        ensures
            final(self).buffer@ == old(self).buffer@ + buf@,
            final(self).checksum == old(self).checksum ^ xor_of(buf@),
    {
        let mut i: usize = 0;
        while i < buf.len()
            invariant
                i <= buf@.len(),
                self.buffer@ == old(self).buffer@ + buf@.take(i as int),
                self.checksum == old(self).checksum,
            decreases buf@.len() - i,
        {
            self.buffer.push(buf[i]);
            proof {
                assert(buf@.take(i + 1).drop_last() =~= buf@.take(i as int));
                assert(self.buffer@ =~= old(self).buffer@ + buf@.take(i + 1));
            }
            i = i + 1;
        }
        proof {
            assert(buf@.take(buf@.len() as int) =~= buf@);
        }
        self.checksum(buf);
    }
}

/// Builds the sequenced line for `v` carrying the sequence number `n`.
pub fn serialize_sequenced_at(v: &GValue, n: i32) -> (r: Vec<u8>)
    requires
        value_wf(*v),
    ensures
        r@ == sequenced_line(*v, n),
{
    let mut payload: Vec<u8> = Vec::new();
    payload.push(78);
    push_dec_i64(&mut payload, n as i64);
    write_value(&mut payload, v);
    proof {
        assert(payload@ =~= seq_payload(*v, n));
    }
    let mut writer = GcodeLineWriter::new();
    writer.write(payload.as_slice());
    proof {
        assert(Seq::<u8>::empty() + payload@ =~= payload@);
        let x = xor_of(payload@);
        assert(0u8 ^ x == x) by (bit_vector);
    }
    let ck = writer.checksum;
    let mut out = writer.buffer;
    out.push(42);
    crate::decimal::push_dec_u64(&mut out, ck as u64);
    out.push(10);
    proof {
        assert(out@ =~= sequenced_line(*v, n));
    }
    out
}

/// Builds the unsequenced line for `v`: the body and a newline, no
/// sequence number, no checksum.
pub fn serialize_unsequenced_value(v: &GValue) -> (r: Vec<u8>)
    requires
        value_wf(*v),
    ensures
        r@ == unsequenced_line(*v),
{
    let mut out: Vec<u8> = Vec::new();
    write_value(&mut out, v);
    out.push(10);
    proof {
        assert(out@ =~= unsequenced_line(*v));
    }
    out
}

/// Index of the last `*` of `s`, or `-1` when `s` holds none.
pub open spec fn last_star(s: Seq<u8>) -> int
    decreases s.len(),
{
    if s.len() == 0 {
        -1
    } else if s.last() == 42 {
        s.len() - 1
    } else {
        last_star(s.drop_last())
    }
}

/// What a checksum verifier accepts: the line ends with a newline, a `*`
/// stands somewhere before it, only decimal digits lie between that last
/// `*` and the newline, and they read as the XOR of every byte before the
/// `*`.
pub open spec fn checksum_ok(s: Seq<u8>) -> bool {
    let body = s.take(s.len() - 1);
    let k = last_star(body);
    let digits = s.subrange(k + 1, s.len() - 1);
    s.len() >= 1 && s.last() == 10 && k >= 0 && digits.len() > 0 && all_digits(digits)
        && digits_value(digits) == xor_of(s.take(k))
}

proof fn lemma_last_star_bounds(s: Seq<u8>)
    ensures
        -1 <= last_star(s) < s.len(),
        last_star(s) >= 0 ==> s[last_star(s)] == 42,
        forall|j: int| last_star(s) < j < s.len() ==> s[j] != 42,
    decreases s.len(),
{
    if s.len() > 0 && s.last() != 42 {
        lemma_last_star_bounds(s.drop_last());
        assert(forall|j: int| 0 <= j < s.len() - 1 ==> s[j] == s.drop_last()[j]);
    }
}

proof fn lemma_last_star_no_star_suffix(s: Seq<u8>, t: Seq<u8>)
    requires
        forall|i: int| 0 <= i < t.len() ==> t[i] != 42,
    ensures
        last_star(s + t) == last_star(s),
    decreases t.len(),
{
    if t.len() == 0 {
        assert(s + t =~= s);
    } else {
        lemma_last_star_no_star_suffix(s, t.drop_last());
        assert((s + t).drop_last() =~= s + t.drop_last());
        assert((s + t).last() == t.last());
    }
}

/// Checks the line's checksum the way a firmware does: XOR every byte up
/// to the final `*`, read the decimal digits after it, compare.
pub fn check_line(line: &Vec<u8>) -> (r: bool)
    ensures
        r == checksum_ok(line@),
{
    let n = line.len();
    if n == 0 || line[n - 1] != 10 {
        return false;
    }
    // scan backwards for the last `*` before the newline
    let mut k: usize = n - 1;
    let ghost body = line@.take(n - 1);
    proof {
        lemma_last_star_bounds(body);
    }
    loop
        invariant_except_break
            forall|j: int| k <= j < n - 1 ==> line@[j] != 42,
        invariant
            n == line@.len(),
            n >= 1,
            body == line@.take(n - 1),
            0 <= k <= n - 1,
            -1 <= last_star(body) < body.len(),
            last_star(body) >= 0 ==> body[last_star(body)] == 42,
            forall|j: int| last_star(body) < j < body.len() ==> body[j] != 42,
        ensures
            0 <= k < n - 1,
            line@[k as int] == 42,
            forall|j: int| k < j < n - 1 ==> line@[j] != 42,
        decreases k,
    {
        if k == 0 {
            proof {
                assert(last_star(body) < 0);
            }
            return false;
        }
        k = k - 1;
        if line[k] == 42 {
            break;
        }
    }
    proof {
        assert(body[k as int] == 42);
        assert(last_star(body) == k);
    }
    let parsed = parse_digits_range(line, k + 1, n - 1);
    let computed = xor_range(line, 0, k);
    proof {
        assert(line@.subrange(0, k as int) =~= line@.take(k as int));
    }
    match parsed {
        Some(x) => x == computed as u32,
        None => {
            proof {
                let digits = line@.subrange(k + 1, n - 1);
                if digits.len() > 0 && all_digits(digits) && digits_value(digits) == xor_of(
                    line@.take(k as int),
                ) {
                    crate::decimal::lemma_digits_value_nonneg(digits);
                }
            }
            false
        },
    }
}

/// The shape law: a sequenced line starts with `N` and the claimed
/// sequence number in decimal, and ends with `*`, the XOR checksum of
/// every byte before the `*` in decimal, and a newline.
pub proof fn lemma_sequenced_line_shape(v: GValue, n: i32)
    ensures
        sequenced_line(v, n)[0] == 78,
        sequenced_line(v, n).subrange(1, 1 + dec_int(n as int).len() as int) == dec_int(n as int),
        sequenced_line(v, n) == seq_payload(v, n) + seq![42u8] + dec_nat(
            xor_of(seq_payload(v, n)) as nat,
        ) + seq![10u8],
        sequenced_line(v, n).last() == 10,
{
    lemma_dec_nat_shape(xor_of(seq_payload(v, n)) as nat);
    assert(sequenced_line(v, n).subrange(1, 1 + dec_int(n as int).len() as int) =~= dec_int(
        n as int,
    ));
}

/// The checksum law: every sequenced line passes the recomputation that
/// `check_line` performs.
pub proof fn lemma_sequenced_line_checksum(v: GValue, n: i32)
    ensures
        checksum_ok(sequenced_line(v, n)),
{
    let p = seq_payload(v, n);
    let ck = xor_of(p) as nat;
    let d = dec_nat(ck);
    let line = sequenced_line(v, n);
    lemma_dec_nat_shape(ck);
    lemma_dec_nat_value(ck);
    assert(line =~= p + seq![42u8] + d + seq![10u8]);
    let body = line.take(line.len() - 1);
    assert(body =~= (p + seq![42u8]) + d);
    assert(forall|i: int| 0 <= i < d.len() ==> is_digit(#[trigger] d[i]) && d[i] != 42);
    lemma_last_star_no_star_suffix(p + seq![42u8], d);
    assert((p + seq![42u8]).last() == 42);
    assert(last_star(p + seq![42u8]) == p.len());
    assert(last_star(body) == p.len());
    assert(line.subrange(p.len() as int + 1, line.len() - 1) =~= d);
    assert(line.take(p.len() as int) =~= p);
}

/// The embedding law: an unsequenced line is the sequenced line of the
/// same value with the `N<seq>` prefix and the `*<checksum>` suffix cut
/// out — the body sits verbatim between them, and both end in a newline.
pub proof fn lemma_unsequenced_embedding(v: GValue, n: i32)
    ensures
        unsequenced_line(v) == render_value(v) + seq![10u8],
        ({
            let pre: int = 1 + dec_int(n as int).len() as int;
            sequenced_line(v, n).subrange(pre, pre + render_value(v).len()) == render_value(
                v,
            )
        }),
        sequenced_line(v, n).last() == 10,
        unsequenced_line(v).last() == 10,
{
    let pre: int = 1 + dec_int(n as int).len() as int;
    assert(sequenced_line(v, n).subrange(pre, pre + render_value(v).len()) =~= render_value(
        v,
    ));
}

} // verus!
