//! Classification of one inbound line: `ok`, `ok N<digits>`,
//! `Resend: <digits>` / `rs <digits>`, or anything else. The classifier
//! is a pure function of the line's bytes, whitespace-tolerant and
//! case-insensitive; a number that does not fit degrades to `Other`.

use vstd::prelude::*;

use crate::decimal::{digits_value, is_digit, parse_digits_range};

verus! {

/// The interpretation of one inbound line.
#[derive(Clone, Copy, Debug, PartialEq, Eq, Structural)]
pub enum Response {
    /// `ok` with no sequence number.
    PlainOk,
    /// `ok N<digits>` or `ok <digits>`: the firmware acknowledged this line.
    SequencedOk(i32),
    /// `Resend: <digits>` or `rs <digits>`: the firmware asks for this line again.
    Resend(i32),
    /// Anything else; forwarded to subscribers, ignored by correlators.
    Other,
}

pub open spec fn is_ws(b: u8) -> bool {
    b == 32 || b == 9 || b == 13 || b == 10
}

/// ASCII lowercasing of a single byte.
pub open spec fn lower(b: u8) -> u8 {
    if 65 <= b <= 90 {
        (b + 32) as u8
    } else {
        b
    }
}

/// First index at or after `i` holding a byte that is not whitespace.
pub open spec fn skip_ws(s: Seq<u8>, i: int) -> int
    decreases s.len() - i
        when 0 <= i <= s.len()
{
    if i >= s.len() {
        s.len() as int
    } else if is_ws(s[i]) {
        skip_ws(s, i + 1)
    } else {
        i
    }
}

/// First index at or after `i` holding a byte that is not a digit.
pub open spec fn digits_end(s: Seq<u8>, i: int) -> int
    decreases s.len() - i
        when 0 <= i <= s.len()
{
    if i >= s.len() {
        s.len() as int
    } else if is_digit(s[i]) {
        digits_end(s, i + 1)
    } else {
        i
    }
}

/// The bytes of `s` at `i` spell `kw` case-insensitively.
pub open spec fn matches_kw(s: Seq<u8>, i: int, kw: Seq<u8>) -> bool {
    0 <= i && i + kw.len() <= s.len() && forall|j: int|
        0 <= j < kw.len() ==> lower(s[i + j]) == kw[j]
}

/// What follows the `ok` keyword, from index `i0`: nothing but
/// whitespace means a plain acknowledgement; otherwise an optional `N`
/// and a run of digits (then only whitespace) carry the sequence number.
pub open spec fn classify_ok_tail(s: Seq<u8>, i0: int) -> Response {
    let i = skip_ws(s, i0);
    if i == s.len() {
        Response::PlainOk
    } else {
        let k = if s[i] == 78 || s[i] == 110 {
            i + 1
        } else {
            i
        };
        let e = digits_end(s, k);
        if e > k && skip_ws(s, e) == s.len() && digits_value(s.subrange(k, e)) <= i32::MAX {
            Response::SequencedOk(digits_value(s.subrange(k, e)) as i32)
        } else {
            Response::Other
        }
    }
}

/// What follows a resend keyword, from index `i0`: an optional colon,
/// then a run of digits and trailing whitespace carrying the sequence
/// number to send again.
pub open spec fn classify_resend_tail(s: Seq<u8>, i0: int) -> Response {
    let i = skip_ws(s, i0);
    let k = if i < s.len() && s[i] == 58 {
        skip_ws(s, i + 1)
    } else {
        i
    };
    let e = digits_end(s, k);
    if e > k && skip_ws(s, e) == s.len() && digits_value(s.subrange(k, e)) <= i32::MAX {
        Response::Resend(digits_value(s.subrange(k, e)) as i32)
    } else {
        Response::Other
    }
}

/// The classification of one whole inbound line.
pub open spec fn classify_spec(s: Seq<u8>) -> Response {
    let i = skip_ws(s, 0);
    if matches_kw(s, i, seq![111u8, 107u8]) {
        classify_ok_tail(s, i + 2)
    } else if matches_kw(s, i, seq![114u8, 101u8, 115u8, 101u8, 110u8, 100u8]) {
        classify_resend_tail(s, i + 6)
    } else if matches_kw(s, i, seq![114u8, 115u8]) {
        classify_resend_tail(s, i + 2)
    } else {
        Response::Other
    }
}

fn skip_ws_from(s: &Vec<u8>, i: usize) -> (r: usize)
    requires
        i <= s@.len(),
    ensures
        r == skip_ws(s@, i as int),
        i <= r <= s@.len(),
{
    let mut j = i;
    while j < s.len()
        invariant
            i <= j <= s@.len(),
            skip_ws(s@, i as int) == skip_ws(s@, j as int),
        decreases s@.len() - j,
    {
        let b = s[j];
        if !(b == 32 || b == 9 || b == 13 || b == 10) {
            return j;
        }
        j = j + 1;
    }
    j
}

fn digits_end_from(s: &Vec<u8>, i: usize) -> (r: usize)
    requires
        i <= s@.len(),
    ensures
        r == digits_end(s@, i as int),
        i <= r <= s@.len(),
{
    let mut j = i;
    while j < s.len()
        invariant
            i <= j <= s@.len(),
            digits_end(s@, i as int) == digits_end(s@, j as int),
        decreases s@.len() - j,
    {
        let b = s[j];
        if !(48 <= b && b <= 57) {
            return j;
        }
        j = j + 1;
    }
    j
}

proof fn lemma_digits_end_all_digits(s: Seq<u8>, i: int, j: int)
    requires
        0 <= i <= j <= s.len(),
        j <= digits_end(s, i),
    ensures
        forall|m: int| i <= m < j ==> is_digit(s[m]),
    decreases j - i,
{
    if i < j {
        lemma_digits_end_all_digits(s, i + 1, j);
    }
}

fn lower_byte(b: u8) -> (r: u8)
    ensures
        r == lower(b),
{
    if 65 <= b && b <= 90 {
        b + 32
    } else {
        b
    }
}

fn classify_number_tail(line: &Vec<u8>, k: usize, e: usize) -> (r: Option<i32>)
    requires
        k <= e <= line@.len(),
        e == digits_end(line@, k as int),
        e > k,
        skip_ws(line@, e as int) == line@.len(),
    ensures
        ({
            let v = digits_value(line@.subrange(k as int, e as int));
            match r {
                Some(x) => v <= i32::MAX && x == v,
                None => v > i32::MAX,
            }
        }),
{
    proof {
        lemma_digits_end_all_digits(line@, k as int, e as int);
        assert(forall|m: int|
            0 <= m < e - k ==> is_digit(#[trigger] line@.subrange(k as int, e as int)[m]));
    }
    match parse_digits_range(line, k, e) {
        Some(x) => {
            if x <= 0x7fff_ffff {
                Some(x as i32)
            } else {
                None
            }
        },
        None => {
            proof {
                crate::decimal::lemma_digits_value_nonneg(line@.subrange(k as int, e as int));
            }
            None
        },
    }
}

fn classify_ok(line: &Vec<u8>, i0: usize) -> (r: Response)
    requires
        i0 <= line@.len(),
    ensures
        r == classify_ok_tail(line@, i0 as int),
{
    let n = line.len();
    let i = skip_ws_from(line, i0);
    if i == n {
        return Response::PlainOk;
    }
    let b = line[i];
    let k = if b == 78 || b == 110 {
        i + 1
    } else {
        i
    };
    let e = digits_end_from(line, k);
    if e == k {
        return Response::Other;
    }
    let t = skip_ws_from(line, e);
    if t != n {
        return Response::Other;
    }
    match classify_number_tail(line, k, e) {
        Some(x) => Response::SequencedOk(x),
        None => Response::Other,
    }
}

fn classify_resend(line: &Vec<u8>, i0: usize) -> (r: Response)
    requires
        i0 <= line@.len(),
    ensures
        r == classify_resend_tail(line@, i0 as int),
{
    let n = line.len();
    let i = skip_ws_from(line, i0);
    let k = if i < n && line[i] == 58 {
        skip_ws_from(line, i + 1)
    } else {
        i
    };
    let e = digits_end_from(line, k);
    if e == k {
        return Response::Other;
    }
    let t = skip_ws_from(line, e);
    if t != n {
        return Response::Other;
    }
    match classify_number_tail(line, k, e) {
        Some(x) => Response::Resend(x),
        None => Response::Other,
    }
}

/// Classifies one inbound line.
pub fn classify(line: &Vec<u8>) -> (r: Response)
    ensures
        r == classify_spec(line@),
{
    let n = line.len();
    let i = skip_ws_from(line, 0);
    let ghost s = line@;
    if n >= 2 && i <= n - 2 && lower_byte(line[i]) == 111 && lower_byte(line[i + 1]) == 107 {
        proof {
            assert forall|j: int| 0 <= j < 2 implies lower(s[i + j]) == seq![111u8, 107u8][j] by {
                if j == 0 {
                } else {
                    assert(j == 1);
                }
            }
        }
        classify_ok(line, i + 2)
    } else if n >= 6 && i <= n - 6 && lower_byte(line[i]) == 114 && lower_byte(line[i + 1]) == 101
        && lower_byte(line[i + 2]) == 115 && lower_byte(line[i + 3]) == 101 && lower_byte(
        line[i + 4],
    ) == 110 && lower_byte(line[i + 5]) == 100 {
        proof {
            let kw = seq![114u8, 101u8, 115u8, 101u8, 110u8, 100u8];
            assert(!matches_kw(s, i as int, seq![111u8, 107u8]));
            assert forall|j: int| 0 <= j < 6 implies lower(s[i + j]) == kw[j] by {
                if j == 0 {
                } else if j == 1 {
                } else if j == 2 {
                } else if j == 3 {
                } else if j == 4 {
                } else {
                    assert(j == 5);
                }
            }
        }
        classify_resend(line, i + 6)
    } else if n >= 2 && i <= n - 2 && lower_byte(line[i]) == 114 && lower_byte(line[i + 1]) == 115 {
        proof {
            assert(!matches_kw(s, i as int, seq![111u8, 107u8]));
            assert(!matches_kw(s, i as int, seq![114u8, 101u8, 115u8, 101u8, 110u8, 100u8]));
            assert forall|j: int| 0 <= j < 2 implies lower(s[i + j]) == seq![114u8, 115u8][j] by {
                if j == 0 {
                } else {
                    assert(j == 1);
                }
            }
        }
        classify_resend(line, i + 2)
    } else {
        proof {
            assert(!matches_kw(s, i as int, seq![111u8, 107u8]));
            assert(!matches_kw(s, i as int, seq![114u8, 101u8, 115u8, 101u8, 110u8, 100u8]));
            assert(!matches_kw(s, i as int, seq![114u8, 115u8]));
        }
        Response::Other
    }
}

/// What the acknowledgement correlator does with one inbound line while
/// waiting for `sequence`: the matching acknowledgement or resend request
/// resolves it, every other line is ignored.
pub open spec fn correlate_spec(s: Seq<u8>, sequence: i32) -> Option<Response> {
    match classify_spec(s) {
        Response::SequencedOk(n) => if n == sequence {
            Some(Response::SequencedOk(n))
        } else {
            None
        },
        Response::Resend(n) => if n == sequence {
            Some(Response::Resend(n))
        } else {
            None
        },
        _ => None,
    }
}

/// What a whole correlator run resolves to over a finished stream of
/// lines: the first line that correlates with `sequence` decides; a
/// stream that closes without a match resolves to the conservative
/// `PlainOk`.
pub open spec fn resolve_spec(lines: Seq<Seq<u8>>, sequence: i32) -> Response
    decreases lines.len(),
{
    if lines.len() == 0 {
        Response::PlainOk
    } else {
        match correlate_spec(lines[0], sequence) {
            Some(r) => r,
            None => resolve_spec(lines.subrange(1, lines.len() as int), sequence),
        }
    }
}

/// Runs the correlator over the lines of a closed stream, in order:
/// resolves at the first acknowledgement or resend request that carries
/// `sequence`; every other line is ignored; exhaustion resolves to
/// `PlainOk`.
pub fn search_for_sequence(sequence: i32, responses: &Vec<Vec<u8>>) -> (r: Response)
    ensures
        r == resolve_spec(responses@.map_values(|l: Vec<u8>| l@), sequence),
{
    let ghost all = responses@.map_values(|l: Vec<u8>| l@);
    let mut i: usize = 0;
    proof {
        assert(all.subrange(0, all.len() as int) =~= all);
    }
    while i < responses.len()
        invariant
            i <= responses@.len(),
            all == responses@.map_values(|l: Vec<u8>| l@),
            resolve_spec(all, sequence) == resolve_spec(
                all.subrange(i as int, all.len() as int),
                sequence,
            ),
        decreases responses@.len() - i,
    {
        let step = correlate(&responses[i], sequence);
        proof {
            let rest = all.subrange(i as int, all.len() as int);
            assert(rest[0] == all[i as int]);
            assert(rest.subrange(1, rest.len() as int) =~= all.subrange(
                i + 1,
                all.len() as int,
            ));
        }
        match step {
            Some(r) => {
                return r;
            },
            None => {},
        }
        i = i + 1;
    }
    proof {
        assert(all.subrange(all.len() as int, all.len() as int) =~= Seq::<Seq<u8>>::empty());
    }
    Response::PlainOk
}

/// The correlation law: unrelated lines do not cause resolution. If every
/// line before index `i` fails to correlate with `sequence` and the line
/// at `i` correlates, the whole stream resolves to that line's response.
pub proof fn lemma_resolve_first_match(lines: Seq<Seq<u8>>, sequence: i32, i: int)
    requires
        0 <= i < lines.len(),
        correlate_spec(lines[i], sequence) is Some,
        forall|j: int| 0 <= j < i ==> correlate_spec(#[trigger] lines[j], sequence) is None,
    ensures
        resolve_spec(lines, sequence) == correlate_spec(lines[i], sequence)->0,
    decreases i,
{
    if i > 0 {
        let rest = lines.subrange(1, lines.len() as int);
        assert(rest[i - 1] == lines[i]);
        assert(forall|j: int| 0 <= j < i - 1 ==> #[trigger] rest[j] == lines[j + 1]);
        lemma_resolve_first_match(rest, sequence, i - 1);
    }
}

/// One step of the acknowledgement correlator.
pub fn correlate(line: &Vec<u8>, sequence: i32) -> (r: Option<Response>)
    ensures
        r == correlate_spec(line@, sequence),
{
    match classify(line) {
        Response::SequencedOk(n) => if n == sequence {
            Some(Response::SequencedOk(n))
        } else {
            None
        },
        Response::Resend(n) => if n == sequence {
            Some(Response::Resend(n))
        } else {
            None
        },
        _ => None,
    }
}

} // verus!
