//! The input side of the background I/O loop: a rolling byte buffer from
//! which each complete newline-terminated line is split off exactly once,
//! in arrival order. A partial line stays in the buffer and is never
//! handed out.

use vstd::prelude::*;

verus! {

/// Whether `s` holds no newline at all.
pub open spec fn no_newline(s: Seq<u8>) -> bool {
    forall|i: int| 0 <= i < s.len() ==> s[i] != 10
}

/// Splits off the first complete line of `buf`, through its newline: the
/// line holds exactly one newline, as its last byte, and the buffer keeps
/// exactly the rest. Without a newline the buffer is left alone.
pub fn next_line(buf: &mut Vec<u8>) -> (r: Option<Vec<u8>>)
    ensures
        match r {
            Some(line) => {
                &&& line@.len() >= 1
                &&& line@.last() == 10
                &&& no_newline(line@.take(line@.len() - 1))
                &&& old(buf)@ == line@ + final(buf)@
            },
            None => final(buf)@ == old(buf)@ && no_newline(old(buf)@),
        },
{
    let n = buf.len();
    let mut p: usize = 0;
    while p < n
        invariant
            p <= n == buf@.len(),
            buf@ == old(buf)@,
            no_newline(buf@.take(p as int)),
        decreases n - p,
    {
        if buf[p] == 10 {
            let mut line: Vec<u8> = Vec::new();
            let mut i: usize = 0;
            while i < p + 1
                invariant
                    i <= p + 1 <= n == buf@.len(),
                    buf@ == old(buf)@,
                    line@ == buf@.take(i as int),
                decreases p + 1 - i,
            {
                line.push(buf[i]);
                proof {
                    assert(line@ =~= buf@.take(i + 1));
                }
                i = i + 1;
            }
            let mut rest: Vec<u8> = Vec::new();
            let mut j: usize = p + 1;
            while j < n
                invariant
                    p + 1 <= j <= n == buf@.len(),
                    buf@ == old(buf)@,
                    rest@ == buf@.subrange(p + 1, j as int),
                decreases n - j,
            {
                rest.push(buf[j]);
                proof {
                    assert(rest@ =~= buf@.subrange(p + 1, j + 1));
                }
                j = j + 1;
            }
            proof {
                assert(old(buf)@ =~= buf@.take(p + 1) + buf@.subrange(p + 1, n as int));
                assert(line@.take(line@.len() - 1) =~= buf@.take(p as int));
            }
            *buf = rest;
            return Some(line);
        }
        proof {
            assert(buf@.take(p + 1).drop_last() =~= buf@.take(p as int));
        }
        p = p + 1;
    }
    proof {
        assert(buf@.take(n as int) =~= buf@);
    }
    None
}

} // verus!
