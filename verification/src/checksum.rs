//! XOR checksum over byte sequences, as printer firmwares compute it.

use vstd::prelude::*;

verus! {

/// XOR of every byte of `s`, starting from 0.
pub open spec fn xor_of(s: Seq<u8>) -> u8
    decreases s.len(),
{
    if s.len() == 0 {
        0
    } else {
        xor_of(s.drop_last()) ^ s.last()
    }
}

/// XOR of the bytes of `s` in `lo..hi`.
pub fn xor_range(s: &Vec<u8>, lo: usize, hi: usize) -> (r: u8)
    requires
        lo <= hi <= s@.len(),
    ensures
        r == xor_of(s@.subrange(lo as int, hi as int)),
{
    let ghost d = s@.subrange(lo as int, hi as int);
    let mut acc: u8 = 0;
    let mut i: usize = lo;
    while i < hi
        invariant
            lo <= i <= hi <= s@.len(),
            d == s@.subrange(lo as int, hi as int),
            acc == xor_of(d.take(i - lo)),
        decreases hi - i,
    {
        proof {
            assert(d.take(i - lo + 1).drop_last() =~= d.take(i - lo));
            assert(d.take(i - lo + 1).last() == d[i - lo]);
        }
        acc = acc ^ s[i];
        i = i + 1;
    }
    proof {
        assert(d.take(hi - lo) =~= d);
    }
    acc
}

} // verus!
