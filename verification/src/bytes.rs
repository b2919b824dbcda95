//! Small verified helpers on byte vectors.

use vstd::prelude::*;

verus! {

/// Copies `src[from..to]` into a fresh vector.
pub fn copy_range(src: &Vec<u8>, from: usize, to: usize) -> (r: Vec<u8>)
    requires
        from <= to <= src.len(),
    ensures
        r@ == src@.subrange(from as int, to as int),
{
    let mut r: Vec<u8> = Vec::new();
    let mut i: usize = from;
    while i < to
        invariant
            from <= i <= to <= src.len(),
            r@ =~= src@.subrange(from as int, i as int),
        decreases to - i,
    {
        r.push(src[i]);
        i += 1;
    }
    proof {
        assert(r@ =~= src@.subrange(from as int, to as int));
    }
    r
}

/// Decides whether `pat` occurs in `data` starting at position `i`.
pub fn matches_at(data: &Vec<u8>, i: usize, pat: &Vec<u8>) -> (r: bool)
    ensures
        r == (i + pat@.len() <= data@.len() && data@.subrange(
            i as int,
            i + pat@.len(),
        ) == pat@),
{
    if pat.len() > data.len() || i > data.len() - pat.len() {
        return false;
    }
    let mut j: usize = 0;
    while j < pat.len()
        invariant
            i + pat@.len() <= data@.len(),
            data@.len() <= usize::MAX,
            j <= pat@.len(),
            forall|k: int| 0 <= k < j ==> data@[i + k] == pat@[k],
        decreases pat@.len() - j,
    {
        if data[i + j] != pat[j] {
            assert(data@.subrange(i as int, i + pat@.len())[j as int] != pat@[j as int]);
            return false;
        }
        j += 1;
    }
    proof {
        assert(data@.subrange(i as int, i + pat@.len()) =~= pat@);
    }
    true
}

} // verus!
