use vstd::prelude::*;

verus! {

/// How many status words contain every bit of `mask`.
pub open spec fn spec_count_matching(s: Seq<u32>, mask: u32) -> int
    decreases s.len(),
{
    if s.len() == 0 {
        0
    } else {
        spec_count_matching(s.drop_last(), mask) + if s.last() & mask == mask {
            1int
        } else {
            0int
        }
    }
}

/// Tallies the entries whose status bits contain every bit of `mask`: the
/// count behind one change-count placeholder, applied to the per-file
/// status words of a repository's working tree and index.
pub fn count_matching(statuses: &Vec<u32>, mask: u32) -> (n: usize)
    ensures
        n as int == spec_count_matching(statuses@, mask),
{
    let mut cnt: usize = 0;
    let mut i: usize = 0;
    let len = statuses.len();
    while i < len
        invariant
            i <= len,
            len == statuses@.len(),
            cnt <= i,
            cnt as int == spec_count_matching(statuses@.take(i as int), mask),
        decreases len - i,
    {
        proof {
            let t = statuses@.take(i as int + 1);
            assert(t.drop_last() =~= statuses@.take(i as int));
            assert(t.last() == statuses@[i as int]);
        }
        if statuses[i] & mask == mask {
            cnt = cnt + 1;
        }
        i = i + 1;
    }
    proof {
        assert(statuses@.take(len as int) =~= statuses@);
    }
    cnt
}

} // verus!
