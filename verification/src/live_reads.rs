//! The live read transactions, each by the number of the transaction that it
//! sees: which of them is the oldest.

use vstd::prelude::*;

verus! {

/// The smallest of `ids`, if there is any.
pub open spec fn smallest(ids: Seq<u64>) -> Option<u64>
    decreases ids.len(),
{
    if ids.len() == 0 {
        None
    } else {
        match smallest(ids.drop_last()) {
            Some(least) => if ids.last() < least {
                Some(ids.last())
            } else {
                Some(least)
            },
            None => Some(ids.last()),
        }
    }
}

/// The smallest of `ids` is one of them, and none of them is smaller.
pub proof fn smallest_is_least(ids: Seq<u64>)
    ensures
        ids.len() == 0 <==> smallest(ids) is None,
        smallest(ids) matches Some(least) ==> ids.contains(least) && forall|i: int|
            0 <= i < ids.len() ==> least <= #[trigger] ids[i],
    decreases ids.len(),
{
    if ids.len() > 0 {
        let front = ids.drop_last();
        smallest_is_least(front);
        let least = smallest(ids)->Some_0;
        if least == ids.last() {
            assert(ids[ids.len() - 1] == least);
        } else {
            let i = choose|i: int| 0 <= i < front.len() && front[i] == least;
            assert(ids[i] == least);
        }
        assert forall|i: int| 0 <= i < ids.len() implies least <= #[trigger] ids[i] by {
            if i < front.len() {
                assert(front[i] == ids[i]);
            }
        }
    }
}

/// Finds the smallest of `ids`.
pub fn smallest_of(ids: &Vec<u64>) -> (least: Option<u64>)
    ensures
        least == smallest(ids@),
{
    let mut least: Option<u64> = None;
    let mut i: usize = 0;
    while i < ids.len()
        invariant
            i <= ids@.len(),
            least == smallest(ids@.take(i as int)),
        decreases ids@.len() - i,
    {
        let id = ids[i];
        proof {
            let next = ids@.take(i + 1);
            assert(next.drop_last() =~= ids@.take(i as int));
            assert(next.last() == id);
        }
        least = match least {
            Some(so_far) => if id < so_far {
                Some(id)
            } else {
                Some(so_far)
            },
            None => Some(id),
        };
        i += 1;
    }
    assert(ids@.take(i as int) =~= ids@);
    least
}

} // verus!
