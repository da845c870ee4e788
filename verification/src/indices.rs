//! Picking positions out of a listing: the positions at which a mask holds,
//! in ascending order.

use vstd::prelude::*;

verus! {

/// The positions of `mask` that hold `true`, in ascending order.
pub open spec fn picked(mask: Seq<bool>) -> Seq<int>
    decreases mask.len(),
{
    if mask.len() == 0 {
        Seq::empty()
    } else if mask.last() {
        picked(mask.drop_last()).push(mask.len() - 1)
    } else {
        picked(mask.drop_last())
    }
}

/// The machine indices `v` read as mathematical integers.
pub open spec fn positions(v: Seq<usize>) -> Seq<int> {
    v.map_values(|i: usize| i as int)
}

/// `picked(mask)` holds exactly the positions at which `mask` is true, each
/// once and in ascending order; so it is as long as `mask` only when `mask`
/// is true everywhere.
pub proof fn lemma_picked(mask: Seq<bool>)
    ensures
        forall|k: int| 0 <= k < picked(mask).len() ==> 0 <= #[trigger] picked(mask)[k] < mask.len(),
        forall|k: int| 0 <= k < picked(mask).len() ==> mask[#[trigger] picked(mask)[k]],
        forall|j: int, k: int|
            0 <= j < k < picked(mask).len() ==> picked(mask)[j] < picked(mask)[k],
        forall|i: int| 0 <= i < mask.len() && mask[i] ==> picked(mask).contains(i),
        picked(mask).len() <= mask.len(),
        picked(mask).len() == mask.len() <==> (forall|i: int| 0 <= i < mask.len() ==> mask[i]),
    decreases mask.len(),
{
    if mask.len() > 0 {
        let init = mask.drop_last();
        let last = mask.len() - 1;
        lemma_picked(init);
        assert forall|i: int| 0 <= i < mask.len() && mask[i] implies picked(mask).contains(i) by {
            if i < last {
                assert(init[i]);
                let k = choose|k: int| 0 <= k < picked(init).len() && picked(init)[k] == i;
                assert(picked(mask)[k] == i);
            } else {
                assert(picked(mask)[picked(mask).len() - 1] == i);
            }
        }
        if picked(mask).len() == mask.len() {
            assert(mask.last());
            assert forall|i: int| 0 <= i < mask.len() implies mask[i] by {
                if i < last {
                    assert(init[i]);
                }
            }
        }
        if forall|i: int| 0 <= i < mask.len() ==> mask[i] {
            assert forall|i: int| 0 <= i < init.len() implies init[i] by {
                assert(mask[i]);
            }
        }
    }
}

/// The positions at which `mask` holds `true`, in ascending order.
pub fn pick(mask: &Vec<bool>) -> (chosen: Vec<usize>)
    ensures
        positions(chosen@) == picked(mask@),
{
    let mut chosen: Vec<usize> = Vec::new();
    let mut i: usize = 0;
    while i < mask.len()
        invariant
            i <= mask.len(),
            positions(chosen@) == picked(mask@.take(i as int)),
        decreases mask.len() - i,
    {
        proof {
            assert(mask@.take(i + 1).drop_last() == mask@.take(i as int));
        }
        if mask[i] {
            chosen.push(i);
            assert(positions(chosen@) == picked(mask@.take(i + 1)));
        }
        i += 1;
    }
    proof {
        assert(mask@.take(i as int) == mask@);
    }
    chosen
}

} // verus!
