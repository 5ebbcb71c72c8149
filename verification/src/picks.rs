//! Sequences of optional results, and what is left of them once the empty
//! entries are dropped.
//!
//! A verb that may drop rows produces one `Option` per input row and keeps
//! the payloads of the `Some` entries, in order. [`somes`] is that packing;
//! the lemmas say how long the packed sequence is and where each of its
//! items came from.

use vstd::prelude::*;

verus! {

/// The payloads of the `Some` entries of `picks`, in the order of `picks`.
pub open spec fn somes<N>(picks: Seq<Option<N>>) -> Seq<N>
    decreases picks.len(),
{
    if picks.len() == 0 {
        Seq::empty()
    } else {
        match picks.last() {
            Some(n) => somes(picks.drop_last()).push(n),
            None => somes(picks.drop_last()),
        }
    }
}

/// The positions of the `Some` entries of `picks`, ascending.
pub open spec fn some_positions<N>(picks: Seq<Option<N>>) -> Seq<int>
    decreases picks.len(),
{
    if picks.len() == 0 {
        Seq::empty()
    } else {
        match picks.last() {
            Some(_) => some_positions(picks.drop_last()).push(picks.len() - 1),
            None => some_positions(picks.drop_last()),
        }
    }
}

/// Packing never makes a sequence longer.
pub proof fn lemma_somes_len<N>(picks: Seq<Option<N>>)
    ensures
        somes(picks).len() <= picks.len(),
        somes(picks).len() == some_positions(picks).len(),
    decreases picks.len(),
{
    if picks.len() > 0 {
        lemma_somes_len(picks.drop_last());
    }
}

/// Where every pick is a `Some`, packing only unwraps.
pub proof fn lemma_somes_all_some<N>(picks: Seq<Option<N>>)
    requires
        forall|i: int| 0 <= i < picks.len() ==> (#[trigger] picks[i]) is Some,
    ensures
        somes(picks).len() == picks.len(),
        forall|i: int| 0 <= i < picks.len() ==> (#[trigger] somes(picks)[i]) == picks[i]->0,
    decreases picks.len(),
{
    if picks.len() > 0 {
        lemma_somes_all_some(picks.drop_last());
    }
}

/// The packed sequence is as long as the picks only where no pick is empty.
pub proof fn lemma_somes_full_len<N>(picks: Seq<Option<N>>)
    ensures
        somes(picks).len() == picks.len() <==> forall|i: int|
            0 <= i < picks.len() ==> (#[trigger] picks[i]) is Some,
    decreases picks.len(),
{
    if picks.len() > 0 {
        let front = picks.drop_last();
        lemma_somes_full_len(front);
        lemma_somes_len(front);
        if somes(picks).len() == picks.len() {
            assert(picks.last() is Some);
            assert forall|i: int| 0 <= i < picks.len() implies (#[trigger] picks[i]) is Some by {
                if i < front.len() {
                    assert(front[i] is Some);
                }
            }
        }
        if forall|i: int| 0 <= i < picks.len() ==> (#[trigger] picks[i]) is Some {
            assert forall|i: int| 0 <= i < front.len() implies (#[trigger] front[i]) is Some by {
                assert(picks[i] is Some);
            }
            assert(picks.last() == picks[picks.len() - 1]);
        }
    }
}

/// Each packed item is the payload of the pick at its position, the
/// positions ascend strictly, and every pick outside them is a `None`.
pub proof fn lemma_somes_positions<N>(picks: Seq<Option<N>>)
    ensures
        some_positions(picks).len() == somes(picks).len(),
        forall|k: int|
            0 <= k < somes(picks).len() ==> {
                &&& 0 <= (#[trigger] some_positions(picks)[k]) < picks.len()
                &&& picks[some_positions(picks)[k]] == Some(somes(picks)[k])
            },
        forall|j: int, k: int|
            0 <= j < k < somes(picks).len() ==> (#[trigger] some_positions(picks)[j]) < (
            #[trigger] some_positions(picks)[k]),
        forall|i: int|
            0 <= i < picks.len() && !some_positions(picks).contains(i) ==> (
            #[trigger] picks[i]) is None,
    decreases picks.len(),
{
    if picks.len() > 0 {
        let front = picks.drop_last();
        let at = some_positions(picks);
        lemma_somes_positions(front);
        assert forall|i: int| 0 <= i < picks.len() && !at.contains(i) implies (
        #[trigger] picks[i]) is None by {
            if i < front.len() {
                if some_positions(front).contains(i) {
                    let k = choose|k: int|
                        0 <= k < some_positions(front).len() && some_positions(front)[k] == i;
                    assert(at[k] == i);
                }
                assert(front[i] is None);
            } else {
                if picks.last() is Some {
                    assert(at[at.len() - 1] == i);
                }
            }
        }
    }
}

} // verus!
