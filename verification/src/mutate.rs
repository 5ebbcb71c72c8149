//! `mutate`

use vstd::prelude::*;
use crate::dataframe::{duplicates, row_transformed, DataFrame};
use crate::traits::{Mutation, Record};

verus! {

/// `m` accepts an exclusive borrow of any duplicate of any row of `rows`.
pub open spec fn mutation_accepts<R: Record, M: Mutation<R>>(m: M, rows: Seq<R>) -> bool {
    forall|i: int, x: &mut R|
        0 <= i < rows.len() && #[trigger] cloned(rows[i], *x) ==> call_requires(m, (x,))
}

/// `x` is an exclusive borrow of a duplicate of `r`, as a call of `m` may
/// have taken it. What the call left behind is the borrow's final value.
pub open spec fn row_mutation<R: Record, M: Mutation<R>>(m: M, r: R, x: &mut R) -> bool {
    cloned(r, *x) && call_ensures(m, (x,), ())
}

/// `edits` holds, row by row, a borrow of a duplicate of that row as a call
/// of `m` may have taken it.
pub open spec fn mutations<R: Record, M: Mutation<R>>(
    m: M,
    rows: Seq<R>,
    edits: Seq<&mut R>,
) -> bool {
    &&& edits.len() == rows.len()
    &&& forall|i: int| 0 <= i < rows.len() ==> row_mutation(m, rows[i], #[trigger] edits[i])
}

impl<R: Record> DataFrame<R> {
    /// Create or alter columns: a new frame that holds, row by row, a
    /// duplicate of the row after `mutation` has edited it. `self` is left
    /// as it was.
    pub fn mutate<M: Mutation<R>>(&self, mutation: M) -> (out: DataFrame<R>)
        requires
            mutation_accepts(mutation, self@),
        ensures
            out@.len() == self@.len(),
            exists|edits: Seq<&mut R>|
                {
                    &&& #[trigger] mutations(mutation, self@, edits)
                    &&& forall|i: int|
                        0 <= i < edits.len() ==> out@[i] == *final(#[trigger] edits[i])
                },
    {
        let edit = Ghost(mutation);
        let edited = |r: R| -> (n: R)
            requires
                forall|x: &mut R| *x == r ==> call_requires(edit@, (x,)),
            ensures
                exists|x: &mut R|
                    #![trigger call_ensures(edit@, (x,), ())]
                    *x == r && call_ensures(edit@, (x,), ()) && *final(x) == n
            {
                let mut r = r;
                mutation(&mut r);
                r
            };
        let out = self.transform(edited);
        proof {
            let edits = Seq::new(
                self@.len(),
                |i: int|
                    choose|x: &mut R|
                        #![trigger row_mutation(mutation, self@[i], x)]
                        row_mutation(mutation, self@[i], x) && *final(x) == out@[i],
            );
            assert forall|i: int| 0 <= i < self@.len() implies row_mutation(
                mutation,
                self@[i],
                #[trigger] edits[i],
            ) && *final(edits[i]) == out@[i] by {
                assert(row_transformed(edited, self@[i], out@[i]));
                let c = choose|c: R| cloned(self@[i], c) && #[trigger] call_ensures(
                    edited,
                    (c,),
                    out@[i],
                );
                let x = choose|x: &mut R|
                    #![trigger call_ensures(edit@, (x,), ())]
                    *x == c && call_ensures(edit@, (x,), ()) && *final(x) == out@[i];
                assert(row_mutation(mutation, self@[i], x));
            }
            assert(mutations(mutation, self@, edits));
        }
        out
    }
}

/// A mutation that edits nothing yields a frame equal in content to the one
/// it read: each row of the result is a duplicate of the row at the same
/// place, and the very same row where duplicating is exact.
pub proof fn lemma_mutate_identity<R: Record, M: Mutation<R>>(m: M, rows: Seq<R>, out: Seq<R>)
    requires
        out.len() == rows.len(),
        exists|edits: Seq<&mut R>|
            {
                &&& #[trigger] mutations(m, rows, edits)
                &&& forall|i: int| 0 <= i < edits.len() ==> out[i] == *final(#[trigger] edits[i])
            },
        forall|x: &mut R| #[trigger] call_ensures(m, (x,), ()) ==> *final(x) == *x,
    ensures
        duplicates(rows, out),
        (forall|a: R, b: R| #[trigger] cloned(a, b) ==> a == b) ==> out == rows,
{
    let edits = choose|edits: Seq<&mut R>|
        {
            &&& #[trigger] mutations(m, rows, edits)
            &&& forall|i: int| 0 <= i < edits.len() ==> out[i] == *final(#[trigger] edits[i])
        };
    assert forall|i: int| 0 <= i < rows.len() implies cloned(rows[i], #[trigger] out[i]) by {
        assert(row_mutation(m, rows[i], edits[i]));
    }
    if forall|a: R, b: R| #[trigger] cloned(a, b) ==> a == b {
        assert(out =~= rows);
    }
}

} // verus!
