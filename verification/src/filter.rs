//! `filter`

use vstd::prelude::*;
use crate::dataframe::{duplicates, DataFrame};
use crate::parallel::{mapped, par_filter_map};
use crate::picks::{lemma_somes_len, lemma_somes_positions, some_positions, somes};
use crate::traits::{Predicate, Record};

verus! {

/// `p` accepts every row of `rows` as an argument.
pub open spec fn predicate_accepts<R: Record, P: Predicate<R>>(p: P, rows: Seq<R>) -> bool {
    forall|i: int| 0 <= i < rows.len() ==> call_requires(p, (&#[trigger] rows[i],))
}

/// `pick` is what a filter by `p` may leave of `r`: a duplicate of `r`
/// where `p` may say `true`, nothing where it may say `false`.
pub open spec fn row_filtered<R: Record, P: Predicate<R>>(p: P, r: R, pick: Option<R>) -> bool {
    match pick {
        Some(c) => call_ensures(p, (&r,), true) && cloned(r, c),
        None => call_ensures(p, (&r,), false),
    }
}

/// `picks` holds, row by row, what a filter by `p` may leave of that row.
pub open spec fn filter_picks<R: Record, P: Predicate<R>>(
    p: P,
    rows: Seq<R>,
    picks: Seq<Option<R>>,
) -> bool {
    &&& picks.len() == rows.len()
    &&& forall|i: int| 0 <= i < rows.len() ==> row_filtered(p, rows[i], #[trigger] picks[i])
}

/// `out` is a possible result of filtering `rows` by `p`: duplicates of the
/// rows that `p` accepted, in the order of `rows`, and nothing else.
pub open spec fn filtered<R: Record, P: Predicate<R>>(p: P, rows: Seq<R>, out: Seq<R>) -> bool {
    exists|picks: Seq<Option<R>>| #[trigger] filter_picks(p, rows, picks) && out == somes(picks)
}

/// `p` answers as `holds` does on every row of `rows`.
pub open spec fn decides<R: Record, P: Predicate<R>>(
    p: P,
    holds: spec_fn(R) -> bool,
    rows: Seq<R>,
) -> bool {
    forall|i: int, b: bool|
        0 <= i < rows.len() && #[trigger] call_ensures(p, (&rows[i],), b) ==> b == holds(rows[i])
}

impl<R: Record> DataFrame<R> {
    /// Return the rows that satisfy the predicate, in their order. Only the
    /// rows that are kept are duplicated.
    pub fn filter<P: Predicate<R>>(&self, p: P) -> (out: DataFrame<R>)
        requires
            predicate_accepts(p, self@),
        ensures
            filtered(p, self@, out@),
            out@.len() <= self@.len(),
    {
        let accept = Ghost(p);
        let keep = |r: &R| -> (pick: Option<R>)
            requires
                call_requires(accept@, (r,)),
            ensures
                row_filtered(accept@, *r, pick)
            {
                if p(r) {
                    Some(r.clone())
                } else {
                    None
                }
            };
        let kept = par_filter_map(self.rows(), keep);
        proof {
            let picks = choose|picks: Seq<Option<R>>| #[trigger]
                mapped(keep, self@, picks) && kept@ == somes(picks);
            assert(filter_picks(p, self@, picks));
            lemma_somes_len(picks);
        }
        DataFrame::from_rows(kept)
    }
}

/// A filter keeps the relative order of the rows it retains: the result's
/// rows are duplicates of rows at strictly ascending positions of the input,
/// each one accepted by the predicate, and every row at another position was
/// rejected.
pub proof fn lemma_filter_preserves_order<R: Record, P: Predicate<R>>(
    p: P,
    rows: Seq<R>,
    out: Seq<R>,
)
    requires
        filtered(p, rows, out),
    ensures
        exists|at: Seq<int>|
            {
                &&& at.len() == out.len()
                &&& forall|k: int|
                    0 <= k < at.len() ==> {
                        &&& 0 <= (#[trigger] at[k]) < rows.len()
                        &&& cloned(rows[at[k]], out[k])
                        &&& call_ensures(p, (&rows[at[k]],), true)
                    }
                &&& forall|j: int, k: int|
                    0 <= j < k < at.len() ==> (#[trigger] at[j]) < (#[trigger] at[k])
                &&& forall|i: int|
                    0 <= i < rows.len() && !at.contains(i) ==> call_ensures(
                        p,
                        (&#[trigger] rows[i],),
                        false,
                    )
            },
{
    let picks = choose|picks: Seq<Option<R>>| #[trigger]
        filter_picks(p, rows, picks) && out == somes(picks);
    let at = some_positions(picks);
    lemma_somes_positions(picks);
    assert forall|k: int| 0 <= k < at.len() implies {
        &&& 0 <= (#[trigger] at[k]) < rows.len()
        &&& cloned(rows[at[k]], out[k])
        &&& call_ensures(p, (&rows[at[k]],), true)
    } by {
        assert(row_filtered(p, rows[at[k]], picks[at[k]]));
    }
    assert forall|i: int| 0 <= i < rows.len() && !at.contains(i) implies call_ensures(
        p,
        (&#[trigger] rows[i],),
        false,
    ) by {
        assert(row_filtered(p, rows[i], picks[i]));
    }
}

/// Where the predicate answers as `holds` does, a filter returns as many
/// rows as satisfy `holds`, and they are duplicates of exactly those rows.
pub proof fn lemma_filter_len<R: Record, P: Predicate<R>>(
    p: P,
    holds: spec_fn(R) -> bool,
    rows: Seq<R>,
    out: Seq<R>,
)
    requires
        filtered(p, rows, out),
        decides(p, holds, rows),
    ensures
        out.len() == rows.filter(holds).len(),
        duplicates(rows.filter(holds), out),
{
    let picks = choose|picks: Seq<Option<R>>| #[trigger]
        filter_picks(p, rows, picks) && out == somes(picks);
    lemma_picks_follow_filter(p, holds, rows, picks);
}

/// The step of `lemma_filter_len`, by induction on the number of rows.
proof fn lemma_picks_follow_filter<R: Record, P: Predicate<R>>(
    p: P,
    holds: spec_fn(R) -> bool,
    rows: Seq<R>,
    picks: Seq<Option<R>>,
)
    requires
        filter_picks(p, rows, picks),
        decides(p, holds, rows),
    ensures
        duplicates(rows.filter(holds), somes(picks)),
    decreases rows.len(),
{
    reveal(Seq::filter);
    if rows.len() > 0 {
        let front = rows.drop_last();
        let front_picks = picks.drop_last();
        assert forall|i: int| 0 <= i < front.len() implies row_filtered(
            p,
            front[i],
            #[trigger] front_picks[i],
        ) by {
            assert(row_filtered(p, rows[i], picks[i]));
        }
        assert forall|i: int, b: bool|
            0 <= i < front.len() && #[trigger] call_ensures(p, (&front[i],), b) implies b == holds(
            front[i],
        ) by {
            assert(front[i] == rows[i]);
        }
        lemma_picks_follow_filter(p, holds, front, front_picks);
        let last = rows.len() - 1;
        assert(row_filtered(p, rows[last], picks[last]));
    }
}

} // verus!
