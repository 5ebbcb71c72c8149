//! Data-parallel passes over a vector of rows.
//!
//! The passes are run by rayon on its thread pool. Each keeps the order of
//! the rows it is given, whatever the order in which the workers finish.
//! Nothing in this module is proved: the contracts record what rayon's
//! adaptors do, and the verbs are proved against them.

use rayon::iter::{IntoParallelRefIterator, ParallelIterator};
use vstd::prelude::*;
use crate::picks::somes;

verus! {

/// `out` holds, row by row, one value that `f` may return on that row.
pub open spec fn mapped<'a, R: 'a, N, F: Fn(&'a R) -> N>(f: F, rows: Seq<R>, out: Seq<N>) -> bool {
    &&& out.len() == rows.len()
    &&& forall|i: int| 0 <= i < rows.len() ==> call_ensures(f, (&rows[i],), #[trigger] out[i])
}

/// `out` holds the payloads of what `f` may return row by row, without the
/// rows on which it returned `None`.
pub open spec fn filter_mapped<'a, R: 'a, N, F: Fn(&'a R) -> Option<N>>(
    f: F,
    rows: Seq<R>,
    out: Seq<N>,
) -> bool {
    exists|picks: Seq<Option<N>>| #[trigger] mapped(f, rows, picks) && out == somes(picks)
}

/// `p` may accept the row at `i` and may reject every row before it.
pub open spec fn first_hit<'a, R: 'a, P: Fn(&&'a R) -> bool>(p: P, rows: Seq<R>, i: int) -> bool {
    &&& 0 <= i < rows.len()
    &&& call_ensures(p, (&&rows[i],), true)
    &&& forall|j: int| 0 <= j < i ==> call_ensures(p, (&&#[trigger] rows[j],), false)
}

/// `p` may reject every row.
pub open spec fn no_hit<'a, R: 'a, P: Fn(&&'a R) -> bool>(p: P, rows: Seq<R>) -> bool {
    forall|j: int| 0 <= j < rows.len() ==> call_ensures(p, (&&#[trigger] rows[j],), false)
}

/// `found` is the outcome of a search for the first row that `p` accepts.
pub open spec fn found_first<'a, R: 'a, P: Fn(&&'a R) -> bool>(
    p: P,
    rows: Seq<R>,
    found: Option<&'a R>,
) -> bool {
    match found {
        Some(r) => exists|i: int| #[trigger] first_hit(p, rows, i) && *r == rows[i],
        None => no_hit(p, rows),
    }
}

/// rayon's `par_iter().map(f).collect()` into a `Vec`.
///
/// Claims that `f` is applied to each row once and that the results stand
/// in the order of the rows: the vector has one entry per row, and entry `i`
/// is what a call of `f` on row `i` returned.
#[verifier::external_body]
pub(crate) fn par_map<'a, R, N, F>(rows: &'a Vec<R>, f: F) -> (out: Vec<N>) where
    R: Sync,
    N: Send,
    F: Fn(&'a R) -> N + Sync + Send,

    requires
        forall|i: int| 0 <= i < rows@.len() ==> call_requires(f, (&#[trigger] rows@[i],)),
    ensures
        mapped(f, rows@, out@),
{
    rows.par_iter().map(f).collect()
}

/// rayon's `par_iter().filter_map(f).collect()` into a `Vec`.
///
/// Claims that `f` is applied to each row once, and that the vector holds
/// the payloads of the `Some` results in the order of the rows they came
/// from; a row on which `f` returned `None` leaves nothing behind.
#[verifier::external_body]
pub(crate) fn par_filter_map<'a, R, N, F>(rows: &'a Vec<R>, f: F) -> (out: Vec<N>) where
    R: Sync,
    N: Send,
    F: Fn(&'a R) -> Option<N> + Sync + Send,

    requires
        forall|i: int| 0 <= i < rows@.len() ==> call_requires(f, (&#[trigger] rows@[i],)),
    ensures
        filter_mapped(f, rows@, out@),
{
    rows.par_iter().filter_map(f).collect()
}

/// rayon's `par_iter().find_first(p)`.
///
/// Claims that the search returns the row of lowest index on which `p`
/// returned `true`, having seen `p` return `false` on every row before it,
/// and `None` when `p` returned `false` on every row.
#[verifier::external_body]
pub(crate) fn par_find_first<'a, R, P>(rows: &'a Vec<R>, p: P) -> (found: Option<&'a R>) where
    R: Sync,
    P: Fn(&&'a R) -> bool + Sync + Send,

    requires
        forall|i: int| 0 <= i < rows@.len() ==> call_requires(p, (&&#[trigger] rows@[i],)),
    ensures
        found_first(p, rows@, found),
{
    rows.par_iter().find_first(p)
}

} // verus!
