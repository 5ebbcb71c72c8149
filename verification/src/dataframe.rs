//! The row store and its general-purpose verb.

use vstd::prelude::*;
use crate::parallel::par_map;
use crate::traits::{Record, Transform};

verus! {

/// An ordered collection of rows of one type.
///
/// Its view is the sequence of its rows, in insertion order. Verbs borrow a
/// frame and return a new one; none reorders or edits the frame it reads.
#[derive(Debug)]
pub struct DataFrame<R: Record> {
    pub(crate) rows: Vec<R>,
}

impl<R: Record> View for DataFrame<R> {
    type V = Seq<R>;

    closed spec fn view(&self) -> Seq<R> {
        self.rows@
    }
}

/// `b` holds, item by item, a duplicate of the item of `a`.
pub open spec fn duplicates<R: Record>(a: Seq<R>, b: Seq<R>) -> bool {
    &&& a.len() == b.len()
    &&& forall|i: int| 0 <= i < a.len() ==> cloned(a[i], #[trigger] b[i])
}

/// `n` is what `f` may return on some duplicate of `r`.
pub open spec fn row_transformed<R: Record, N: Record, T: Transform<R, N>>(f: T, r: R, n: N) -> bool {
    exists|c: R| cloned(r, c) && #[trigger] call_ensures(f, (c,), n)
}

/// `f` accepts every duplicate of every row in `rows`.
pub open spec fn transform_accepts<R: Record, N: Record, T: Transform<R, N>>(
    f: T,
    rows: Seq<R>,
) -> bool {
    forall|i: int, c: R|
        0 <= i < rows.len() && #[trigger] cloned(rows[i], c) ==> call_requires(f, (c,))
}

/// `out` holds, row by row, what `f` may return on a duplicate of that row.
pub open spec fn transformed<R: Record, N: Record, T: Transform<R, N>>(
    f: T,
    rows: Seq<R>,
    out: Seq<N>,
) -> bool {
    &&& out.len() == rows.len()
    &&& forall|i: int| 0 <= i < rows.len() ==> row_transformed(f, rows[i], #[trigger] out[i])
}

impl<R: Record> DataFrame<R> {
    /// Create an empty data frame.
    pub fn new() -> (out: Self)
        ensures
            out@ == Seq::<R>::empty(),
    {
        Self { rows: Vec::new() }
    }

    /// Build a data frame with `ctor`, which may use values of its environment.
    pub fn with<C: Fn() -> DataFrame<R>>(ctor: C) -> (out: Self)
        requires
            call_requires(ctor, ()),
        ensures
            call_ensures(ctor, (), out),
    {
        ctor()
    }

    /// Wrap a vector of rows.
    pub(crate) fn from_rows(rows: Vec<R>) -> (out: Self)
        ensures
            out@ == rows@,
    {
        Self { rows }
    }

    /// The rows, in order, for reading.
    pub fn rows(&self) -> (rows: &Vec<R>)
        ensures
            rows@ == self@,
    {
        &self.rows
    }

    /// The number of rows.
    pub fn len(&self) -> (n: usize)
        ensures
            n == self@.len(),
    {
        self.rows.len()
    }

    /// Append `r` after the last row.
    pub fn push(&mut self, r: R)
        ensures
            final(self)@ == old(self)@.push(r),
    {
        self.rows.push(r);
    }

    /// Append the rows of `rows`, in their order, after the last row.
    pub fn extend(&mut self, rows: Vec<R>)
        ensures
            final(self)@ == old(self)@ + rows@,
    {
        let mut rows = rows;
        self.rows.append(&mut rows);
    }

    /// General-purpose transformation: a new frame with `transform` applied
    /// to a duplicate of each row, in the order of the rows.
    pub fn transform<New: Record, T: Transform<R, New>>(&self, transform: T) -> (out: DataFrame<New>)
        requires
            transform_accepts(transform, self@),
        ensures
            transformed(transform, self@, out@),
    {
        let mapped = par_map(
            &self.rows,
            |r: &R| -> (n: New)
                requires
                    forall|c: R| #[trigger] cloned(*r, c) ==> call_requires(transform, (c,)),
                ensures
                    row_transformed(transform, *r, n)
                {
                    let c = r.clone();
                    assert(cloned(*r, c));
                    transform(c)
                },
        );
        DataFrame::from_rows(mapped)
    }
}

} // verus!
