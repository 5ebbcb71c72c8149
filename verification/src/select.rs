//! `select`

use vstd::prelude::*;
use crate::dataframe::{transform_accepts, transformed, DataFrame};
use crate::traits::{Record, Transform};

verus! {

impl<R: Record> DataFrame<R> {
    /// Return a frame with a subset, or another arrangement, of the columns
    /// of `self`: `transform` makes each new row from a duplicate of the old
    /// one.
    ///
    /// This is `transform` under the name that projections are looked for.
    pub fn select<New: Record, T: Transform<R, New>>(&self, transform: T) -> (out: DataFrame<New>)
        requires
            transform_accepts(transform, self@),
        ensures
            transformed(transform, self@, out@),
    {
        self.transform(transform)
    }
}

} // verus!
