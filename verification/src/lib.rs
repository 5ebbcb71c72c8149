//! Data frames of typed rows, and a small algebra of verbs over them.
//!
//! A [`DataFrame`] holds rows of one record type. The verbs (`transform`,
//! `select`, `mutate`, `filter`, `lookup`, `gather`) read one or two frames
//! and return a new one; the per-row work is spread over rayon's workers,
//! and the result keeps the order of the rows it was made from.
//!
//! Every verb takes functions of the caller's. What a verb returns is stated
//! in terms of what those functions may return, and of what duplicating a
//! row may give: each module defines the predicate that holds of the
//! possible results of its verb, and proves the laws that follow from it.
//!
//! [`dynamic`] holds a second kind of frame, whose columns are typed at run
//! time.

pub mod traits;
pub mod picks;
pub mod parallel;
pub mod dataframe;
pub mod dynamic;
pub mod filter;
pub mod gather;
pub mod lookup;
pub mod mutate;
pub mod select;

pub use dataframe::DataFrame;
pub use traits::{Constructor, Mutation, Predicate, Record, ThreadSafe, Transform};
