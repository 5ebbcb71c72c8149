//! Capability bounds of rows and of the functions handed to the verbs.
//!
//! Every trait here is a named set of bounds with a blanket impl: any type
//! with the right shape and thread-safety already has it.

use vstd::prelude::*;

verus! {

/// Short for `Send + Sync`.
pub trait ThreadSafe: Send + Sync {}

impl<T: Send + Sync> ThreadSafe for T {}

/// What a data frame stores: a row that can be duplicated and shared
/// between worker threads.
pub trait Record: Clone + ThreadSafe {}

impl<T: Clone + ThreadSafe> Record for T {}

/// A function that turns a row of one type into a row of another.
pub trait Transform<R: Record, N: Record>: ThreadSafe + Fn(R) -> N {}

impl<R: Record, N: Record, T: ThreadSafe + Fn(R) -> N> Transform<R, N> for T {}

/// A function that edits a row in place.
pub trait Mutation<R: Record>: ThreadSafe + Fn(&mut R) {}

impl<R: Record, T: ThreadSafe + Fn(&mut R)> Mutation<R> for T {}

/// A function that accepts or rejects a row.
pub trait Predicate<R: Record>: ThreadSafe + Fn(&R) -> bool {}

impl<R: Record, T: ThreadSafe + Fn(&R) -> bool> Predicate<R> for T {}

/// A function that makes a row out of nothing.
pub trait Constructor<R: Record>: ThreadSafe + Fn() -> R {}

impl<R: Record, T: ThreadSafe + Fn() -> R> Constructor<R> for T {}

} // verus!
