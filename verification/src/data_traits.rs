//! Traits that streaming indicator implementations provide: resetting to
//! the initial state, reporting the configured period, and consuming one
//! input to produce the next output.

use vstd::prelude::*;

verus! {

/// Restores the implementor to its freshly-constructed state.
pub trait Reset {
    fn reset(&mut self);
}

/// Reports the period the implementor was configured with.
pub trait Period {
    fn period(&self) -> usize;
}

/// Consumes one input value and produces the next output of a streaming
/// computation.
pub trait Next<T> {
    type Output;

    fn next(&mut self, input: T) -> Self::Output;
}

} // verus!
