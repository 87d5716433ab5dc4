//! The outcome of asking for something that may not be there yet.

use vstd::prelude::*;

verus! {

/// Either a value, or not yet.
#[derive(Debug, PartialEq, Eq)]
pub enum Poll<T> {
    /// The value is available.
    Ready(T),
    /// Nothing is available yet; ask again after the next change.
    Pending,
}

impl<T> Poll<T> {
    /// Whether the value is available.
    pub fn is_ready(&self) -> (r: bool)
        ensures
            r == (self is Ready),
    {
        match self {
            Poll::Ready(_) => true,
            Poll::Pending => false,
        }
    }

    /// Whether nothing is available yet.
    pub fn is_pending(&self) -> (r: bool)
        ensures
            r == (self is Pending),
    {
        match self {
            Poll::Ready(_) => false,
            Poll::Pending => true,
        }
    }
}

} // verus!
