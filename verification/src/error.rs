//! Errors of the index writer.

use vstd::prelude::*;

verus! {

/// What can go wrong while documents are indexed, committed or merged.
#[derive(Debug)]
pub enum Error {
    /// A thread panicked. Holds a rendering of what it panicked with.
    ErrorInThread(String),
    /// The index itself (its files, segments or searchers) reported a failure.
    /// Holds the message.
    IndexError(String),
}

} // verus!
