//! Write-ahead log for a time-series storage engine.
//!
//! Every mutation (point write, vnode deletion, table deletion) is made
//! durable in an append-only segment file before it is acknowledged.  A
//! segment holds a contiguous range of globally increasing sequence numbers
//! and, once cleanly closed, ends in a footer recording that range.  The log
//! manager rolls to a new segment when a size threshold is exceeded, deletes
//! segments once the rest of the engine no longer needs their sequences, and
//! selects the segments that must be replayed during recovery.

use vstd::prelude::*;

pub mod bytes;
pub mod codec;
pub mod decoder;
pub mod reader;
pub mod manager;
pub mod writer;

verus! {

/// The conditions under which the log refuses or cuts short an operation.
#[derive(Eq, PartialEq, Clone, Copy, Debug, Structural)]
pub enum WalError {
    /// A segment ended in the middle of a record: the process crashed while
    /// the record was being appended.  Records before it remain valid.
    WalTruncated,
    /// A record's declared field sizes exceed the bytes it holds; the rest
    /// of that segment cannot be decoded.
    Decode,
    /// A segment file does not begin with the segment magic bytes.
    InvalidSegmentHeader,
}

} // verus!
