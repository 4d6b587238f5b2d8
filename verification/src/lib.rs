pub mod codec;
pub mod laws;
pub mod ops;
pub mod state;
pub mod store;

use vstd::prelude::*;

verus! {

/// The failure kinds an operation can abort with.
#[derive(Clone, Copy, Debug, PartialEq, Eq, Structural)]
pub enum OpError {
    /// Missing or corrupt state root, or an index load/flush failure.
    IllegalState,
    /// Caller fails an authorization check.
    Forbidden,
    /// An encode or decode of stored bytes failed.
    Serialization,
    /// Unknown method selector.
    UnhandledOperation,
}

} // verus!
