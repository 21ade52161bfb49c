//! Events that a connection hands to the application.
use vstd::prelude::*;

verus! {

/// Messages from a connection to the application.
pub enum SerialEvent {
    /// Bytes received, with the time (in milliseconds) they were read.
    Data(Vec<u8>, u64),
    /// The port reported an error.
    Error(String),
    /// The port was disconnected.
    Disconnected,
    /// Writing to the port failed.
    WriteError(String),
}

} // verus!
