//! The boundary between the session and whatever carries its bytes.
use vstd::prelude::*;

verus! {

/// An active connection, backed by either real serial I/O or a simulator.
pub trait TransportConnection {
    /// Sends bytes, giving how many were taken or why none were.
    fn write(&mut self, data: &[u8]) -> Result<usize, String>;

    /// Bytes sent so far.
    fn tx_bytes(&self) -> u64;

    /// Bytes received so far.
    fn rx_bytes(&self) -> u64;

    /// The port this connection is open on.
    fn port_name(&self) -> &str;

    /// Runs time-based work; whether anything happened.
    fn tick(&mut self, now_ms: u64) -> bool;

    /// Closes the connection.
    fn close(&mut self);
}

/// The transport that opens real serial ports.
#[derive(Debug, Default)]
pub struct RealTransport;

impl RealTransport {
    pub fn new() -> (t: Self)
        ensures
            t == RealTransport,
    {
        RealTransport
    }
}

} // verus!
