//! The connection interface that file transfers run over.

use vstd::prelude::*;
use crate::error::Error;

verus! {

/// Transport connection interface for file transfers: a simple send and
/// receive interface that each transport backend can implement.
pub trait TransportConnection {
    /// Send data over the connection; the number of bytes sent.
    fn send(&mut self, data: &[u8]) -> Result<usize, Error>;

    /// Receive data into the buffer; the number of bytes received.
    fn recv(&mut self, buffer: &mut [u8]) -> Result<usize, Error>;

    /// Close the connection.
    fn close(&mut self) -> Result<(), Error>;

    /// Check if the connection is still open.
    fn is_open(&self) -> bool;
}

} // verus!
