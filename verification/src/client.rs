//! Backing storage for one TCP client: fixed receive and transmit
//! buffers, allocated up front so the network stack can borrow them
//! for a socket's lifetime.

use vstd::prelude::*;

verus! {

/// Receive buffer size in bytes.
pub const RX_BUF_SZ: usize = 4096;

/// Transmit buffer size in bytes.
pub const TX_BUF_SZ: usize = 4096;

/// The buffers one TCP client owns.
pub struct TcpClientStore {
    pub rx_buffer: [u8; RX_BUF_SZ],
    pub tx_buffer: [u8; TX_BUF_SZ],
}

impl TcpClientStore {
    /// Fresh, zero-filled storage.
    pub fn new() -> (r: Self)
        ensures
            forall|i: int| 0 <= i < RX_BUF_SZ ==> r.rx_buffer@[i] == 0,
            forall|i: int| 0 <= i < TX_BUF_SZ ==> r.tx_buffer@[i] == 0,
    {
        TcpClientStore { rx_buffer: [0; RX_BUF_SZ], tx_buffer: [0; TX_BUF_SZ] }
    }
}

} // verus!
