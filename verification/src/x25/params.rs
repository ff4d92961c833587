//! Parameters of a virtual circuit.

use crate::x121::X121Addr;
use crate::x25::seq::X25Modulo;
use vstd::prelude::*;

verus! {

/// Smallest packet size that can be negotiated, in bytes.
pub const MIN_PACKET_SIZE: usize = 16;

/// Largest packet size that can be negotiated, in bytes.
pub const MAX_PACKET_SIZE: usize = 4096;

/// Connection-scoped X.25 parameters. Timers are in milliseconds.
#[derive(Debug, PartialEq, Eq)]
pub struct X25Params {
    /// Local address.
    pub addr: X121Addr,
    pub modulo: X25Modulo,
    pub send_packet_size: usize,
    pub send_window_size: u8,
    pub recv_packet_size: usize,
    pub recv_window_size: u8,
    /// Call request timeout.
    pub t21: u64,
    /// Reset request timeout.
    pub t22: u64,
    /// Clear request timeout.
    pub t23: u64,
}

/// Mathematical model of [`X25Params`].
pub ghost struct X25ParamsView {
    pub addr: Seq<u8>,
    pub modulo: X25Modulo,
    pub send_packet_size: usize,
    pub send_window_size: u8,
    pub recv_packet_size: usize,
    pub recv_window_size: u8,
    pub t21: u64,
    pub t22: u64,
    pub t23: u64,
}

impl View for X25Params {
    type V = X25ParamsView;

    open spec fn view(&self) -> X25ParamsView {
        X25ParamsView {
            addr: self.addr@,
            modulo: self.modulo,
            send_packet_size: self.send_packet_size,
            send_window_size: self.send_window_size,
            recv_packet_size: self.recv_packet_size,
            recv_window_size: self.recv_window_size,
            t21: self.t21,
            t22: self.t22,
            t23: self.t23,
        }
    }
}

impl Clone for X25Params {
    fn clone(&self) -> (copy: Self)
        ensures
            copy@ == self@,
    {
        X25Params {
            addr: self.addr.clone(),
            modulo: self.modulo,
            send_packet_size: self.send_packet_size,
            send_window_size: self.send_window_size,
            recv_packet_size: self.recv_packet_size,
            recv_window_size: self.recv_window_size,
            t21: self.t21,
            t22: self.t22,
            t23: self.t23,
        }
    }
}

/// Whether `size` is a packet size that the wire format can carry: a power
/// of two from 16 to 4096.
pub open spec fn packet_size_valid(size: usize) -> bool {
    size == 16 || size == 32 || size == 64 || size == 128 || size == 256 || size == 512 || size
        == 1024 || size == 2048 || size == 4096
}

impl X25ParamsView {
    /// Packet sizes are powers of two from 16 to 4096 and window sizes lie
    /// between 1 and the modulus less one.
    pub open spec fn valid(self) -> bool {
        &&& packet_size_valid(self.send_packet_size)
        &&& packet_size_valid(self.recv_packet_size)
        &&& 1 <= self.send_window_size < self.modulo.spec_value()
        &&& 1 <= self.recv_window_size < self.modulo.spec_value()
    }
}

impl X25Params {
    /// Modulo 8, packets of 128 bytes, windows of 2, timers of 5 seconds.
    pub fn with_addr(addr: X121Addr) -> (params: X25Params)
        ensures
            params@ == (X25ParamsView {
                addr: addr@,
                modulo: X25Modulo::Normal,
                send_packet_size: 128,
                send_window_size: 2,
                recv_packet_size: 128,
                recv_window_size: 2,
                t21: 5000,
                t22: 5000,
                t23: 5000,
            }),
            params@.valid(),
    {
        X25Params {
            addr,
            modulo: X25Modulo::Normal,
            send_packet_size: 128,
            send_window_size: 2,
            recv_packet_size: 128,
            recv_window_size: 2,
            t21: 5000,
            t22: 5000,
            t23: 5000,
        }
    }

    /// Whether the parameters are ones a circuit can be set up with.
    pub fn is_valid(&self) -> (valid: bool)
        ensures
            valid == self@.valid(),
    {
        let n: u8 = self.modulo.value();
        is_packet_size(self.send_packet_size) && is_packet_size(self.recv_packet_size) && 1
            <= self.send_window_size && self.send_window_size < n && 1 <= self.recv_window_size
            && self.recv_window_size < n
    }
}

/// Whether `size` is a power of two from 16 to 4096.
pub fn is_packet_size(size: usize) -> (valid: bool)
    ensures
        valid == packet_size_valid(size),
{
    size == 16 || size == 32 || size == 64 || size == 128 || size == 256 || size == 512 || size
        == 1024 || size == 2048 || size == 4096
}

} // verus!
