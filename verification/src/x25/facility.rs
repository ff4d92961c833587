//! Facilities negotiated at call setup.

use vstd::prelude::*;

verus! {

/// A facility carried in a call or clear packet.
///
/// Both kinds hold two values named from the called DTE's side:
/// `from_called` governs data travelling from the called DTE, `from_calling`
/// data travelling from the calling DTE.
#[derive(Clone, Copy, Debug, PartialEq, Eq, Structural)]
#[allow(inconsistent_fields)]
pub enum X25Facility {
    /// Packet sizes in bytes.
    PacketSize { from_called: usize, from_calling: usize },
    /// Window sizes in packets.
    WindowSize { from_called: u8, from_calling: u8 },
}

} // verus!
