//! XOT framing: each X.25 packet travels over TCP behind a header of four
//! bytes, the version (zero) and the length of the packet, both big-endian.

use vstd::prelude::*;

verus! {

/// TCP port of XOT.
pub const TCP_PORT: u16 = 1998;

/// Length of the header in bytes.
pub const HEADER_LEN: usize = 4;

/// Longest packet that the length field can tell.
pub const MAX_PACKET_LEN: usize = 65535;

/// The header in front of a packet of `len` bytes.
pub open spec fn spec_header(len: int) -> Seq<u8> {
    seq![0u8, 0u8, (len / 256) as u8, (len % 256) as u8]
}

/// The length that a header tells, or `None` for a version other than
/// zero.
pub open spec fn spec_packet_len(header: Seq<u8>) -> Option<int>
    recommends
        header.len() == 4,
{
    if header[0] == 0 && header[1] == 0 {
        Some(header[2] * 256 + header[3])
    } else {
        None
    }
}

/// A header reads back the length it was made for.
pub proof fn lemma_header_roundtrip(len: int)
    requires
        0 <= len <= MAX_PACKET_LEN,
    ensures
        spec_packet_len(spec_header(len)) == Some(len),
{
}

/// The header for a packet of `len` bytes, or `None` for a packet too long
/// to be framed.
pub fn header(len: usize) -> (header: Option<[u8; 4]>)
    ensures
        len <= MAX_PACKET_LEN ==> header is Some && header->0@ == spec_header(len as int),
        len > MAX_PACKET_LEN ==> header is None,
{
    if len > MAX_PACKET_LEN {
        return None;
    }
    let header: [u8; 4] = [0, 0, (len / 256) as u8, (len % 256) as u8];
    proof {
        assert(header@ =~= spec_header(len as int));
    }
    Some(header)
}

/// The length of the packet behind a header, or `None` for a version other
/// than zero.
pub fn packet_len(header: &[u8; 4]) -> (len: Option<usize>)
    ensures
        match spec_packet_len(header@) {
            Some(n) => len == Some(n as usize) && n <= MAX_PACKET_LEN,
            None => len is None,
        },
{
    if header[0] != 0 || header[1] != 0 {
        return None;
    }
    Some(header[2] as usize * 256 + header[3] as usize)
}

} // verus!
