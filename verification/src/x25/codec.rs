//! The X.25 wire format of the packet types that the engine handles.
//!
//! Every packet starts with three bytes: the general format identifier
//! with the high bits of the channel, the low byte of the channel, and the
//! packet type. The format identifier carries the qualifier bit, the
//! delivery bit and the modulo; data and receive ready packets carry
//! sequence numbers in the type byte, and with modulo 128 in one byte more.

use crate::buf::{
    bytes_as_slice, bytes_copy_from_slice, bytes_len, bytes_mut_put_slice, bytes_mut_seq,
    bytes_new, bytes_seq,
};
use crate::x121::{x121_valid, X121Addr};
use crate::x25::facility::X25Facility;
use crate::x25::packet::{
    X25CallAccept, X25CallAcceptView, X25CallRequest, X25CallRequestView, X25ClearConfirm,
    X25ClearConfirmView, X25ClearRequest, X25ClearRequestView, X25Data, X25DataView,
    X25Interrupt, X25InterruptView, X25Packet, X25PacketView, X25ReceiveReady, X25ResetConfirm,
    X25ResetRequest,
};
use crate::x25::seq::X25Modulo;
use crate::x25::wire::{
    are_facilities_valid, encode_addr_block, encode_facility_block, facilities_valid,
    get_addr_block, get_facility_block, lemma_addr_block_roundtrip,
    lemma_facility_block_roundtrip, lemma_facility_list_len, parse_addr_block,
    parse_facility_block, put_addr_block, put_facility_block,
};
use bytes::{Bytes, BytesMut};
use vstd::prelude::*;
use vstd::slice::slice_subrange;

verus! {

/// Why bytes are not a packet, or why a packet cannot be written.
#[derive(Clone, Copy, Debug, PartialEq, Eq, Structural)]
pub enum X25PacketError {
    /// The bytes end too early, a field holds what it cannot hold, or a
    /// packet to write has a field out of range.
    PacketMalformed,
    /// The bytes are a packet of a type that is not handled.
    PacketUnsupported,
}

pub const PTI_CALL_REQUEST: u8 = 0x0b;

pub const PTI_CALL_ACCEPT: u8 = 0x0f;

pub const PTI_CLEAR_REQUEST: u8 = 0x13;

pub const PTI_CLEAR_CONFIRM: u8 = 0x17;

pub const PTI_RESET_REQUEST: u8 = 0x1b;

pub const PTI_RESET_CONFIRM: u8 = 0x1f;

pub const PTI_INTERRUPT: u8 = 0x23;

/// Largest logical channel identifier: 12 bits.
pub const MAX_CHANNEL: u16 = 4095;

/// More bytes than any packet has in front of its user data.
pub const MAX_OVERHEAD: usize = 300;

/// The two bits of the format identifier that give the modulo.
pub open spec fn modulo_bits(modulo: X25Modulo) -> int {
    match modulo {
        X25Modulo::Normal => 1,
        X25Modulo::Extended => 2,
    }
}

pub open spec fn bit(flag: bool) -> int {
    if flag {
        1
    } else {
        0
    }
}

/// The three bytes that every packet starts with.
pub open spec fn header(
    modulo: X25Modulo,
    channel: u16,
    qualifier: bool,
    delivery: bool,
    pti: u8,
) -> Seq<u8> {
    seq![
        (bit(qualifier) * 128 + bit(delivery) * 64 + modulo_bits(modulo) * 16 + channel
            / 256) as u8,
        (channel % 256) as u8,
        pti,
    ]
}

/// Addresses, facilities and user data, as a call request carries them.
pub open spec fn call_fields(
    called: Seq<u8>,
    calling: Seq<u8>,
    facilities: Seq<X25Facility>,
    user_data: Seq<u8>,
) -> Seq<u8> {
    encode_addr_block(called, calling) + encode_facility_block(facilities) + user_data
}

/// Addresses, facilities and user data, left out altogether where all of
/// them are empty.
pub open spec fn optional_fields(
    called: Seq<u8>,
    calling: Seq<u8>,
    facilities: Seq<X25Facility>,
    user_data: Seq<u8>,
) -> Seq<u8> {
    if called.len() == 0 && calling.len() == 0 && facilities.len() == 0 && user_data.len() == 0 {
        Seq::empty()
    } else {
        call_fields(called, calling, facilities, user_data)
    }
}

/// The packet type byte of a data packet.
pub open spec fn data_pti(modulo: X25Modulo, send_seq: u8, recv_seq: u8, more: bool) -> u8 {
    match modulo {
        X25Modulo::Normal => (recv_seq * 32 + bit(more) * 16 + send_seq * 2) as u8,
        X25Modulo::Extended => (send_seq * 2) as u8,
    }
}

/// The bytes that stand for a packet on the wire.
pub open spec fn encode_packet(packet: X25PacketView) -> Seq<u8> {
    match packet {
        X25PacketView::CallRequest(p) => header(
            p.modulo,
            p.channel,
            false,
            false,
            PTI_CALL_REQUEST,
        ) + call_fields(p.called_addr, p.calling_addr, p.facilities, p.call_user_data),
        X25PacketView::CallAccept(p) => header(p.modulo, p.channel, false, false, PTI_CALL_ACCEPT)
            + optional_fields(p.called_addr, p.calling_addr, p.facilities, p.called_user_data),
        X25PacketView::ClearRequest(p) => header(
            p.modulo,
            p.channel,
            false,
            false,
            PTI_CLEAR_REQUEST,
        ) + seq![p.cause_code, p.diagnostic_code] + optional_fields(
            p.called_addr,
            p.calling_addr,
            p.facilities,
            p.clear_user_data,
        ),
        X25PacketView::ClearConfirm(p) => header(
            p.modulo,
            p.channel,
            false,
            false,
            PTI_CLEAR_CONFIRM,
        ) + optional_fields(p.called_addr, p.calling_addr, p.facilities, Seq::empty()),
        X25PacketView::Data(p) => header(
            p.modulo,
            p.channel,
            p.qualifier,
            p.delivery,
            data_pti(p.modulo, p.send_seq, p.recv_seq, p.more),
        ) + match p.modulo {
            X25Modulo::Normal => Seq::empty(),
            X25Modulo::Extended => seq![(p.recv_seq * 2 + bit(p.more)) as u8],
        } + p.user_data,
        X25PacketView::ReceiveReady(p) => match p.modulo {
            X25Modulo::Normal => header(
                p.modulo,
                p.channel,
                false,
                false,
                (p.recv_seq * 32 + 1) as u8,
            ),
            X25Modulo::Extended => header(p.modulo, p.channel, false, false, 1) + seq![
                (p.recv_seq * 2) as u8,
            ],
        },
        X25PacketView::ResetRequest(p) => header(
            p.modulo,
            p.channel,
            false,
            false,
            PTI_RESET_REQUEST,
        ) + seq![p.cause_code, p.diagnostic_code],
        X25PacketView::ResetConfirm(p) => header(
            p.modulo,
            p.channel,
            false,
            false,
            PTI_RESET_CONFIRM,
        ),
        X25PacketView::Interrupt(p) => header(p.modulo, p.channel, false, false, PTI_INTERRUPT)
            + p.user_data,
    }
}

pub open spec fn fields_valid(called: Seq<u8>, calling: Seq<u8>, facilities: Seq<X25Facility>) -> bool {
    x121_valid(called) && x121_valid(calling) && facilities_valid(facilities)
}

/// Whether a packet can be written: the channel takes 12 bits, sequence
/// numbers lie below the modulus, and addresses and facilities are valid.
pub open spec fn packet_valid(packet: X25PacketView) -> bool {
    match packet {
        X25PacketView::CallRequest(p) => p.channel <= MAX_CHANNEL && fields_valid(
            p.called_addr,
            p.calling_addr,
            p.facilities,
        ),
        X25PacketView::CallAccept(p) => p.channel <= MAX_CHANNEL && fields_valid(
            p.called_addr,
            p.calling_addr,
            p.facilities,
        ),
        X25PacketView::ClearRequest(p) => p.channel <= MAX_CHANNEL && fields_valid(
            p.called_addr,
            p.calling_addr,
            p.facilities,
        ),
        X25PacketView::ClearConfirm(p) => p.channel <= MAX_CHANNEL && fields_valid(
            p.called_addr,
            p.calling_addr,
            p.facilities,
        ),
        X25PacketView::Data(p) => p.channel <= MAX_CHANNEL && p.send_seq < p.modulo.spec_value()
            && p.recv_seq < p.modulo.spec_value(),
        X25PacketView::ReceiveReady(p) => p.channel <= MAX_CHANNEL && p.recv_seq
            < p.modulo.spec_value(),
        X25PacketView::ResetRequest(p) => p.channel <= MAX_CHANNEL,
        X25PacketView::ResetConfirm(p) => p.channel <= MAX_CHANNEL,
        X25PacketView::Interrupt(p) => p.channel <= MAX_CHANNEL,
    }
}

/// Addresses, facilities and user data of a packet.
pub ghost struct Fields {
    pub called: Seq<u8>,
    pub calling: Seq<u8>,
    pub facilities: Seq<X25Facility>,
    pub user_data: Seq<u8>,
}

/// The fields that `body` holds where all of them must be there.
pub open spec fn parse_call_fields(body: Seq<u8>) -> Option<Fields> {
    match parse_addr_block(body) {
        None => None,
        Some((called, calling, rest)) => match parse_facility_block(rest) {
            None => None,
            Some((facilities, user_data)) => Some(
                Fields { called, calling, facilities, user_data },
            ),
        },
    }
}

/// The fields that `body` holds where they may be left out: all of them, or
/// the facilities and what follows them.
pub open spec fn parse_optional_fields(body: Seq<u8>) -> Option<Fields> {
    if body.len() == 0 {
        Some(
            Fields {
                called: Seq::empty(),
                calling: Seq::empty(),
                facilities: Seq::empty(),
                user_data: Seq::empty(),
            },
        )
    } else {
        match parse_addr_block(body) {
            None => None,
            Some((called, calling, rest)) => if rest.len() == 0 {
                Some(
                    Fields {
                        called,
                        calling,
                        facilities: Seq::empty(),
                        user_data: Seq::empty(),
                    },
                )
            } else {
                match parse_facility_block(rest) {
                    None => None,
                    Some((facilities, user_data)) => Some(
                        Fields { called, calling, facilities, user_data },
                    ),
                }
            },
        }
    }
}

/// The packet of type `pti` and with the body `body`, of a type that is
/// neither data nor receive ready.
pub open spec fn decode_control(modulo: X25Modulo, channel: u16, pti: u8, body: Seq<u8>) -> Result<
    X25PacketView,
    X25PacketError,
> {
    if pti == PTI_CALL_REQUEST {
        match parse_call_fields(body) {
            Some(f) => Ok(
                X25PacketView::CallRequest(
                    X25CallRequestView {
                        modulo,
                        channel,
                        called_addr: f.called,
                        calling_addr: f.calling,
                        facilities: f.facilities,
                        call_user_data: f.user_data,
                    },
                ),
            ),
            None => Err(X25PacketError::PacketMalformed),
        }
    } else if pti == PTI_CALL_ACCEPT {
        match parse_optional_fields(body) {
            Some(f) => Ok(
                X25PacketView::CallAccept(
                    X25CallAcceptView {
                        modulo,
                        channel,
                        called_addr: f.called,
                        calling_addr: f.calling,
                        facilities: f.facilities,
                        called_user_data: f.user_data,
                    },
                ),
            ),
            None => Err(X25PacketError::PacketMalformed),
        }
    } else if pti == PTI_CLEAR_REQUEST {
        if body.len() < 1 {
            Err(X25PacketError::PacketMalformed)
        } else if body.len() == 1 {
            Ok(
                X25PacketView::ClearRequest(
                    X25ClearRequestView {
                        modulo,
                        channel,
                        cause_code: body[0],
                        diagnostic_code: 0,
                        called_addr: Seq::empty(),
                        calling_addr: Seq::empty(),
                        facilities: Seq::empty(),
                        clear_user_data: Seq::empty(),
                    },
                ),
            )
        } else {
            match parse_optional_fields(body.skip(2)) {
                Some(f) => Ok(
                    X25PacketView::ClearRequest(
                        X25ClearRequestView {
                            modulo,
                            channel,
                            cause_code: body[0],
                            diagnostic_code: body[1],
                            called_addr: f.called,
                            calling_addr: f.calling,
                            facilities: f.facilities,
                            clear_user_data: f.user_data,
                        },
                    ),
                ),
                None => Err(X25PacketError::PacketMalformed),
            }
        }
    } else if pti == PTI_CLEAR_CONFIRM {
        match parse_optional_fields(body) {
            Some(f) => if f.user_data.len() == 0 {
                Ok(
                    X25PacketView::ClearConfirm(
                        X25ClearConfirmView {
                            modulo,
                            channel,
                            called_addr: f.called,
                            calling_addr: f.calling,
                            facilities: f.facilities,
                        },
                    ),
                )
            } else {
                Err(X25PacketError::PacketMalformed)
            },
            None => Err(X25PacketError::PacketMalformed),
        }
    } else if pti == PTI_RESET_REQUEST {
        if body.len() < 1 || body.len() > 2 {
            Err(X25PacketError::PacketMalformed)
        } else {
            Ok(
                X25PacketView::ResetRequest(
                    X25ResetRequest {
                        modulo,
                        channel,
                        cause_code: body[0],
                        diagnostic_code: if body.len() == 2 {
                            body[1]
                        } else {
                            0
                        },
                    },
                ),
            )
        }
    } else if pti == PTI_RESET_CONFIRM {
        if body.len() == 0 {
            Ok(X25PacketView::ResetConfirm(X25ResetConfirm { modulo, channel }))
        } else {
            Err(X25PacketError::PacketMalformed)
        }
    } else if pti == PTI_INTERRUPT {
        Ok(X25PacketView::Interrupt(X25InterruptView { modulo, channel, user_data: body }))
    } else {
        Err(X25PacketError::PacketUnsupported)
    }
}

/// The data or receive ready packet of type `pti` and with the body `body`,
/// or what [`decode_control`] makes of another type.
pub open spec fn decode_body(
    modulo: X25Modulo,
    channel: u16,
    qualifier: bool,
    delivery: bool,
    pti: u8,
    body: Seq<u8>,
) -> Result<X25PacketView, X25PacketError> {
    if pti % 2 == 0 {
        match modulo {
            X25Modulo::Normal => Ok(
                X25PacketView::Data(
                    X25DataView {
                        modulo,
                        channel,
                        send_seq: ((pti / 2) % 8) as u8,
                        recv_seq: (pti / 32) as u8,
                        qualifier,
                        delivery,
                        more: (pti / 16) % 2 == 1,
                        user_data: body,
                    },
                ),
            ),
            X25Modulo::Extended => if body.len() < 1 {
                Err(X25PacketError::PacketMalformed)
            } else {
                Ok(
                    X25PacketView::Data(
                        X25DataView {
                            modulo,
                            channel,
                            send_seq: (pti / 2) as u8,
                            recv_seq: (body[0] / 2) as u8,
                            qualifier,
                            delivery,
                            more: body[0] % 2 == 1,
                            user_data: body.skip(1),
                        },
                    ),
                )
            },
        }
    } else if modulo == X25Modulo::Normal && pti % 32 == 1 {
        if body.len() == 0 {
            Ok(
                X25PacketView::ReceiveReady(
                    X25ReceiveReady { modulo, channel, recv_seq: (pti / 32) as u8 },
                ),
            )
        } else {
            Err(X25PacketError::PacketMalformed)
        }
    } else if modulo == X25Modulo::Extended && pti == 1 {
        if body.len() == 1 {
            Ok(
                X25PacketView::ReceiveReady(
                    X25ReceiveReady { modulo, channel, recv_seq: (body[0] / 2) as u8 },
                ),
            )
        } else {
            Err(X25PacketError::PacketMalformed)
        }
    } else {
        decode_control(modulo, channel, pti, body)
    }
}

/// The packet that `bytes` stand for, or why they stand for none.
pub open spec fn decode_packet(bytes: Seq<u8>) -> Result<X25PacketView, X25PacketError> {
    if bytes.len() < 3 {
        Err(X25PacketError::PacketMalformed)
    } else {
        let format = bytes[0] / 16;
        let channel = ((bytes[0] % 16) * 256 + bytes[1]) as u16;
        if format % 4 == 1 {
            decode_body(
                X25Modulo::Normal,
                channel,
                format >= 8,
                (format / 4) % 2 == 1,
                bytes[2],
                bytes.skip(3),
            )
        } else if format % 4 == 2 {
            decode_body(
                X25Modulo::Extended,
                channel,
                format >= 8,
                (format / 4) % 2 == 1,
                bytes[2],
                bytes.skip(3),
            )
        } else {
            Err(X25PacketError::PacketMalformed)
        }
    }
}

/// Fields that must be there read back as written.
pub proof fn lemma_call_fields_roundtrip(f: Fields)
    requires
        fields_valid(f.called, f.calling, f.facilities),
    ensures
        parse_call_fields(call_fields(f.called, f.calling, f.facilities, f.user_data)) == Some(f),
{
    let tail = encode_facility_block(f.facilities) + f.user_data;
    lemma_addr_block_roundtrip(f.called, f.calling, tail);
    lemma_facility_block_roundtrip(f.facilities, f.user_data);
    assert(call_fields(f.called, f.calling, f.facilities, f.user_data) =~= encode_addr_block(
        f.called,
        f.calling,
    ) + tail);
}

/// Fields that may be left out read back as written.
pub proof fn lemma_optional_fields_roundtrip(f: Fields)
    requires
        fields_valid(f.called, f.calling, f.facilities),
    ensures
        parse_optional_fields(optional_fields(f.called, f.calling, f.facilities, f.user_data))
            == Some(f),
{
    if f.called.len() == 0 && f.calling.len() == 0 && f.facilities.len() == 0
        && f.user_data.len() == 0 {
        assert(f.called =~= Seq::empty());
        assert(f.calling =~= Seq::empty());
        assert(f.facilities =~= Seq::empty());
        assert(f.user_data =~= Seq::empty());
    } else {
        let tail = encode_facility_block(f.facilities) + f.user_data;
        lemma_call_fields_roundtrip(f);
        lemma_addr_block_roundtrip(f.called, f.calling, tail);
        assert(call_fields(f.called, f.calling, f.facilities, f.user_data) =~= encode_addr_block(
            f.called,
            f.calling,
        ) + tail);
        assert(tail.len() > 0);
    }
}

/// The header reads back as written.
pub proof fn lemma_header_roundtrip(
    modulo: X25Modulo,
    channel: u16,
    qualifier: bool,
    delivery: bool,
    pti: u8,
    body: Seq<u8>,
)
    requires
        channel <= MAX_CHANNEL,
    ensures
        decode_packet(header(modulo, channel, qualifier, delivery, pti) + body) == decode_body(
            modulo,
            channel,
            qualifier,
            delivery,
            pti,
            body,
        ),
{
    let bytes = header(modulo, channel, qualifier, delivery, pti) + body;
    let first = bit(qualifier) * 128 + bit(delivery) * 64 + modulo_bits(modulo) * 16 + channel
        / 256;
    assert(0 <= channel / 256 < 16);
    assert(bytes[0] == first);
    assert(bytes[1] == channel % 256);
    assert(bytes[2] == pti);
    assert(bytes.skip(3) =~= body);
    assert(first / 16 == bit(qualifier) * 8 + bit(delivery) * 4 + modulo_bits(modulo));
    assert(first % 16 == channel / 256);
    assert((channel / 256) * 256 + channel % 256 == channel);
}

proof fn lemma_call_request_roundtrip(p: X25CallRequestView)
    requires
        packet_valid(X25PacketView::CallRequest(p)),
    ensures
        decode_packet(encode_packet(X25PacketView::CallRequest(p))) == Ok::<X25PacketView, X25PacketError>(
            X25PacketView::CallRequest(p),
        ),
{
    let packet = X25PacketView::CallRequest(p);
    let f = Fields {
        called: p.called_addr,
        calling: p.calling_addr,
        facilities: p.facilities,
        user_data: p.call_user_data,
    };
    lemma_call_fields_roundtrip(f);
    lemma_header_roundtrip(
        p.modulo,
        p.channel,
        false,
        false,
        PTI_CALL_REQUEST,
        call_fields(f.called, f.calling, f.facilities, f.user_data),
    );
}

proof fn lemma_call_accept_roundtrip(p: X25CallAcceptView)
    requires
        packet_valid(X25PacketView::CallAccept(p)),
    ensures
        decode_packet(encode_packet(X25PacketView::CallAccept(p))) == Ok::<X25PacketView, X25PacketError>(
            X25PacketView::CallAccept(p),
        ),
{
    let packet = X25PacketView::CallAccept(p);
    let f = Fields {
        called: p.called_addr,
        calling: p.calling_addr,
        facilities: p.facilities,
        user_data: p.called_user_data,
    };
    lemma_optional_fields_roundtrip(f);
    lemma_header_roundtrip(
        p.modulo,
        p.channel,
        false,
        false,
        PTI_CALL_ACCEPT,
        optional_fields(f.called, f.calling, f.facilities, f.user_data),
    );
}

proof fn lemma_clear_request_roundtrip(p: X25ClearRequestView)
    requires
        packet_valid(X25PacketView::ClearRequest(p)),
    ensures
        decode_packet(encode_packet(X25PacketView::ClearRequest(p))) == Ok::<X25PacketView, X25PacketError>(
            X25PacketView::ClearRequest(p),
        ),
{
    let packet = X25PacketView::ClearRequest(p);
    let f = Fields {
        called: p.called_addr,
        calling: p.calling_addr,
        facilities: p.facilities,
        user_data: p.clear_user_data,
    };
    let fields = optional_fields(f.called, f.calling, f.facilities, f.user_data);
    let body = seq![p.cause_code, p.diagnostic_code] + fields;
    lemma_optional_fields_roundtrip(f);
    assert(body.skip(2) =~= fields);
    assert(body[0] == p.cause_code);
    assert(body[1] == p.diagnostic_code);
    assert(encode_packet(packet) =~= header(
        p.modulo,
        p.channel,
        false,
        false,
        PTI_CLEAR_REQUEST,
    ) + body);
    lemma_header_roundtrip(p.modulo, p.channel, false, false, PTI_CLEAR_REQUEST, body);
}

proof fn lemma_clear_confirm_roundtrip(p: X25ClearConfirmView)
    requires
        packet_valid(X25PacketView::ClearConfirm(p)),
    ensures
        decode_packet(encode_packet(X25PacketView::ClearConfirm(p))) == Ok::<X25PacketView, X25PacketError>(
            X25PacketView::ClearConfirm(p),
        ),
{
    let packet = X25PacketView::ClearConfirm(p);
    let f = Fields {
        called: p.called_addr,
        calling: p.calling_addr,
        facilities: p.facilities,
        user_data: Seq::empty(),
    };
    lemma_optional_fields_roundtrip(f);
    lemma_header_roundtrip(
        p.modulo,
        p.channel,
        false,
        false,
        PTI_CLEAR_CONFIRM,
        optional_fields(f.called, f.calling, f.facilities, f.user_data),
    );
}

/// The sequence numbers and the more bit come apart again.
proof fn lemma_sequence_bytes(send_seq: int, recv_seq: int, more: bool)
    requires
        0 <= send_seq < 128,
        0 <= recv_seq < 128,
    ensures
        send_seq < 8 && recv_seq < 8 ==> {
            let pti = recv_seq * 32 + bit(more) * 16 + send_seq * 2;
            &&& 0 <= pti < 256
            &&& pti % 2 == 0
            &&& (pti / 2) % 8 == send_seq
            &&& pti / 32 == recv_seq
            &&& ((pti / 16) % 2 == 1) == more
        },
        (send_seq * 2) % 2 == 0 && (send_seq * 2) / 2 == send_seq && send_seq * 2 < 256,
        (recv_seq * 2 + bit(more)) / 2 == recv_seq && ((recv_seq * 2 + bit(more)) % 2 == 1) == more
            && recv_seq * 2 + bit(more) < 256,
        recv_seq < 8 ==> (recv_seq * 32 + 1) % 2 == 1 && (recv_seq * 32 + 1) % 32 == 1 && (recv_seq
            * 32 + 1) / 32 == recv_seq && recv_seq * 32 + 1 < 256,
{
}

proof fn lemma_data_normal_roundtrip(p: X25DataView)
    requires
        packet_valid(X25PacketView::Data(p)),
        p.modulo == X25Modulo::Normal,
    ensures
        decode_packet(encode_packet(X25PacketView::Data(p))) == Ok::<X25PacketView, X25PacketError>(
            X25PacketView::Data(p),
        ),
{
    let packet = X25PacketView::Data(p);
    let pti = data_pti(p.modulo, p.send_seq, p.recv_seq, p.more);
    let body = Seq::<u8>::empty() + p.user_data;
    assert(body =~= p.user_data);
    assert(encode_packet(packet) =~= header(p.modulo, p.channel, p.qualifier, p.delivery, pti)
        + body);
    lemma_header_roundtrip(p.modulo, p.channel, p.qualifier, p.delivery, pti, body);
    lemma_sequence_bytes(p.send_seq as int, p.recv_seq as int, p.more);
    assert(pti == p.recv_seq * 32 + bit(p.more) * 16 + p.send_seq * 2);
    let decoded = decode_body(p.modulo, p.channel, p.qualifier, p.delivery, pti, body);
    assert(decoded is Ok);
    assert(decoded->Ok_0 is Data);
    assert(decoded->Ok_0->Data_0 == p);
}

proof fn lemma_data_extended_roundtrip(p: X25DataView)
    requires
        packet_valid(X25PacketView::Data(p)),
        p.modulo == X25Modulo::Extended,
    ensures
        decode_packet(encode_packet(X25PacketView::Data(p))) == Ok::<X25PacketView, X25PacketError>(
            X25PacketView::Data(p),
        ),
{
    let packet = X25PacketView::Data(p);
    let pti = data_pti(p.modulo, p.send_seq, p.recv_seq, p.more);
    let second = (p.recv_seq * 2 + bit(p.more)) as u8;
    let body = seq![second] + p.user_data;
    lemma_sequence_bytes(p.send_seq as int, p.recv_seq as int, p.more);
    assert(body.skip(1) =~= p.user_data);
    assert(body[0] == second);
    assert(encode_packet(packet) =~= header(p.modulo, p.channel, p.qualifier, p.delivery, pti)
        + body);
    lemma_header_roundtrip(p.modulo, p.channel, p.qualifier, p.delivery, pti, body);
    assert(pti == p.send_seq * 2);
    assert(second == p.recv_seq * 2 + bit(p.more));
    let decoded = decode_body(p.modulo, p.channel, p.qualifier, p.delivery, pti, body);
    assert(decoded is Ok);
    assert(decoded->Ok_0 is Data);
    assert(decoded->Ok_0->Data_0 == p);
}

proof fn lemma_data_roundtrip(p: X25DataView)
    requires
        packet_valid(X25PacketView::Data(p)),
    ensures
        decode_packet(encode_packet(X25PacketView::Data(p))) == Ok::<X25PacketView, X25PacketError>(
            X25PacketView::Data(p),
        ),
{
    match p.modulo {
        X25Modulo::Normal => lemma_data_normal_roundtrip(p),
        X25Modulo::Extended => lemma_data_extended_roundtrip(p),
    }
}

proof fn lemma_receive_ready_roundtrip(p: X25ReceiveReady)
    requires
        packet_valid(X25PacketView::ReceiveReady(p)),
    ensures
        decode_packet(encode_packet(X25PacketView::ReceiveReady(p))) == Ok::<X25PacketView, X25PacketError>(
            X25PacketView::ReceiveReady(p),
        ),
{
    let packet = X25PacketView::ReceiveReady(p);
    lemma_sequence_bytes(0, p.recv_seq as int, false);
    match p.modulo {
        X25Modulo::Normal => {
            let pti = (p.recv_seq * 32 + 1) as u8;
            assert(encode_packet(packet) =~= header(p.modulo, p.channel, false, false, pti)
                + Seq::<u8>::empty());
            lemma_header_roundtrip(
                p.modulo,
                p.channel,
                false,
                false,
                pti,
                Seq::empty(),
            );
        },
        X25Modulo::Extended => {
            let body = seq![(p.recv_seq * 2) as u8];
            lemma_header_roundtrip(p.modulo, p.channel, false, false, 1, body);
        },
    }
}

proof fn lemma_reset_request_roundtrip(p: X25ResetRequest)
    requires
        packet_valid(X25PacketView::ResetRequest(p)),
    ensures
        decode_packet(encode_packet(X25PacketView::ResetRequest(p))) == Ok::<X25PacketView, X25PacketError>(
            X25PacketView::ResetRequest(p),
        ),
{
    let packet = X25PacketView::ResetRequest(p);
    let body = seq![p.cause_code, p.diagnostic_code];
    lemma_header_roundtrip(p.modulo, p.channel, false, false, PTI_RESET_REQUEST, body);
}

proof fn lemma_reset_confirm_roundtrip(p: X25ResetConfirm)
    requires
        packet_valid(X25PacketView::ResetConfirm(p)),
    ensures
        decode_packet(encode_packet(X25PacketView::ResetConfirm(p))) == Ok::<X25PacketView, X25PacketError>(
            X25PacketView::ResetConfirm(p),
        ),
{
    let packet = X25PacketView::ResetConfirm(p);
    assert(encode_packet(packet) =~= header(
        p.modulo,
        p.channel,
        false,
        false,
        PTI_RESET_CONFIRM,
    ) + Seq::<u8>::empty());
    lemma_header_roundtrip(
        p.modulo,
        p.channel,
        false,
        false,
        PTI_RESET_CONFIRM,
        Seq::empty(),
    );
}

proof fn lemma_interrupt_roundtrip(p: X25InterruptView)
    requires
        packet_valid(X25PacketView::Interrupt(p)),
    ensures
        decode_packet(encode_packet(X25PacketView::Interrupt(p))) == Ok::<
            X25PacketView,
            X25PacketError,
        >(X25PacketView::Interrupt(p)),
{
    lemma_header_roundtrip(p.modulo, p.channel, false, false, PTI_INTERRUPT, p.user_data);
}

/// Every packet that can be written reads back as itself.
pub proof fn lemma_packet_roundtrip(packet: X25PacketView)
    requires
        packet_valid(packet),
    ensures
        decode_packet(encode_packet(packet)) == Ok::<X25PacketView, X25PacketError>(packet),
{
    match packet {
        X25PacketView::CallRequest(p) => lemma_call_request_roundtrip(p),
        X25PacketView::CallAccept(p) => lemma_call_accept_roundtrip(p),
        X25PacketView::ClearRequest(p) => lemma_clear_request_roundtrip(p),
        X25PacketView::ClearConfirm(p) => lemma_clear_confirm_roundtrip(p),
        X25PacketView::Data(p) => lemma_data_roundtrip(p),
        X25PacketView::ReceiveReady(p) => lemma_receive_ready_roundtrip(p),
        X25PacketView::ResetRequest(p) => lemma_reset_request_roundtrip(p),
        X25PacketView::ResetConfirm(p) => lemma_reset_confirm_roundtrip(p),
        X25PacketView::Interrupt(p) => lemma_interrupt_roundtrip(p),
    }
}

/// The user data that a packet carries behind its other fields.
pub open spec fn user_data_of(packet: X25PacketView) -> Seq<u8> {
    match packet {
        X25PacketView::CallRequest(p) => p.call_user_data,
        X25PacketView::CallAccept(p) => p.called_user_data,
        X25PacketView::ClearRequest(p) => p.clear_user_data,
        X25PacketView::Data(p) => p.user_data,
        X25PacketView::Interrupt(p) => p.user_data,
        _ => Seq::empty(),
    }
}

/// The address block and the facility block take no more than 272 bytes.
pub proof fn lemma_fields_len(called: Seq<u8>, calling: Seq<u8>, facilities: Seq<X25Facility>)
    requires
        fields_valid(called, calling, facilities),
    ensures
        encode_addr_block(called, calling).len() <= 16,
        encode_facility_block(facilities).len() <= 256,
{
    lemma_facility_list_len(facilities);
}

fn put_header(
    out: &mut Vec<u8>,
    modulo: X25Modulo,
    channel: u16,
    qualifier: bool,
    delivery: bool,
    pti: u8,
)
    requires
        channel <= MAX_CHANNEL,
    ensures
        final(out)@ == old(out)@ + header(modulo, channel, qualifier, delivery, pti),
{
    let format: u8 = match modulo {
        X25Modulo::Normal => 1,
        X25Modulo::Extended => 2,
    };
    let q: u8 = if qualifier {
        128
    } else {
        0
    };
    let d: u8 = if delivery {
        64
    } else {
        0
    };
    let high: u8 = (channel / 256) as u8;
    out.push(q + d + format * 16 + high);
    out.push((channel % 256) as u8);
    out.push(pti);
    proof {
        assert(out@ =~= old(out)@ + header(modulo, channel, qualifier, delivery, pti));
    }
}

/// Appends the address block and the facility block.
fn put_fields(
    out: &mut Vec<u8>,
    called: &X121Addr,
    calling: &X121Addr,
    facilities: &[X25Facility],
)
    requires
        facilities_valid(facilities@),
    ensures
        final(out)@ == old(out)@ + encode_addr_block(called@, calling@) + encode_facility_block(
            facilities@,
        ),
{
    put_addr_block(out, called, calling);
    put_facility_block(out, facilities);
}

/// Whether the fields that may be left out are all empty.
fn fields_empty(
    called: &X121Addr,
    calling: &X121Addr,
    facilities: &[X25Facility],
    user_data_len: usize,
) -> (empty: bool)
    ensures
        empty == (called@.len() == 0 && calling@.len() == 0 && facilities@.len() == 0
            && user_data_len == 0),
{
    called.is_null() && calling.is_null() && facilities.len() == 0 && user_data_len == 0
}

/// The bytes of the packet in front of its user data.
fn head_of_call_request(p: &X25CallRequest) -> (out: Vec<u8>)
    requires
        packet_valid(X25PacketView::CallRequest(p@)),
    ensures
        out@ + user_data_of(X25PacketView::CallRequest(p@)) == encode_packet(X25PacketView::CallRequest(p@)),
        out@.len() <= MAX_OVERHEAD,
{
    let ghost packet = X25PacketView::CallRequest(p@);
    let mut out: Vec<u8> = Vec::new();
        put_header(&mut out, p.modulo, p.channel, false, false, PTI_CALL_REQUEST);
        put_fields(&mut out, &p.called_addr, &p.calling_addr, p.facilities.as_slice());
        proof {
            lemma_fields_len(p.called_addr@, p.calling_addr@, p.facilities@);
            assert(out@ + user_data_of(packet) =~= encode_packet(packet));
        }
    out
}

/// The bytes of the packet in front of its user data.
fn head_of_call_accept(p: &X25CallAccept) -> (out: Vec<u8>)
    requires
        packet_valid(X25PacketView::CallAccept(p@)),
    ensures
        out@ + user_data_of(X25PacketView::CallAccept(p@)) == encode_packet(X25PacketView::CallAccept(p@)),
        out@.len() <= MAX_OVERHEAD,
{
    let ghost packet = X25PacketView::CallAccept(p@);
    let mut out: Vec<u8> = Vec::new();
        put_header(&mut out, p.modulo, p.channel, false, false, PTI_CALL_ACCEPT);
        let data_len = bytes_len(&p.called_user_data);
        if !fields_empty(
            &p.called_addr,
            &p.calling_addr,
            p.facilities.as_slice(),
            data_len,
        ) {
            put_fields(&mut out, &p.called_addr, &p.calling_addr, p.facilities.as_slice());
        }
        proof {
            lemma_fields_len(p.called_addr@, p.calling_addr@, p.facilities@);
            assert(out@ + user_data_of(packet) =~= encode_packet(packet));
        }
    out
}

/// The bytes of the packet in front of its user data.
fn head_of_clear_request(p: &X25ClearRequest) -> (out: Vec<u8>)
    requires
        packet_valid(X25PacketView::ClearRequest(p@)),
    ensures
        out@ + user_data_of(X25PacketView::ClearRequest(p@)) == encode_packet(X25PacketView::ClearRequest(p@)),
        out@.len() <= MAX_OVERHEAD,
{
    let ghost packet = X25PacketView::ClearRequest(p@);
    let mut out: Vec<u8> = Vec::new();
        put_header(&mut out, p.modulo, p.channel, false, false, PTI_CLEAR_REQUEST);
        out.push(p.cause_code);
        out.push(p.diagnostic_code);
        let data_len = bytes_len(&p.clear_user_data);
        if !fields_empty(
            &p.called_addr,
            &p.calling_addr,
            p.facilities.as_slice(),
            data_len,
        ) {
            put_fields(&mut out, &p.called_addr, &p.calling_addr, p.facilities.as_slice());
        }
        proof {
            lemma_fields_len(p.called_addr@, p.calling_addr@, p.facilities@);
            assert(out@ + user_data_of(packet) =~= encode_packet(packet));
        }
    out
}

/// The bytes of the packet in front of its user data.
fn head_of_clear_confirm(p: &X25ClearConfirm) -> (out: Vec<u8>)
    requires
        packet_valid(X25PacketView::ClearConfirm(p@)),
    ensures
        out@ + user_data_of(X25PacketView::ClearConfirm(p@)) == encode_packet(X25PacketView::ClearConfirm(p@)),
        out@.len() <= MAX_OVERHEAD,
{
    let ghost packet = X25PacketView::ClearConfirm(p@);
    let mut out: Vec<u8> = Vec::new();
        put_header(&mut out, p.modulo, p.channel, false, false, PTI_CLEAR_CONFIRM);
        if !fields_empty(&p.called_addr, &p.calling_addr, p.facilities.as_slice(), 0) {
            put_fields(&mut out, &p.called_addr, &p.calling_addr, p.facilities.as_slice());
        }
        proof {
            lemma_fields_len(p.called_addr@, p.calling_addr@, p.facilities@);
            assert(out@ + user_data_of(packet) =~= encode_packet(packet));
        }
    out
}

/// The bytes of the packet in front of its user data.
fn head_of_data(p: &X25Data) -> (out: Vec<u8>)
    requires
        packet_valid(X25PacketView::Data(p@)),
    ensures
        out@ + user_data_of(X25PacketView::Data(p@)) == encode_packet(X25PacketView::Data(p@)),
        out@.len() <= MAX_OVERHEAD,
{
    let ghost packet = X25PacketView::Data(p@);
    let mut out: Vec<u8> = Vec::new();
        let more: u8 = if p.more {
            1
        } else {
            0
        };
        match p.modulo {
            X25Modulo::Normal => {
                put_header(
                    &mut out,
                    p.modulo,
                    p.channel,
                    p.qualifier,
                    p.delivery,
                    p.recv_seq * 32 + more * 16 + p.send_seq * 2,
                );
            },
            X25Modulo::Extended => {
                put_header(
                    &mut out,
                    p.modulo,
                    p.channel,
                    p.qualifier,
                    p.delivery,
                    p.send_seq * 2,
                );
                out.push(p.recv_seq * 2 + more);
            },
        }
        proof {
            assert(out@ + user_data_of(packet) =~= encode_packet(packet));
        }
    out
}

/// The bytes of the packet in front of its user data.
fn head_of_receive_ready(p: &X25ReceiveReady) -> (out: Vec<u8>)
    requires
        packet_valid(X25PacketView::ReceiveReady(*p)),
    ensures
        out@ + user_data_of(X25PacketView::ReceiveReady(*p)) == encode_packet(X25PacketView::ReceiveReady(*p)),
        out@.len() <= MAX_OVERHEAD,
{
    let ghost packet = X25PacketView::ReceiveReady(*p);
    let mut out: Vec<u8> = Vec::new();
        match p.modulo {
            X25Modulo::Normal => {
                put_header(
                    &mut out,
                    p.modulo,
                    p.channel,
                    false,
                    false,
                    p.recv_seq * 32 + 1,
                );
            },
            X25Modulo::Extended => {
                put_header(&mut out, p.modulo, p.channel, false, false, 1);
                out.push(p.recv_seq * 2);
            },
        }
        proof {
            assert(out@ + user_data_of(packet) =~= encode_packet(packet));
        }
    out
}

/// The bytes of the packet in front of its user data.
fn head_of_reset_request(p: &X25ResetRequest) -> (out: Vec<u8>)
    requires
        packet_valid(X25PacketView::ResetRequest(*p)),
    ensures
        out@ + user_data_of(X25PacketView::ResetRequest(*p)) == encode_packet(X25PacketView::ResetRequest(*p)),
        out@.len() <= MAX_OVERHEAD,
{
    let ghost packet = X25PacketView::ResetRequest(*p);
    let mut out: Vec<u8> = Vec::new();
        put_header(&mut out, p.modulo, p.channel, false, false, PTI_RESET_REQUEST);
        out.push(p.cause_code);
        out.push(p.diagnostic_code);
        proof {
            assert(out@ + user_data_of(packet) =~= encode_packet(packet));
        }
    out
}

/// The bytes of the packet in front of its user data.
fn head_of_reset_confirm(p: &X25ResetConfirm) -> (out: Vec<u8>)
    requires
        packet_valid(X25PacketView::ResetConfirm(*p)),
    ensures
        out@ + user_data_of(X25PacketView::ResetConfirm(*p)) == encode_packet(X25PacketView::ResetConfirm(*p)),
        out@.len() <= MAX_OVERHEAD,
{
    let ghost packet = X25PacketView::ResetConfirm(*p);
    let mut out: Vec<u8> = Vec::new();
        put_header(&mut out, p.modulo, p.channel, false, false, PTI_RESET_CONFIRM);
        proof {
            assert(out@ + user_data_of(packet) =~= encode_packet(packet));
        }
    out
}

/// The bytes of the packet in front of its user data.
fn head_of_interrupt(p: &X25Interrupt) -> (out: Vec<u8>)
    requires
        packet_valid(X25PacketView::Interrupt(p@)),
    ensures
        out@ + user_data_of(X25PacketView::Interrupt(p@)) == encode_packet(
            X25PacketView::Interrupt(p@),
        ),
        out@.len() <= MAX_OVERHEAD,
{
    let mut out: Vec<u8> = Vec::new();
    put_header(&mut out, p.modulo, p.channel, false, false, PTI_INTERRUPT);
    out
}

impl X25Packet {
    /// Whether the packet can be written.
    pub fn is_valid(&self) -> (valid: bool)
        ensures
            valid == packet_valid(self@),
    {
        match self {
            X25Packet::CallRequest(p) => {
                let _ = p.called_addr.len();
                let _ = p.calling_addr.len();
                p.channel <= MAX_CHANNEL && are_facilities_valid(p.facilities.as_slice())
            },
            X25Packet::CallAccept(p) => {
                let _ = p.called_addr.len();
                let _ = p.calling_addr.len();
                p.channel <= MAX_CHANNEL && are_facilities_valid(p.facilities.as_slice())
            },
            X25Packet::ClearRequest(p) => {
                let _ = p.called_addr.len();
                let _ = p.calling_addr.len();
                p.channel <= MAX_CHANNEL && are_facilities_valid(p.facilities.as_slice())
            },
            X25Packet::ClearConfirm(p) => {
                let _ = p.called_addr.len();
                let _ = p.calling_addr.len();
                p.channel <= MAX_CHANNEL && are_facilities_valid(p.facilities.as_slice())
            },
            X25Packet::Data(p) => {
                let n: u8 = p.modulo.value();
                p.channel <= MAX_CHANNEL && p.send_seq < n && p.recv_seq < n
            },
            X25Packet::ReceiveReady(p) => {
                let n: u8 = p.modulo.value();
                p.channel <= MAX_CHANNEL && p.recv_seq < n
            },
            X25Packet::ResetRequest(p) => p.channel <= MAX_CHANNEL,
            X25Packet::ResetConfirm(p) => p.channel <= MAX_CHANNEL,
            X25Packet::Interrupt(p) => p.channel <= MAX_CHANNEL,
        }
    }

    /// Length of the user data that the packet carries.
    pub fn user_data_len(&self) -> (n: usize)
        ensures
            n == user_data_of(self@).len(),
    {
        match self {
            X25Packet::CallRequest(p) => bytes_len(&p.call_user_data),
            X25Packet::CallAccept(p) => bytes_len(&p.called_user_data),
            X25Packet::ClearRequest(p) => bytes_len(&p.clear_user_data),
            X25Packet::Data(p) => bytes_len(&p.user_data),
            X25Packet::Interrupt(p) => bytes_len(&p.user_data),
            _ => 0,
        }
    }

    /// The bytes of the packet in front of its user data.
    fn encode_head(&self) -> (head: Vec<u8>)
        requires
            packet_valid(self@),
        ensures
            head@ + user_data_of(self@) == encode_packet(self@),
            head@.len() <= MAX_OVERHEAD,
    {
        match self {
            X25Packet::CallRequest(p) => head_of_call_request(p),
            X25Packet::CallAccept(p) => head_of_call_accept(p),
            X25Packet::ClearRequest(p) => head_of_clear_request(p),
            X25Packet::ClearConfirm(p) => head_of_clear_confirm(p),
            X25Packet::Data(p) => head_of_data(p),
            X25Packet::ReceiveReady(p) => head_of_receive_ready(p),
            X25Packet::ResetRequest(p) => head_of_reset_request(p),
            X25Packet::ResetConfirm(p) => head_of_reset_confirm(p),
            X25Packet::Interrupt(p) => head_of_interrupt(p),
        }
    }

    /// Appends the packet's bytes to `buf` and returns their number. A
    /// packet that cannot be written is refused and `buf` left as it was.
    pub fn encode(&self, buf: &mut BytesMut) -> (result: Result<usize, X25PacketError>)
        requires
            bytes_mut_seq(*old(buf)).len() + MAX_OVERHEAD + user_data_of(self@).len()
                <= isize::MAX,
        ensures
            packet_valid(self@) ==> {
                &&& result == Ok::<usize, X25PacketError>(encode_packet(self@).len() as usize)
                &&& bytes_mut_seq(*final(buf)) == bytes_mut_seq(*old(buf)) + encode_packet(self@)
            },
            !packet_valid(self@) ==> {
                &&& result == Err::<usize, X25PacketError>(X25PacketError::PacketMalformed)
                &&& bytes_mut_seq(*final(buf)) == bytes_mut_seq(*old(buf))
            },
    {
        if !self.is_valid() {
            return Err(X25PacketError::PacketMalformed);
        }
        let head = self.encode_head();
        bytes_mut_put_slice(buf, head.as_slice());
        let mut n: usize = head.len();
        match self {
            X25Packet::CallRequest(p) => {
                let data = bytes_as_slice(&p.call_user_data);
                bytes_mut_put_slice(buf, data);
                n = n + data.len();
            },
            X25Packet::CallAccept(p) => {
                let data = bytes_as_slice(&p.called_user_data);
                bytes_mut_put_slice(buf, data);
                n = n + data.len();
            },
            X25Packet::ClearRequest(p) => {
                let data = bytes_as_slice(&p.clear_user_data);
                bytes_mut_put_slice(buf, data);
                n = n + data.len();
            },
            X25Packet::Data(p) => {
                let data = bytes_as_slice(&p.user_data);
                bytes_mut_put_slice(buf, data);
                n = n + data.len();
            },
            X25Packet::Interrupt(p) => {
                let data = bytes_as_slice(&p.user_data);
                bytes_mut_put_slice(buf, data);
                n = n + data.len();
            },
            _ => {},
        }
        proof {
            assert(bytes_mut_seq(*buf) =~= bytes_mut_seq(*old(buf)) + (head@ + user_data_of(
                self@,
            )));
        }
        Ok(n)
    }

    /// Reads a packet. Succeeds exactly on the bytes that stand for one of
    /// the packet types handled.
    pub fn decode(buf: Bytes) -> (result: Result<X25Packet, X25PacketError>)
        ensures
            match decode_packet(bytes_seq(buf)) {
                Ok(packet) => result is Ok && result->Ok_0@ == packet,
                Err(err) => result == Err::<X25Packet, X25PacketError>(err),
            },
    {
        let data = bytes_as_slice(&buf);
        if data.len() < 3 {
            return Err(X25PacketError::PacketMalformed);
        }
        let format: u8 = data[0] / 16;
        let channel: u16 = (data[0] % 16) as u16 * 256 + data[1] as u16;
        let modulo = if format % 4 == 1 {
            X25Modulo::Normal
        } else if format % 4 == 2 {
            X25Modulo::Extended
        } else {
            return Err(X25PacketError::PacketMalformed);
        };
        get_body(modulo, channel, format >= 8, (format / 4) % 2 == 1, data[2], data)
    }
}

/// Copies the bytes from `start` on into a buffer of their own.
fn get_user_data(data: &[u8], start: usize) -> (user_data: Bytes)
    requires
        start <= data@.len(),
    ensures
        bytes_seq(user_data) == data@.skip(start as int),
{
    let rest = slice_subrange(data, start, data.len());
    proof {
        assert(rest@ =~= data@.skip(start as int));
    }
    bytes_copy_from_slice(rest)
}

/// What was read of the fields of a packet.
struct ReadFields {
    called: X121Addr,
    calling: X121Addr,
    facilities: Vec<X25Facility>,
    user_data: Bytes,
}

impl ReadFields {
    spec fn model(&self) -> Fields {
        Fields {
            called: self.called@,
            calling: self.calling@,
            facilities: self.facilities@,
            user_data: bytes_seq(self.user_data),
        }
    }
}

fn get_call_fields(data: &[u8], start: usize) -> (result: Option<ReadFields>)
    requires
        start <= data@.len(),
    ensures
        match parse_call_fields(data@.skip(start as int)) {
            Some(f) => result is Some && result->0.model() == f,
            None => result is None,
        },
{
    match get_addr_block(data, start) {
        None => None,
        Some((called, calling, next)) => match get_facility_block(data, next) {
            None => None,
            Some((facilities, end)) => Some(
                ReadFields { called, calling, facilities, user_data: get_user_data(data, end) },
            ),
        },
    }
}

fn get_optional_fields(data: &[u8], start: usize) -> (result: Option<ReadFields>)
    requires
        start <= data@.len(),
    ensures
        match parse_optional_fields(data@.skip(start as int)) {
            Some(f) => result is Some && result->0.model() == f,
            None => result is None,
        },
{
    if start == data.len() {
        let facilities: Vec<X25Facility> = Vec::new();
        let fields = ReadFields {
            called: X121Addr::null(),
            calling: X121Addr::null(),
            facilities,
            user_data: bytes_new(),
        };
        proof {
            assert(fields.model().facilities =~= Seq::empty());
        }
        return Some(fields);
    }
    match get_addr_block(data, start) {
        None => None,
        Some((called, calling, next)) => {
            if next == data.len() {
                let facilities: Vec<X25Facility> = Vec::new();
                let fields = ReadFields { called, calling, facilities, user_data: bytes_new() };
                proof {
                    assert(fields.model().facilities =~= Seq::empty());
                }
                return Some(fields);
            }
            match get_facility_block(data, next) {
                None => None,
                Some((facilities, end)) => Some(
                    ReadFields { called, calling, facilities, user_data: get_user_data(data, end) },
                ),
            }
        },
    }
}

/// Reads the packet behind the three bytes of the header.
fn get_body(
    modulo: X25Modulo,
    channel: u16,
    qualifier: bool,
    delivery: bool,
    pti: u8,
    data: &[u8],
) -> (result: Result<X25Packet, X25PacketError>)
    requires
        data@.len() >= 3,
    ensures
        match decode_body(modulo, channel, qualifier, delivery, pti, data@.skip(3)) {
            Ok(packet) => result is Ok && result->Ok_0@ == packet,
            Err(err) => result == Err::<X25Packet, X25PacketError>(err),
        },
{
    let ghost body = data@.skip(3);
    let body_len: usize = data.len() - 3;
    if pti % 2 == 0 {
        match modulo {
            X25Modulo::Normal => Ok(
                X25Packet::Data(
                    X25Data {
                        modulo,
                        channel,
                        send_seq: (pti / 2) % 8,
                        recv_seq: pti / 32,
                        qualifier,
                        delivery,
                        more: (pti / 16) % 2 == 1,
                        user_data: get_user_data(data, 3),
                    },
                ),
            ),
            X25Modulo::Extended => {
                if body_len < 1 {
                    return Err(X25PacketError::PacketMalformed);
                }
                let second: u8 = data[3];
                proof {
                    assert(body[0] == second);
                    assert(data@.skip(4) =~= body.skip(1));
                }
                Ok(
                    X25Packet::Data(
                        X25Data {
                            modulo,
                            channel,
                            send_seq: pti / 2,
                            recv_seq: second / 2,
                            qualifier,
                            delivery,
                            more: second % 2 == 1,
                            user_data: get_user_data(data, 4),
                        },
                    ),
                )
            },
        }
    } else if modulo == X25Modulo::Normal && pti % 32 == 1 {
        if body_len == 0 {
            Ok(X25Packet::ReceiveReady(X25ReceiveReady { modulo, channel, recv_seq: pti / 32 }))
        } else {
            Err(X25PacketError::PacketMalformed)
        }
    } else if modulo == X25Modulo::Extended && pti == 1 {
        if body_len == 1 {
            proof {
                assert(body[0] == data@[3]);
            }
            Ok(
                X25Packet::ReceiveReady(
                    X25ReceiveReady { modulo, channel, recv_seq: data[3] / 2 },
                ),
            )
        } else {
            Err(X25PacketError::PacketMalformed)
        }
    } else {
        get_control(modulo, channel, pti, data)
    }
}

/// Reads a packet that is neither data nor receive ready.
fn get_control(modulo: X25Modulo, channel: u16, pti: u8, data: &[u8]) -> (result: Result<
    X25Packet,
    X25PacketError,
>)
    requires
        data@.len() >= 3,
    ensures
        match decode_control(modulo, channel, pti, data@.skip(3)) {
            Ok(packet) => result is Ok && result->Ok_0@ == packet,
            Err(err) => result == Err::<X25Packet, X25PacketError>(err),
        },
{
    let ghost body = data@.skip(3);
    let body_len: usize = data.len() - 3;
    if pti == PTI_CALL_REQUEST {
        match get_call_fields(data, 3) {
            Some(f) => Ok(
                X25Packet::CallRequest(
                    X25CallRequest {
                        modulo,
                        channel,
                        called_addr: f.called,
                        calling_addr: f.calling,
                        facilities: f.facilities,
                        call_user_data: f.user_data,
                    },
                ),
            ),
            None => Err(X25PacketError::PacketMalformed),
        }
    } else if pti == PTI_CALL_ACCEPT {
        match get_optional_fields(data, 3) {
            Some(f) => Ok(
                X25Packet::CallAccept(
                    X25CallAccept {
                        modulo,
                        channel,
                        called_addr: f.called,
                        calling_addr: f.calling,
                        facilities: f.facilities,
                        called_user_data: f.user_data,
                    },
                ),
            ),
            None => Err(X25PacketError::PacketMalformed),
        }
    } else if pti == PTI_CLEAR_REQUEST {
        if body_len < 1 {
            return Err(X25PacketError::PacketMalformed);
        }
        proof {
            assert(body[0] == data@[3]);
        }
        if body_len == 1 {
            let facilities: Vec<X25Facility> = Vec::new();
            let request = X25ClearRequest {
                modulo,
                channel,
                cause_code: data[3],
                diagnostic_code: 0,
                called_addr: X121Addr::null(),
                calling_addr: X121Addr::null(),
                facilities,
                clear_user_data: bytes_new(),
            };
            proof {
                assert(request@.facilities =~= Seq::empty());
            }
            return Ok(X25Packet::ClearRequest(request));
        }
        proof {
            assert(body[1] == data@[4]);
            assert(data@.skip(5) =~= body.skip(2));
        }
        match get_optional_fields(data, 5) {
            Some(f) => Ok(
                X25Packet::ClearRequest(
                    X25ClearRequest {
                        modulo,
                        channel,
                        cause_code: data[3],
                        diagnostic_code: data[4],
                        called_addr: f.called,
                        calling_addr: f.calling,
                        facilities: f.facilities,
                        clear_user_data: f.user_data,
                    },
                ),
            ),
            None => Err(X25PacketError::PacketMalformed),
        }
    } else if pti == PTI_CLEAR_CONFIRM {
        match get_optional_fields(data, 3) {
            Some(f) => {
                if bytes_len(&f.user_data) == 0 {
                    Ok(
                        X25Packet::ClearConfirm(
                            X25ClearConfirm {
                                modulo,
                                channel,
                                called_addr: f.called,
                                calling_addr: f.calling,
                                facilities: f.facilities,
                            },
                        ),
                    )
                } else {
                    Err(X25PacketError::PacketMalformed)
                }
            },
            None => Err(X25PacketError::PacketMalformed),
        }
    } else if pti == PTI_RESET_REQUEST {
        if body_len < 1 || body_len > 2 {
            return Err(X25PacketError::PacketMalformed);
        }
        proof {
            assert(body[0] == data@[3]);
            if body_len == 2 {
                assert(body[1] == data@[4]);
            }
        }
        let diagnostic_code: u8 = if body_len == 2 {
            data[4]
        } else {
            0
        };
        Ok(
            X25Packet::ResetRequest(
                X25ResetRequest { modulo, channel, cause_code: data[3], diagnostic_code },
            ),
        )
    } else if pti == PTI_RESET_CONFIRM {
        if body_len == 0 {
            Ok(X25Packet::ResetConfirm(X25ResetConfirm { modulo, channel }))
        } else {
            Err(X25PacketError::PacketMalformed)
        }
    } else if pti == PTI_INTERRUPT {
        Ok(
            X25Packet::Interrupt(
                X25Interrupt { modulo, channel, user_data: get_user_data(data, 3) },
            ),
        )
    } else {
        Err(X25PacketError::PacketUnsupported)
    }
}

} // verus!
