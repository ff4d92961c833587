use std::str::FromStr;

use bytes::{Bytes, BytesMut};
use xotpad::x121::X121Addr;
use xotpad::x25::codec::X25PacketError;
use xotpad::x25::packet::{
    X25CallAccept, X25CallRequest, X25ClearConfirm, X25ClearRequest, X25Data, X25Interrupt,
    X25Packet, X25ReceiveReady, X25ResetConfirm, X25ResetRequest,
};
use xotpad::x25::{X25Facility, X25Modulo};

fn encoded(packet: &X25Packet) -> Vec<u8> {
    let mut buf = BytesMut::new();
    let n = packet.encode(&mut buf).unwrap();
    assert_eq!(n, buf.len());
    buf.to_vec()
}

fn decoded(bytes: &[u8]) -> Result<X25Packet, X25PacketError> {
    X25Packet::decode(Bytes::copy_from_slice(bytes))
}

fn default_facilities() -> Vec<X25Facility> {
    vec![
        X25Facility::PacketSize {
            from_called: 128,
            from_calling: 128,
        },
        X25Facility::WindowSize {
            from_called: 2,
            from_calling: 2,
        },
    ]
}

fn call_request() -> X25Packet {
    X25Packet::CallRequest(X25CallRequest {
        modulo: X25Modulo::Normal,
        channel: 1,
        called_addr: X121Addr::null(),
        calling_addr: X121Addr::null(),
        facilities: default_facilities(),
        call_user_data: Bytes::from_static(b"\x01\x00\x00\x00"),
    })
}

fn data(modulo: X25Modulo, send_seq: u8, recv_seq: u8, more: bool, qualifier: bool) -> X25Packet {
    X25Packet::Data(X25Data {
        modulo,
        channel: 1,
        send_seq,
        recv_seq,
        qualifier,
        delivery: false,
        more,
        user_data: Bytes::from_static(b"hi\r"),
    })
}

#[test]
fn encode_call_request_with_default_params() {
    assert_eq!(
        encoded(&call_request()),
        [0x10, 0x01, 0x0b, 0x00, 0x06, 0x42, 0x07, 0x07, 0x43, 0x02, 0x02, 0x01, 0x00, 0x00, 0x00]
    );
}

#[test]
fn decode_call_request_with_default_params() {
    assert_eq!(
        decoded(&[
            0x10, 0x01, 0x0b, 0x00, 0x06, 0x42, 0x07, 0x07, 0x43, 0x02, 0x02, 0x01, 0x00, 0x00,
            0x00
        ]),
        Ok(call_request())
    );
}

#[test]
fn encode_call_request_with_addresses() {
    let packet = X25Packet::CallRequest(X25CallRequest {
        modulo: X25Modulo::Extended,
        channel: 0xabc,
        called_addr: X121Addr::from_str("737411").unwrap(),
        calling_addr: X121Addr::from_str("1234567").unwrap(),
        facilities: vec![X25Facility::PacketSize {
            from_called: 16,
            from_calling: 4096,
        }],
        call_user_data: Bytes::new(),
    });
    let bytes = [
        0x2a, 0xbc, 0x0b, 0x76, 0x73, 0x74, 0x11, 0x12, 0x34, 0x56, 0x70, 0x03, 0x42, 0x04, 0x0c,
    ];
    assert_eq!(encoded(&packet), bytes);
    assert_eq!(decoded(&bytes), Ok(packet));
}

#[test]
fn encode_data_packets() {
    assert_eq!(
        encoded(&data(X25Modulo::Normal, 0, 0, false, false)),
        [0x10, 0x01, 0x00, 0x68, 0x69, 0x0d]
    );
    assert_eq!(
        encoded(&data(X25Modulo::Normal, 3, 5, true, true)),
        [0x90, 0x01, 0xb6, 0x68, 0x69, 0x0d]
    );
    assert_eq!(
        encoded(&data(X25Modulo::Extended, 100, 127, true, false)),
        [0x20, 0x01, 0xc8, 0xff, 0x68, 0x69, 0x0d]
    );
    let delivery = X25Packet::Data(X25Data {
        modulo: X25Modulo::Normal,
        channel: 4095,
        send_seq: 7,
        recv_seq: 7,
        qualifier: false,
        delivery: true,
        more: false,
        user_data: Bytes::new(),
    });
    assert_eq!(encoded(&delivery), [0x5f, 0xff, 0xee]);
}

#[test]
fn decode_data_packets() {
    assert_eq!(
        decoded(&[0x10, 0x01, 0x00, 0x68, 0x69, 0x0d]),
        Ok(data(X25Modulo::Normal, 0, 0, false, false))
    );
    assert_eq!(
        decoded(&[0x90, 0x01, 0xb6, 0x68, 0x69, 0x0d]),
        Ok(data(X25Modulo::Normal, 3, 5, true, true))
    );
    assert_eq!(
        decoded(&[0x20, 0x01, 0xc8, 0xff, 0x68, 0x69, 0x0d]),
        Ok(data(X25Modulo::Extended, 100, 127, true, false))
    );
    // With modulo 128 the second sequence byte must be there.
    assert_eq!(
        decoded(&[0x20, 0x01, 0xc8]),
        Err(X25PacketError::PacketMalformed)
    );
}

#[test]
fn encode_supervisory_and_reset_packets() {
    let rr = X25Packet::ReceiveReady(X25ReceiveReady {
        modulo: X25Modulo::Normal,
        channel: 1,
        recv_seq: 1,
    });
    assert_eq!(encoded(&rr), [0x10, 0x01, 0x21]);
    assert_eq!(decoded(&[0x10, 0x01, 0x21]), Ok(rr));

    let rr = X25Packet::ReceiveReady(X25ReceiveReady {
        modulo: X25Modulo::Extended,
        channel: 1,
        recv_seq: 1,
    });
    assert_eq!(encoded(&rr), [0x20, 0x01, 0x01, 0x02]);
    assert_eq!(decoded(&[0x20, 0x01, 0x01, 0x02]), Ok(rr));

    let reset = X25Packet::ResetRequest(X25ResetRequest {
        modulo: X25Modulo::Normal,
        channel: 1,
        cause_code: 5,
        diagnostic_code: 1,
    });
    assert_eq!(encoded(&reset), [0x10, 0x01, 0x1b, 0x05, 0x01]);
    assert_eq!(decoded(&[0x10, 0x01, 0x1b, 0x05, 0x01]), Ok(reset));

    let confirm = X25Packet::ResetConfirm(X25ResetConfirm {
        modulo: X25Modulo::Normal,
        channel: 1,
    });
    assert_eq!(encoded(&confirm), [0x10, 0x01, 0x1f]);
    assert_eq!(decoded(&[0x10, 0x01, 0x1f]), Ok(confirm));
}

#[test]
fn encode_clear_packets() {
    let request = X25Packet::ClearRequest(X25ClearRequest {
        modulo: X25Modulo::Normal,
        channel: 1,
        cause_code: 19,
        diagnostic_code: 49,
        called_addr: X121Addr::null(),
        calling_addr: X121Addr::null(),
        facilities: vec![],
        clear_user_data: Bytes::new(),
    });
    assert_eq!(encoded(&request), [0x10, 0x01, 0x13, 0x13, 0x31]);
    assert_eq!(decoded(&[0x10, 0x01, 0x13, 0x13, 0x31]), Ok(request));

    let confirm = X25Packet::ClearConfirm(X25ClearConfirm {
        modulo: X25Modulo::Normal,
        channel: 1,
        called_addr: X121Addr::null(),
        calling_addr: X121Addr::null(),
        facilities: vec![],
    });
    assert_eq!(encoded(&confirm), [0x10, 0x01, 0x17]);
    assert_eq!(decoded(&[0x10, 0x01, 0x17]), Ok(confirm));

    let long = X25Packet::ClearRequest(X25ClearRequest {
        modulo: X25Modulo::Normal,
        channel: 1,
        cause_code: 0,
        diagnostic_code: 0,
        called_addr: X121Addr::from_str("9").unwrap(),
        calling_addr: X121Addr::null(),
        facilities: vec![],
        clear_user_data: Bytes::from_static(b"bye"),
    });
    let bytes = [0x10, 0x01, 0x13, 0x00, 0x00, 0x01, 0x90, 0x00, 0x62, 0x79, 0x65];
    assert_eq!(encoded(&long), bytes);
    assert_eq!(decoded(&bytes), Ok(long));
}

#[test]
fn encode_interrupt() {
    let interrupt = X25Packet::Interrupt(X25Interrupt {
        modulo: X25Modulo::Normal,
        channel: 1,
        user_data: Bytes::from_static(b"!"),
    });
    assert_eq!(encoded(&interrupt), [0x10, 0x01, 0x23, 0x21]);
    assert_eq!(decoded(&[0x10, 0x01, 0x23, 0x21]), Ok(interrupt));
}

#[test]
fn decode_clear_request_without_diagnostic() {
    let Ok(X25Packet::ClearRequest(request)) = decoded(&[0x10, 0x01, 0x13, 0x09]) else {
        panic!();
    };
    assert_eq!((request.cause_code, request.diagnostic_code), (9, 0));
    assert_eq!(
        decoded(&[0x10, 0x01, 0x13]),
        Err(X25PacketError::PacketMalformed)
    );
}

#[test]
fn decode_call_accept_in_short_and_long_form() {
    let short = X25Packet::CallAccept(X25CallAccept {
        modulo: X25Modulo::Normal,
        channel: 1,
        called_addr: X121Addr::null(),
        calling_addr: X121Addr::null(),
        facilities: vec![],
        called_user_data: Bytes::new(),
    });
    assert_eq!(encoded(&short), [0x10, 0x01, 0x0f]);
    assert_eq!(decoded(&[0x10, 0x01, 0x0f]), Ok(short));

    let long = X25Packet::CallAccept(X25CallAccept {
        modulo: X25Modulo::Normal,
        channel: 1,
        called_addr: X121Addr::null(),
        calling_addr: X121Addr::null(),
        facilities: default_facilities(),
        called_user_data: Bytes::new(),
    });
    let bytes = [0x10, 0x01, 0x0f, 0x00, 0x06, 0x42, 0x07, 0x07, 0x43, 0x02, 0x02];
    assert_eq!(encoded(&long), bytes);
    assert_eq!(decoded(&bytes), Ok(long));

    // An address block alone is taken too.
    let Ok(X25Packet::CallAccept(accept)) = decoded(&[0x10, 0x01, 0x0f, 0x02, 0x12]) else {
        panic!();
    };
    assert_eq!(accept.called_addr, X121Addr::from_str("12").unwrap());
    assert!(accept.facilities.is_empty());
}

#[test]
fn decode_truncated_packets_as_malformed() {
    assert_eq!(decoded(&[]), Err(X25PacketError::PacketMalformed));
    assert_eq!(decoded(&[0x10, 0x01]), Err(X25PacketError::PacketMalformed));
    // Call request without its fields.
    assert_eq!(
        decoded(&[0x10, 0x01, 0x0b]),
        Err(X25PacketError::PacketMalformed)
    );
    // Address block that says two digits and holds none.
    assert_eq!(
        decoded(&[0x10, 0x01, 0x0b, 0x02]),
        Err(X25PacketError::PacketMalformed)
    );
    // Address block without a facility block behind.
    assert_eq!(
        decoded(&[0x10, 0x01, 0x0b, 0x00]),
        Err(X25PacketError::PacketMalformed)
    );
    // A digit above nine.
    assert_eq!(
        decoded(&[0x10, 0x01, 0x0b, 0x01, 0xa0, 0x00]),
        Err(X25PacketError::PacketMalformed)
    );
    // Reset request without a cause; reset confirm with a body.
    assert_eq!(
        decoded(&[0x10, 0x01, 0x1b]),
        Err(X25PacketError::PacketMalformed)
    );
    assert_eq!(
        decoded(&[0x10, 0x01, 0x1f, 0x00]),
        Err(X25PacketError::PacketMalformed)
    );
    // Receive ready with a body.
    assert_eq!(
        decoded(&[0x10, 0x01, 0x21, 0x00]),
        Err(X25PacketError::PacketMalformed)
    );
}

#[test]
fn decode_bad_format_identifier_as_malformed() {
    assert_eq!(
        decoded(&[0x00, 0x01, 0x1f]),
        Err(X25PacketError::PacketMalformed)
    );
    assert_eq!(
        decoded(&[0x30, 0x01, 0x1f]),
        Err(X25PacketError::PacketMalformed)
    );
}

#[test]
fn decode_facility_overrun_as_malformed() {
    // The block says 6 bytes and holds 5.
    assert_eq!(
        decoded(&[0x10, 0x01, 0x0b, 0x00, 0x06, 0x42, 0x07, 0x07, 0x43, 0x02]),
        Err(X25PacketError::PacketMalformed)
    );
    // The last facility runs over the end of the block.
    assert_eq!(
        decoded(&[0x10, 0x01, 0x0b, 0x00, 0x02, 0x42, 0x07]),
        Err(X25PacketError::PacketMalformed)
    );
    // A packet size that is no logarithm from 4 to 12.
    assert_eq!(
        decoded(&[0x10, 0x01, 0x0b, 0x00, 0x03, 0x42, 0x03, 0x07]),
        Err(X25PacketError::PacketMalformed)
    );
    assert_eq!(
        decoded(&[0x10, 0x01, 0x0b, 0x00, 0x03, 0x42, 0x07, 0x0d]),
        Err(X25PacketError::PacketMalformed)
    );
}

#[test]
fn decode_skips_unknown_facilities() {
    // Class A (one byte), class B (two), class C (three), class D (length-prefixed).
    let bytes = [
        0x10, 0x01, 0x0b, 0x00, 0x13, 0x01, 0xaa, 0x41, 0x01, 0x02, 0x43, 0x03, 0x04, 0x81, 0x01,
        0x02, 0x03, 0xc1, 0x02, 0x42, 0x07, 0x42, 0x08, 0x09, 0xff,
    ];
    let Ok(X25Packet::CallRequest(request)) = decoded(&bytes) else {
        panic!();
    };
    assert_eq!(
        request.facilities,
        vec![
            X25Facility::WindowSize {
                from_called: 3,
                from_calling: 4,
            },
            X25Facility::PacketSize {
                from_called: 256,
                from_calling: 512,
            },
        ]
    );
    assert_eq!(&request.call_user_data[..], [0xff]);
}

#[test]
fn decode_unhandled_types_as_unsupported() {
    // Receive not ready, reject, interrupt confirm, restart request and
    // confirm, diagnostic.
    for pti in [0x05u8, 0x09, 0x27, 0xfb, 0xff, 0xf1] {
        assert_eq!(
            decoded(&[0x10, 0x01, pti]),
            Err(X25PacketError::PacketUnsupported),
            "pti {pti:#x}"
        );
    }
    assert_eq!(
        decoded(&[0x20, 0x01, 0x21, 0x00]),
        Err(X25PacketError::PacketUnsupported)
    );
}

#[test]
fn encode_refuses_fields_out_of_range() {
    let mut buf = BytesMut::new();
    buf.extend_from_slice(b"kept");

    let packet = X25Packet::ResetConfirm(X25ResetConfirm {
        modulo: X25Modulo::Normal,
        channel: 4096,
    });
    assert!(!packet.is_valid());
    assert_eq!(packet.encode(&mut buf), Err(X25PacketError::PacketMalformed));

    let packet = data(X25Modulo::Normal, 8, 0, false, false);
    assert_eq!(packet.encode(&mut buf), Err(X25PacketError::PacketMalformed));
    let packet = data(X25Modulo::Normal, 0, 8, false, false);
    assert_eq!(packet.encode(&mut buf), Err(X25PacketError::PacketMalformed));
    let packet = data(X25Modulo::Extended, 128, 0, false, false);
    assert_eq!(packet.encode(&mut buf), Err(X25PacketError::PacketMalformed));

    let packet = X25Packet::CallRequest(X25CallRequest {
        modulo: X25Modulo::Normal,
        channel: 1,
        called_addr: X121Addr::null(),
        calling_addr: X121Addr::null(),
        facilities: vec![X25Facility::PacketSize {
            from_called: 100,
            from_calling: 128,
        }],
        call_user_data: Bytes::new(),
    });
    assert_eq!(packet.encode(&mut buf), Err(X25PacketError::PacketMalformed));

    let packet = X25Packet::CallRequest(X25CallRequest {
        modulo: X25Modulo::Normal,
        channel: 1,
        called_addr: X121Addr::null(),
        calling_addr: X121Addr::null(),
        facilities: vec![
            X25Facility::WindowSize {
                from_called: 1,
                from_calling: 1,
            };
            86
        ],
        call_user_data: Bytes::new(),
    });
    assert_eq!(packet.encode(&mut buf), Err(X25PacketError::PacketMalformed));

    assert_eq!(&buf[..], b"kept");
}

#[test]
fn user_data_len_is_that_of_the_payload() {
    assert_eq!(call_request().user_data_len(), 4);
    assert_eq!(data(X25Modulo::Normal, 0, 0, false, false).user_data_len(), 3);
    let confirm = X25Packet::ResetConfirm(X25ResetConfirm {
        modulo: X25Modulo::Normal,
        channel: 1,
    });
    assert_eq!(confirm.user_data_len(), 0);
}

#[test]
fn encode_appends_to_the_buffer() {
    let mut buf = BytesMut::new();
    buf.extend_from_slice(&[0xaa]);
    let packet = data(X25Modulo::Normal, 1, 2, false, false);
    assert_eq!(packet.encode(&mut buf), Ok(6));
    assert_eq!(&buf[..], [0xaa, 0x10, 0x01, 0x42, 0x68, 0x69, 0x0d]);
}

#[test]
fn packets_read_back_as_written() {
    let mut packets = vec![call_request()];
    for modulo in [X25Modulo::Normal, X25Modulo::Extended] {
        let n = modulo.value();
        for channel in [0u16, 1, 255, 256, 4095] {
            for seq in [0, 1, n / 2, n - 1] {
                for flag in [false, true] {
                    packets.push(X25Packet::Data(X25Data {
                        modulo,
                        channel,
                        send_seq: seq,
                        recv_seq: n - 1 - seq,
                        qualifier: flag,
                        delivery: !flag,
                        more: flag,
                        user_data: Bytes::from(vec![seq; seq as usize]),
                    }));
                    packets.push(X25Packet::ReceiveReady(X25ReceiveReady {
                        modulo,
                        channel,
                        recv_seq: seq,
                    }));
                }
            }
            packets.push(X25Packet::ResetRequest(X25ResetRequest {
                modulo,
                channel,
                cause_code: 255,
                diagnostic_code: 254,
            }));
            packets.push(X25Packet::ResetConfirm(X25ResetConfirm { modulo, channel }));
            packets.push(X25Packet::Interrupt(X25Interrupt {
                modulo,
                channel,
                user_data: Bytes::from_static(b"\x00\xff"),
            }));
            packets.push(X25Packet::ClearConfirm(X25ClearConfirm {
                modulo,
                channel,
                called_addr: X121Addr::from_str("123456789012345").unwrap(),
                calling_addr: X121Addr::from_str("543210987654321").unwrap(),
                facilities: default_facilities(),
            }));
            packets.push(X25Packet::ClearRequest(X25ClearRequest {
                modulo,
                channel,
                cause_code: 1,
                diagnostic_code: 0,
                called_addr: X121Addr::null(),
                calling_addr: X121Addr::from_str("1").unwrap(),
                facilities: vec![],
                clear_user_data: Bytes::new(),
            }));
            packets.push(X25Packet::CallAccept(X25CallAccept {
                modulo,
                channel,
                called_addr: X121Addr::from_str("12").unwrap(),
                calling_addr: X121Addr::from_str("345").unwrap(),
                facilities: vec![X25Facility::WindowSize {
                    from_called: 0,
                    from_calling: 255,
                }],
                called_user_data: Bytes::from_static(b"\x00"),
            }));
        }
    }
    for packet in packets {
        assert!(packet.is_valid());
        let bytes = encoded(&packet);
        assert_eq!(decoded(&bytes), Ok(packet));
    }
}
