use bytes::{Bytes, BytesMut};
use xotpad::x29::{X29CallUserData, X29PadMessage};
use xotpad::x3::X3ParamError;

#[test]
fn encode_call_user_data() {
    let call_user_data = X29CallUserData::with_call_data(b"testing").unwrap();

    let mut buf = BytesMut::new();

    assert_eq!(call_user_data.encode(&mut buf), 11);

    assert_eq!(&buf[..], b"\x01\x00\x00\x00testing");
}

#[test]
fn decode_call_user_data() {
    let buf = Bytes::from_static(b"\x01\x00\x00\x00testing");

    let call_user_data = X29CallUserData::decode(buf).unwrap();

    assert!(call_user_data.is_pad_protocol());
}

#[test]
fn encode_set_message() {
    let message = X29PadMessage::SetParams(vec![(1, 0), (2, 126)]);

    let mut buf = BytesMut::new();

    assert_eq!(message.encode(&mut buf), 5);

    assert_eq!(&buf[..], b"\x02\x01\x00\x02\x7e");
}

#[test]
fn decode_set_message() {
    let buf = Bytes::from_static(b"\x02\x01\x00\x02\x7e");

    assert_eq!(
        X29PadMessage::decode(buf),
        Ok(X29PadMessage::SetParams(vec![(1, 0), (2, 126)]))
    );
}

#[test]
fn encode_read_message() {
    let message = X29PadMessage::Read(vec![1, 2]);

    let mut buf = BytesMut::new();

    assert_eq!(message.encode(&mut buf), 5);

    assert_eq!(&buf[..], b"\x04\x01\x00\x02\x00");
}

#[test]
fn decode_read_message() {
    let buf = Bytes::from_static(b"\x04\x01\x00\x02\x00");

    assert_eq!(
        X29PadMessage::decode(buf),
        Ok(X29PadMessage::Read(vec![1, 2]))
    );
}

#[test]
fn encode_set_read_message() {
    let message = X29PadMessage::SetRead(vec![(1, 0), (2, 126)]);

    let mut buf = BytesMut::new();

    assert_eq!(message.encode(&mut buf), 5);

    assert_eq!(&buf[..], b"\x06\x01\x00\x02\x7e");
}

#[test]
fn decode_set_read_message() {
    let buf = Bytes::from_static(b"\x06\x01\x00\x02\x7e");

    assert_eq!(
        X29PadMessage::decode(buf),
        Ok(X29PadMessage::SetRead(vec![(1, 0), (2, 126)]))
    );
}

#[test]
fn encode_indicate_message() {
    let message = X29PadMessage::Indicate(vec![
        (1, Ok(0)),
        (2, Ok(126)),
        (3, Err(X3ParamError::Unsupported)),
        (4, Err(X3ParamError::InvalidValue)),
    ]);

    let mut buf = BytesMut::new();

    assert_eq!(message.encode(&mut buf), 9);

    assert_eq!(&buf[..], b"\x00\x01\x00\x02\x7e\x83\x01\x84\x02");
}

#[test]
fn decode_indicate_message() {
    let buf = Bytes::from_static(b"\x00\x01\x00\x02\x7e\x83\x01\x84\x02");

    assert_eq!(
        X29PadMessage::decode(buf),
        Ok(X29PadMessage::Indicate(vec![
            (1, Ok(0)),
            (2, Ok(126)),
            (3, Err(X3ParamError::Unsupported)),
            (4, Err(X3ParamError::InvalidValue))
        ]))
    );
}

#[test]
fn encode_clear_invitation_message() {
    let message = X29PadMessage::ClearInvitation;

    let mut buf = BytesMut::new();

    assert_eq!(message.encode(&mut buf), 1);

    assert_eq!(&buf[..], b"\x01");
}

#[test]
fn decode_clear_invitation_message() {
    let buf = Bytes::from_static(b"\x01");

    assert_eq!(
        X29PadMessage::decode(buf),
        Ok(X29PadMessage::ClearInvitation)
    );
}

#[test]
fn call_user_data_holds_protocol_and_call_data() {
    let call_user_data = X29CallUserData::with_call_data(b"testing").unwrap();
    assert!(call_user_data.is_pad_protocol());
    assert_eq!(call_user_data.call_data(), b"testing");

    assert!(X29CallUserData::with_call_data(&[0; 12]).is_ok());
    assert_eq!(
        X29CallUserData::with_call_data(&[0; 13]).unwrap_err(),
        "call data too long"
    );

    let other = X29CallUserData::decode(Bytes::from_static(b"\x01\x00\x00\x01abc")).unwrap();
    assert!(!other.is_pad_protocol());
    assert_eq!(other.call_data(), b"abc");
    let mut buf = BytesMut::new();
    buf.extend_from_slice(b">");
    assert_eq!(other.encode(&mut buf), 7);
    assert_eq!(&buf[..], b">\x01\x00\x00\x01abc");

    let bare = X29CallUserData::decode(Bytes::from_static(b"\x01\x00\x00\x00")).unwrap();
    assert!(bare.is_pad_protocol());
    assert!(bare.call_data().is_empty());
}

#[test]
fn call_user_data_too_short_says_how_short() {
    assert_eq!(
        X29CallUserData::decode(Bytes::new()).unwrap_err(),
        "call user data too short: 0"
    );
    assert_eq!(
        X29CallUserData::decode(Bytes::from_static(b"\x01\x00\x00")).unwrap_err(),
        "call user data too short: 3"
    );
    assert!(xotpad::x29::call_user_data_decode(Bytes::from_static(b"\x01\x00")).is_err());
    assert!(xotpad::x29::call_user_data_decode(Bytes::from_static(b"\x01\x00\x00\x00")).is_ok());
}

#[test]
fn decode_refuses_what_is_no_message() {
    assert_eq!(
        X29PadMessage::decode(Bytes::new()).unwrap_err(),
        "message too short: 0"
    );
    assert_eq!(
        X29PadMessage::decode(Bytes::from_static(b"\x01\x00\x00")).unwrap_err(),
        "message too long: 2"
    );
    assert_eq!(
        X29PadMessage::decode(Bytes::from_static(b"\x03")).unwrap_err(),
        "unrecognized X.29 PAD message: 3"
    );
    assert_eq!(
        X29PadMessage::decode(Bytes::from_static(b"\xff\x00\x00")).unwrap_err(),
        "unrecognized X.29 PAD message: 255"
    );
    for code in [0x00u8, 0x02, 0x04, 0x06] {
        assert_eq!(
            X29PadMessage::decode(Bytes::copy_from_slice(&[code, 0x01])).unwrap_err(),
            "expected even number of bytes"
        );
    }
    assert_eq!(
        X29PadMessage::decode(Bytes::from_static(b"\x04\x01\x00\x02\x01")).unwrap_err(),
        "invalid request in read message"
    );
    assert!(xotpad::x29::pad_message_decode(Bytes::from_static(b"\x05")).is_err());
    assert_eq!(
        xotpad::x29::pad_message_decode(Bytes::from_static(b"\x01")),
        Ok(X29PadMessage::ClearInvitation)
    );
}

#[test]
fn decode_empty_requests() {
    assert_eq!(
        X29PadMessage::decode(Bytes::from_static(b"\x02")),
        Ok(X29PadMessage::SetParams(vec![]))
    );
    assert_eq!(
        X29PadMessage::decode(Bytes::from_static(b"\x04")),
        Ok(X29PadMessage::Read(vec![]))
    );
    assert_eq!(
        X29PadMessage::decode(Bytes::from_static(b"\x06")),
        Ok(X29PadMessage::SetRead(vec![]))
    );
    assert_eq!(
        X29PadMessage::decode(Bytes::from_static(b"\x00")),
        Ok(X29PadMessage::Indicate(vec![]))
    );
}

#[test]
fn indicate_error_codes() {
    let message = X29PadMessage::Indicate(vec![
        (5, Err(X3ParamError::Other)),
        (127, Err(X3ParamError::Unsupported)),
        (0, Ok(255)),
    ]);
    let mut buf = BytesMut::new();
    assert_eq!(message.encode(&mut buf), 7);
    assert_eq!(&buf[..], b"\x00\x85\x00\xff\x01\x00\xff");
    assert_eq!(X29PadMessage::decode(buf.freeze()), Ok(message));

    // Any error code but 1 and 2 is read as another error.
    assert_eq!(
        X29PadMessage::decode(Bytes::from_static(b"\x00\x85\x09")),
        Ok(X29PadMessage::Indicate(vec![(5, Err(X3ParamError::Other))]))
    );
}

#[test]
fn messages_read_back_as_written() {
    let messages = vec![
        X29PadMessage::SetParams(vec![(0, 0), (127, 255), (64, 1)]),
        X29PadMessage::Read(vec![0, 1, 127]),
        X29PadMessage::SetRead(vec![(127, 0)]),
        X29PadMessage::Indicate(vec![
            (0, Ok(0)),
            (127, Ok(255)),
            (1, Err(X3ParamError::Unsupported)),
            (2, Err(X3ParamError::InvalidValue)),
            (3, Err(X3ParamError::Other)),
        ]),
        X29PadMessage::ClearInvitation,
    ];
    for message in messages {
        assert!(message.is_encodable());
        let mut buf = BytesMut::new();
        let n = message.encode(&mut buf);
        assert_eq!(n, buf.len());
        assert_eq!(X29PadMessage::decode(buf.freeze()), Ok(message));
    }
}

#[test]
fn parameter_numbers_take_seven_bits() {
    assert!(!X29PadMessage::SetParams(vec![(1, 0), (128, 0)]).is_encodable());
    assert!(!X29PadMessage::Read(vec![200]).is_encodable());
    assert!(!X29PadMessage::SetRead(vec![(255, 0)]).is_encodable());
    assert!(!X29PadMessage::Indicate(vec![(128, Ok(0))]).is_encodable());
    assert!(X29PadMessage::SetParams(vec![(127, 255)]).is_encodable());
}
