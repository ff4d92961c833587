//! X.29 call user data and PAD messages.
//!
//! A PAD message travels as the user data of a qualified data packet: one
//! identifier byte, then pairs of a parameter byte and a value byte.

use crate::buf::{
    bytes_get_u8, bytes_into_vec, bytes_len, bytes_mut_put_slice, bytes_mut_put_u8, bytes_mut_seq,
    bytes_seq,
};
use crate::text::{push_decimal, spec_decimal};
use crate::x3::X3ParamError;
use bytes::{Bytes, BytesMut};
use vstd::prelude::*;
use vstd::string::*;

verus! {

/// Protocol identifier of a call to a PAD.
pub open spec fn pad_protocol() -> Seq<u8> {
    seq![0x01u8, 0x00u8, 0x00u8, 0x00u8]
}

/// Most bytes of call data that fit behind the protocol identifier.
pub const MAX_CALL_DATA: usize = 12;

/// Call user data of a call to a PAD: a 4-byte protocol identifier and up
/// to 12 bytes of call data.
#[derive(Debug)]
pub struct X29CallUserData {
    protocol: [u8; 4],
    call_data: Vec<u8>,
}

impl X29CallUserData {
    pub closed spec fn spec_protocol(&self) -> Seq<u8> {
        self.protocol@
    }

    pub closed spec fn spec_call_data(&self) -> Seq<u8> {
        self.call_data@
    }

    /// The bytes that stand for the call user data on the wire.
    pub open spec fn spec_encode(&self) -> Seq<u8> {
        self.spec_protocol() + self.spec_call_data()
    }

    /// Call user data for the PAD protocol. Fails when `call_data` is
    /// longer than 12 bytes.
    pub fn with_call_data(call_data: &[u8]) -> (result: Result<X29CallUserData, String>)
        ensures
            result is Ok <==> call_data@.len() <= MAX_CALL_DATA,
            result is Ok ==> result->Ok_0.spec_protocol() == pad_protocol()
                && result->Ok_0.spec_call_data() == call_data@,
            result is Err ==> result->Err_0@ == "call data too long"@,
    {
        if call_data.len() > MAX_CALL_DATA {
            return Err("call data too long".to_owned());
        }
        let protocol: [u8; 4] = [0x01, 0x00, 0x00, 0x00];
        proof {
            assert(protocol@ =~= pad_protocol());
        }
        Ok(X29CallUserData { protocol, call_data: vstd::slice::slice_to_vec(call_data) })
    }

    pub fn is_pad_protocol(&self) -> (is_pad: bool)
        ensures
            is_pad == (self.spec_protocol() == pad_protocol()),
    {
        let is_pad = self.protocol[0] == 0x01 && self.protocol[1] == 0x00 && self.protocol[2]
            == 0x00 && self.protocol[3] == 0x00;
        proof {
            if is_pad {
                assert(self.protocol@ =~= pad_protocol());
            }
        }
        is_pad
    }

    pub fn call_data(&self) -> (call_data: &[u8])
        ensures
            call_data@ == self.spec_call_data(),
    {
        self.call_data.as_slice()
    }

    /// Appends the encoding to `buf` and returns its length.
    pub fn encode(&self, buf: &mut BytesMut) -> (n: usize)
        requires
            bytes_mut_seq(*old(buf)).len() + self.spec_encode().len() <= isize::MAX,
        ensures
            bytes_mut_seq(*final(buf)) == bytes_mut_seq(*old(buf)) + self.spec_encode(),
            n == self.spec_encode().len(),
    {
        bytes_mut_put_slice(buf, self.protocol.as_slice());
        bytes_mut_put_slice(buf, self.call_data.as_slice());
        proof {
            assert(bytes_mut_seq(*buf) =~= bytes_mut_seq(*old(buf)) + self.spec_encode());
        }
        4 + self.call_data.len()
    }

    /// Reads call user data: the first four bytes are the protocol
    /// identifier, the rest is call data. Fails on fewer than four bytes.
    pub fn decode(buf: Bytes) -> (result: Result<X29CallUserData, String>)
        ensures
            result is Ok <==> bytes_seq(buf).len() >= 4,
            result is Ok ==> result->Ok_0.spec_protocol() == bytes_seq(buf).take(4)
                && result->Ok_0.spec_call_data() == bytes_seq(buf).skip(4),
            result is Ok ==> result->Ok_0.spec_encode() == bytes_seq(buf),
            result is Err ==> result->Err_0@ == "call user data too short: "@ + spec_decimal(
                bytes_seq(buf).len(),
            ),
    {
        let mut buf = buf;
        let ghost all = bytes_seq(buf);
        let len: usize = bytes_len(&buf);
        if len < 4 {
            let mut message = "call user data too short: ".to_owned();
            push_decimal(&mut message, len);
            return Err(message);
        }
        let b0: u8 = bytes_get_u8(&mut buf);
        let b1: u8 = bytes_get_u8(&mut buf);
        let b2: u8 = bytes_get_u8(&mut buf);
        let b3: u8 = bytes_get_u8(&mut buf);
        let protocol: [u8; 4] = [b0, b1, b2, b3];
        let call_data = bytes_into_vec(buf);
        proof {
            assert(protocol@ =~= all.take(4));
            assert(call_data@ =~= all.skip(4));
            assert(all.take(4) + all.skip(4) =~= all);
        }
        Ok(X29CallUserData { protocol, call_data })
    }
}

/// A message between PADs.
#[derive(PartialEq, Debug)]
pub enum X29PadMessage {
    /// Sets parameters; only failures are answered.
    SetParams(Vec<(u8, u8)>),
    /// Asks for the values of parameters, or of all with an empty list.
    Read(Vec<u8>),
    /// Sets parameters and asks for their values.
    SetRead(Vec<(u8, u8)>),
    /// Values of parameters, or why one has none.
    Indicate(Vec<(u8, Result<u8, X3ParamError>)>),
    /// Asks the other PAD to clear the call once it has sent its data.
    ClearInvitation,
}

pub ghost enum X29PadMessageView {
    SetParams(Seq<(u8, u8)>),
    Read(Seq<u8>),
    SetRead(Seq<(u8, u8)>),
    Indicate(Seq<(u8, Result<u8, X3ParamError>)>),
    ClearInvitation,
}

impl View for X29PadMessage {
    type V = X29PadMessageView;

    open spec fn view(&self) -> X29PadMessageView {
        match self {
            X29PadMessage::SetParams(request) => X29PadMessageView::SetParams(request@),
            X29PadMessage::Read(request) => X29PadMessageView::Read(request@),
            X29PadMessage::SetRead(request) => X29PadMessageView::SetRead(request@),
            X29PadMessage::Indicate(response) => X29PadMessageView::Indicate(response@),
            X29PadMessage::ClearInvitation => X29PadMessageView::ClearInvitation,
        }
    }
}

pub const CODE_INDICATE: u8 = 0x00;

pub const CODE_CLEAR_INVITATION: u8 = 0x01;

pub const CODE_SET: u8 = 0x02;

pub const CODE_READ: u8 = 0x04;

pub const CODE_SET_READ: u8 = 0x06;

/// The value byte that stands for an error in an indication.
pub open spec fn error_code(err: X3ParamError) -> u8 {
    match err {
        X3ParamError::Unsupported => 1,
        X3ParamError::InvalidValue => 2,
        X3ParamError::Other => 0,
    }
}

/// The error that a value byte stands for in an indication.
pub open spec fn code_error(code: u8) -> X3ParamError {
    if code == 1 {
        X3ParamError::Unsupported
    } else if code == 2 {
        X3ParamError::InvalidValue
    } else {
        X3ParamError::Other
    }
}

/// The two bytes of an entry of an indication. An error sets bit 7 of the
/// parameter byte.
pub open spec fn encode_entry(entry: (u8, Result<u8, X3ParamError>)) -> (u8, u8) {
    match entry.1 {
        Ok(value) => (entry.0, value),
        Err(err) => (entry.0 | 0x80, error_code(err)),
    }
}

/// The entry of an indication that two bytes stand for.
pub open spec fn decode_entry(param: u8, value: u8) -> (u8, Result<u8, X3ParamError>) {
    if param & 0x80 == 0 {
        (param, Ok(value))
    } else {
        (param & 0x7f, Err(code_error(value)))
    }
}

/// The pairs written out byte by byte.
pub open spec fn flatten(pairs: Seq<(u8, u8)>) -> Seq<u8> {
    Seq::new(
        2 * pairs.len(),
        |i: int|
            if i % 2 == 0 {
                pairs[i / 2].0
            } else {
                pairs[i / 2].1
            },
    )
}

/// The pairs that an even number of bytes stand for.
pub open spec fn pair_up(bytes: Seq<u8>) -> Seq<(u8, u8)> {
    Seq::new(bytes.len() / 2, |i: int| (bytes[2 * i], bytes[2 * i + 1]))
}

/// Whether every parameter number among `params` takes 7 bits.
pub open spec fn params_in_range(params: Seq<u8>) -> bool {
    forall|i: int| 0 <= i < params.len() ==> #[trigger] params[i] <= 0x7f
}

/// Whether every parameter number of a request takes 7 bits.
pub open spec fn request_in_range(request: Seq<(u8, u8)>) -> bool {
    forall|i: int| 0 <= i < request.len() ==> (#[trigger] request[i]).0 <= 0x7f
}

/// Whether every parameter number of an indication takes 7 bits.
pub open spec fn response_in_range(response: Seq<(u8, Result<u8, X3ParamError>)>) -> bool {
    forall|i: int| 0 <= i < response.len() ==> (#[trigger] response[i]).0 <= 0x7f
}

impl X29PadMessageView {
    /// Whether the message can be written: parameter numbers take 7 bits.
    pub open spec fn encodable(self) -> bool {
        match self {
            X29PadMessageView::SetParams(request) => request_in_range(request),
            X29PadMessageView::Read(request) => params_in_range(request),
            X29PadMessageView::SetRead(request) => request_in_range(request),
            X29PadMessageView::Indicate(response) => response_in_range(response),
            X29PadMessageView::ClearInvitation => true,
        }
    }

    /// The pairs that follow the identifier byte.
    pub open spec fn pairs(self) -> Seq<(u8, u8)> {
        match self {
            X29PadMessageView::SetParams(request) => request,
            X29PadMessageView::Read(request) => request.map_values(|p: u8| (p, 0u8)),
            X29PadMessageView::SetRead(request) => request,
            X29PadMessageView::Indicate(response) => response.map_values(
                |e: (u8, Result<u8, X3ParamError>)| encode_entry(e),
            ),
            X29PadMessageView::ClearInvitation => Seq::empty(),
        }
    }

    pub open spec fn code(self) -> u8 {
        match self {
            X29PadMessageView::SetParams(_) => CODE_SET,
            X29PadMessageView::Read(_) => CODE_READ,
            X29PadMessageView::SetRead(_) => CODE_SET_READ,
            X29PadMessageView::Indicate(_) => CODE_INDICATE,
            X29PadMessageView::ClearInvitation => CODE_CLEAR_INVITATION,
        }
    }

    /// The bytes that stand for the message on the wire.
    pub open spec fn spec_encode(self) -> Seq<u8> {
        seq![self.code()] + flatten(self.pairs())
    }
}

/// The message that `bytes` stand for, or `None` where they stand for none:
/// where they are empty, start with an unknown identifier, hold half a
/// pair, ask to read with a value that is not zero, or invite to clear
/// with anything more.
pub open spec fn spec_decode(bytes: Seq<u8>) -> Option<X29PadMessageView> {
    if bytes.len() == 0 {
        None
    } else {
        let code = bytes[0];
        let body = bytes.skip(1);
        let pairs = pair_up(body);
        if code == CODE_CLEAR_INVITATION {
            if body.len() == 0 {
                Some(X29PadMessageView::ClearInvitation)
            } else {
                None
            }
        } else if body.len() % 2 != 0 {
            None
        } else if code == CODE_SET {
            Some(X29PadMessageView::SetParams(pairs))
        } else if code == CODE_SET_READ {
            Some(X29PadMessageView::SetRead(pairs))
        } else if code == CODE_READ {
            if forall|i: int| 0 <= i < pairs.len() ==> (#[trigger] pairs[i]).1 == 0 {
                Some(X29PadMessageView::Read(pairs.map_values(|p: (u8, u8)| p.0)))
            } else {
                None
            }
        } else if code == CODE_INDICATE {
            Some(
                X29PadMessageView::Indicate(
                    pairs.map_values(|p: (u8, u8)| decode_entry(p.0, p.1)),
                ),
            )
        } else {
            None
        }
    }
}

/// Why `bytes` stand for no message, for bytes that stand for none.
pub open spec fn spec_decode_error(bytes: Seq<u8>) -> Seq<char> {
    if bytes.len() == 0 {
        "message too short: 0"@
    } else if bytes[0] == CODE_CLEAR_INVITATION {
        "message too long: "@ + spec_decimal((bytes.len() - 1) as nat)
    } else if bytes[0] != CODE_SET && bytes[0] != CODE_READ && bytes[0] != CODE_SET_READ
        && bytes[0] != CODE_INDICATE {
        "unrecognized X.29 PAD message: "@ + spec_decimal(bytes[0] as nat)
    } else if bytes.len() % 2 == 0 {
        "expected even number of bytes"@
    } else {
        "invalid request in read message"@
    }
}

/// Pairing up what was flattened gives the pairs back.
pub proof fn lemma_pair_up_flatten(pairs: Seq<(u8, u8)>)
    ensures
        flatten(pairs).len() == 2 * pairs.len(),
        pair_up(flatten(pairs)) == pairs,
{
    assert(pair_up(flatten(pairs)) =~= pairs);
}

/// An entry of an indication with a 7-bit parameter number reads back as
/// written.
pub proof fn lemma_entry_roundtrip(entry: (u8, Result<u8, X3ParamError>))
    requires
        entry.0 <= 0x7f,
    ensures
        decode_entry(encode_entry(entry).0, encode_entry(entry).1) == entry,
{
    let p = entry.0;
    assert(p <= 0x7f ==> p & 0x80 == 0 && (p | 0x80) & 0x80 != 0 && (p | 0x80) & 0x7f == p)
        by (bit_vector);
}

/// Every message that can be written reads back as itself.
pub proof fn lemma_pad_message_roundtrip(message: X29PadMessageView)
    requires
        message.encodable(),
    ensures
        spec_decode(message.spec_encode()) == Some(message),
{
    let bytes = message.spec_encode();
    let pairs = message.pairs();
    lemma_pair_up_flatten(pairs);
    assert(bytes.skip(1) =~= flatten(pairs));
    match message {
        X29PadMessageView::SetParams(request) => {},
        X29PadMessageView::SetRead(request) => {},
        X29PadMessageView::Read(request) => {
            assert(pairs.map_values(|p: (u8, u8)| p.0) =~= request);
        },
        X29PadMessageView::Indicate(response) => {
            assert forall|i: int| 0 <= i < response.len() implies pairs.map_values(
                |p: (u8, u8)| decode_entry(p.0, p.1),
            )[i] == response[i] by {
                lemma_entry_roundtrip(response[i]);
            }
            assert(pairs.map_values(|p: (u8, u8)| decode_entry(p.0, p.1)) =~= response);
        },
        X29PadMessageView::ClearInvitation => {
            assert(flatten(pairs).len() == 0);
        },
    }
}

impl X29PadMessage {
    /// Whether every parameter number of the message takes 7 bits.
    pub fn is_encodable(&self) -> (encodable: bool)
        ensures
            encodable == self@.encodable(),
    {
        match self {
            X29PadMessage::SetParams(request) => is_request_in_range(request.as_slice()),
            X29PadMessage::SetRead(request) => is_request_in_range(request.as_slice()),
            X29PadMessage::Read(request) => {
                let mut i: usize = 0;
                while i < request.len()
                    invariant
                        i <= request.len(),
                        self@ == X29PadMessageView::Read(request@),
                        forall|k: int| 0 <= k < i ==> #[trigger] request@[k] <= 0x7f,
                    decreases request.len() - i,
                {
                    if request[i] > 0x7f {
                        proof {
                            assert(request@[i as int] > 0x7f);
                        }
                        return false;
                    }
                    i += 1;
                }
                true
            },
            X29PadMessage::Indicate(response) => {
                let mut i: usize = 0;
                while i < response.len()
                    invariant
                        i <= response.len(),
                        self@ == X29PadMessageView::Indicate(response@),
                        forall|k: int| 0 <= k < i ==> (#[trigger] response@[k]).0 <= 0x7f,
                    decreases response.len() - i,
                {
                    if response[i].0 > 0x7f {
                        proof {
                            assert(response@[i as int].0 > 0x7f);
                        }
                        return false;
                    }
                    i += 1;
                }
                true
            },
            X29PadMessage::ClearInvitation => true,
        }
    }

    /// Appends the encoding to `buf` and returns its length.
    pub fn encode(&self, buf: &mut BytesMut) -> (n: usize)
        requires
            self@.encodable(),
            bytes_mut_seq(*old(buf)).len() + self@.spec_encode().len() <= isize::MAX,
        ensures
            bytes_mut_seq(*final(buf)) == bytes_mut_seq(*old(buf)) + self@.spec_encode(),
            n == self@.spec_encode().len(),
    {
        let ghost start = bytes_mut_seq(*buf);
        match self {
            X29PadMessage::SetParams(request) => {
                bytes_mut_put_u8(buf, CODE_SET);
                let len = encode_params_request(request.as_slice(), buf);
                proof {
                    assert(bytes_mut_seq(*buf) =~= start + self@.spec_encode());
                }
                1 + len
            },
            X29PadMessage::Read(request) => {
                bytes_mut_put_u8(buf, CODE_READ);
                let mut pairs: Vec<(u8, u8)> = Vec::new();
                let mut i: usize = 0;
                while i < request.len()
                    invariant
                        i <= request.len(),
                        pairs@ == request@.take(i as int).map_values(|p: u8| (p, 0u8)),
                    decreases request.len() - i,
                {
                    pairs.push((request[i], 0));
                    proof {
                        assert(request@.take(i as int + 1) =~= request@.take(i as int).push(
                            request@[i as int],
                        ));
                        assert(pairs@ =~= request@.take(i as int + 1).map_values(
                            |p: u8| (p, 0u8),
                        ));
                    }
                    i += 1;
                }
                proof {
                    assert(request@.take(request.len() as int) =~= request@);
                }
                let len = encode_params_request(pairs.as_slice(), buf);
                proof {
                    assert(bytes_mut_seq(*buf) =~= start + self@.spec_encode());
                }
                1 + len
            },
            X29PadMessage::SetRead(request) => {
                bytes_mut_put_u8(buf, CODE_SET_READ);
                let len = encode_params_request(request.as_slice(), buf);
                proof {
                    assert(bytes_mut_seq(*buf) =~= start + self@.spec_encode());
                }
                1 + len
            },
            X29PadMessage::Indicate(response) => {
                bytes_mut_put_u8(buf, CODE_INDICATE);
                let len = encode_params_response(response.as_slice(), buf);
                proof {
                    assert(bytes_mut_seq(*buf) =~= start + self@.spec_encode());
                }
                1 + len
            },
            X29PadMessage::ClearInvitation => {
                bytes_mut_put_u8(buf, CODE_CLEAR_INVITATION);
                proof {
                    assert(bytes_mut_seq(*buf) =~= start + self@.spec_encode());
                }
                1
            },
        }
    }

    /// Reads a message. Succeeds exactly on the bytes that stand for one.
    pub fn decode(buf: Bytes) -> (result: Result<X29PadMessage, String>)
        ensures
            match spec_decode(bytes_seq(buf)) {
                Some(message) => result is Ok && result->Ok_0@ == message,
                None => result is Err && result->Err_0@ == spec_decode_error(bytes_seq(buf)),
            },
    {
        let mut rest = buf;
        let ghost all = bytes_seq(buf);
        if bytes_len(&rest) < 1 {
            return Err("message too short: 0".to_owned());
        }
        let code: u8 = bytes_get_u8(&mut rest);
        let ghost body = bytes_seq(rest);
        proof {
            assert(body == all.skip(1));
        }
        if code == CODE_SET {
            match decode_params_request(rest) {
                Ok(request) => Ok(X29PadMessage::SetParams(request)),
                Err(err) => Err(err),
            }
        } else if code == CODE_READ {
            match decode_params_request(rest) {
                Ok(request) => {
                    let mut params: Vec<u8> = Vec::new();
                    let mut i: usize = 0;
                    while i < request.len()
                        invariant
                            i <= request.len(),
                            all.len() > 0,
                            all[0] == CODE_READ,
                            body == all.skip(1),
                            body.len() % 2 == 0,
                            all == bytes_seq(buf),
                            request@ == pair_up(body),
                            forall|k: int| 0 <= k < i ==> (#[trigger] request@[k]).1 == 0,
                            params@ == request@.take(i as int).map_values(|p: (u8, u8)| p.0),
                        decreases request.len() - i,
                    {
                        if request[i].1 != 0 {
                            proof {
                                assert(pair_up(body)[i as int].1 != 0);
                            }
                            return Err("invalid request in read message".to_owned());
                        }
                        params.push(request[i].0);
                        proof {
                            assert(request@.take(i as int + 1) =~= request@.take(i as int).push(
                                request@[i as int],
                            ));
                            assert(params@ =~= request@.take(i as int + 1).map_values(
                                |p: (u8, u8)| p.0,
                            ));
                        }
                        i += 1;
                    }
                    proof {
                        assert(request@.take(request.len() as int) =~= request@);
                    }
                    Ok(X29PadMessage::Read(params))
                },
                Err(err) => Err(err),
            }
        } else if code == CODE_SET_READ {
            match decode_params_request(rest) {
                Ok(request) => Ok(X29PadMessage::SetRead(request)),
                Err(err) => Err(err),
            }
        } else if code == CODE_INDICATE {
            match decode_params_response(rest) {
                Ok(response) => Ok(X29PadMessage::Indicate(response)),
                Err(err) => Err(err),
            }
        } else if code == CODE_CLEAR_INVITATION {
            let extra: usize = bytes_len(&rest);
            if extra > 0 {
                let mut message = "message too long: ".to_owned();
                push_decimal(&mut message, extra);
                return Err(message);
            }
            Ok(X29PadMessage::ClearInvitation)
        } else {
            let mut message = "unrecognized X.29 PAD message: ".to_owned();
            push_decimal(&mut message, code as usize);
            Err(message)
        }
    }
}

fn is_request_in_range(request: &[(u8, u8)]) -> (in_range: bool)
    ensures
        in_range == request_in_range(request@),
{
    let mut i: usize = 0;
    while i < request.len()
        invariant
            i <= request.len(),
            forall|k: int| 0 <= k < i ==> (#[trigger] request@[k]).0 <= 0x7f,
        decreases request.len() - i,
    {
        if request[i].0 > 0x7f {
            proof {
                assert(request@[i as int].0 > 0x7f);
            }
            return false;
        }
        i += 1;
    }
    true
}

/// Appends the pairs of a request to `buf`; returns the number of bytes.
fn encode_params_request(request: &[(u8, u8)], buf: &mut BytesMut) -> (n: usize)
    requires
        bytes_mut_seq(*old(buf)).len() + 2 * request@.len() <= isize::MAX,
    ensures
        bytes_mut_seq(*final(buf)) == bytes_mut_seq(*old(buf)) + flatten(request@),
        n == 2 * request@.len(),
{
    let ghost start = bytes_mut_seq(*buf);
    let mut i: usize = 0;
    proof {
        assert(bytes_mut_seq(*buf) =~= start + flatten(request@.take(0)));
    }
    while i < request.len()
        invariant
            i <= request.len(),
            start.len() + 2 * request@.len() <= isize::MAX,
            bytes_mut_seq(*buf) == start + flatten(request@.take(i as int)),
        decreases request.len() - i,
    {
        let (param, value) = request[i];
        bytes_mut_put_u8(buf, param);
        bytes_mut_put_u8(buf, value);
        proof {
            assert(start + flatten(request@.take(i as int + 1)) =~= (start + flatten(
                request@.take(i as int),
            )).push(param).push(value));
        }
        i += 1;
    }
    proof {
        assert(request@.take(request.len() as int) =~= request@);
    }
    2 * request.len()
}

/// Reads the pairs of a request. Fails on an odd number of bytes.
fn decode_params_request(buf: Bytes) -> (result: Result<Vec<(u8, u8)>, String>)
    ensures
        result is Ok <==> bytes_seq(buf).len() % 2 == 0,
        result is Ok ==> result->Ok_0@ == pair_up(bytes_seq(buf)),
        result is Err ==> result->Err_0@ == "expected even number of bytes"@,
{
    let mut buf = buf;
    let ghost all = bytes_seq(buf);
    let len: usize = bytes_len(&buf);
    if len % 2 != 0 {
        return Err("expected even number of bytes".to_owned());
    }
    let mut request: Vec<(u8, u8)> = Vec::new();
    let mut i: usize = 0;
    proof {
        assert(all.skip(0) =~= all);
    }
    while i < len / 2
        invariant
            i <= len / 2,
            len == all.len(),
            len % 2 == 0,
            bytes_seq(buf) == all.skip(2 * i),
            request@ == pair_up(all).take(i as int),
        decreases len / 2 - i,
    {
        let param: u8 = bytes_get_u8(&mut buf);
        let value: u8 = bytes_get_u8(&mut buf);
        request.push((param, value));
        proof {
            assert(bytes_seq(buf) =~= all.skip(2 * (i + 1)));
            assert(request@ =~= pair_up(all).take(i as int + 1));
        }
        i += 1;
    }
    proof {
        assert(pair_up(all).take((len / 2) as int) =~= pair_up(all));
    }
    Ok(request)
}

/// Appends the entries of an indication to `buf`; returns the number of
/// bytes.
fn encode_params_response(response: &[(u8, Result<u8, X3ParamError>)], buf: &mut BytesMut) -> (n:
    usize)
    requires
        bytes_mut_seq(*old(buf)).len() + 2 * response@.len() <= isize::MAX,
    ensures
        bytes_mut_seq(*final(buf)) == bytes_mut_seq(*old(buf)) + flatten(
            response@.map_values(|e: (u8, Result<u8, X3ParamError>)| encode_entry(e)),
        ),
        n == 2 * response@.len(),
{
    let ghost start = bytes_mut_seq(*buf);
    let ghost pairs = response@.map_values(|e: (u8, Result<u8, X3ParamError>)| encode_entry(e));
    let mut i: usize = 0;
    proof {
        assert(bytes_mut_seq(*buf) =~= start + flatten(pairs.take(0)));
    }
    while i < response.len()
        invariant
            i <= response.len(),
            start.len() + 2 * response@.len() <= isize::MAX,
            pairs == response@.map_values(|e: (u8, Result<u8, X3ParamError>)| encode_entry(e)),
            bytes_mut_seq(*buf) == start + flatten(pairs.take(i as int)),
        decreases response.len() - i,
    {
        let (param, value) = response[i];
        let (first, second): (u8, u8) = match value {
            Ok(value) => (param, value),
            Err(X3ParamError::Unsupported) => (param | 0x80, 1),
            Err(X3ParamError::InvalidValue) => (param | 0x80, 2),
            Err(X3ParamError::Other) => (param | 0x80, 0),
        };
        bytes_mut_put_u8(buf, first);
        bytes_mut_put_u8(buf, second);
        proof {
            assert((first, second) == pairs[i as int]);
            assert(start + flatten(pairs.take(i as int + 1)) =~= (start + flatten(
                pairs.take(i as int),
            )).push(first).push(second));
        }
        i += 1;
    }
    proof {
        assert(pairs.take(response.len() as int) =~= pairs);
    }
    2 * response.len()
}

/// Reads the entries of an indication. Fails on an odd number of bytes.
fn decode_params_response(buf: Bytes) -> (result: Result<
    Vec<(u8, Result<u8, X3ParamError>)>,
    String,
>)
    ensures
        result is Ok <==> bytes_seq(buf).len() % 2 == 0,
        result is Ok ==> result->Ok_0@ == pair_up(bytes_seq(buf)).map_values(
            |p: (u8, u8)| decode_entry(p.0, p.1),
        ),
        result is Err ==> result->Err_0@ == "expected even number of bytes"@,
{
    let mut buf = buf;
    let ghost all = bytes_seq(buf);
    let ghost entries = pair_up(all).map_values(|p: (u8, u8)| decode_entry(p.0, p.1));
    let len: usize = bytes_len(&buf);
    if len % 2 != 0 {
        return Err("expected even number of bytes".to_owned());
    }
    let mut response: Vec<(u8, Result<u8, X3ParamError>)> = Vec::new();
    let mut i: usize = 0;
    proof {
        assert(all.skip(0) =~= all);
    }
    while i < len / 2
        invariant
            i <= len / 2,
            len == all.len(),
            len % 2 == 0,
            bytes_seq(buf) == all.skip(2 * i),
            entries == pair_up(all).map_values(|p: (u8, u8)| decode_entry(p.0, p.1)),
            response@ == entries.take(i as int),
        decreases len / 2 - i,
    {
        let param: u8 = bytes_get_u8(&mut buf);
        let value: u8 = bytes_get_u8(&mut buf);
        let entry: (u8, Result<u8, X3ParamError>) = if param & 0x80 == 0 {
            (param, Ok(value))
        } else {
            let err = if value == 1 {
                X3ParamError::Unsupported
            } else if value == 2 {
                X3ParamError::InvalidValue
            } else {
                X3ParamError::Other
            };
            (param & 0x7f, Err(err))
        };
        response.push(entry);
        proof {
            assert(bytes_seq(buf) =~= all.skip(2 * (i + 1)));
            assert(entry == entries[i as int]);
            assert(response@ =~= entries.take(i as int + 1));
        }
        i += 1;
    }
    proof {
        assert(entries.take((len / 2) as int) =~= entries);
    }
    Ok(response)
}

/// Reads call user data from an arbitrary buffer; see
/// [`X29CallUserData::decode`].
pub fn call_user_data_decode(buf: Bytes) -> (result: Result<X29CallUserData, String>)
    ensures
        result is Ok <==> bytes_seq(buf).len() >= 4,
        result is Ok ==> result->Ok_0.spec_protocol() == bytes_seq(buf).take(4)
            && result->Ok_0.spec_call_data() == bytes_seq(buf).skip(4),
        result is Err ==> result->Err_0@ == "call user data too short: "@ + spec_decimal(
            bytes_seq(buf).len(),
        ),
{
    X29CallUserData::decode(buf)
}

/// Reads a PAD message from an arbitrary buffer; see
/// [`X29PadMessage::decode`].
pub fn pad_message_decode(buf: Bytes) -> (result: Result<X29PadMessage, String>)
    ensures
        match spec_decode(bytes_seq(buf)) {
            Some(message) => result is Ok && result->Ok_0@ == message,
            None => result is Err && result->Err_0@ == spec_decode_error(bytes_seq(buf)),
        },
{
    X29PadMessage::decode(buf)
}

} // verus!
