//! Fields of the X.25 wire format that several packet types share: the
//! address block and the facility block.

use crate::x121::{x121_valid, X121Addr};
use crate::x25::facility::X25Facility;
use vstd::prelude::*;
use vstd::slice::slice_subrange;

verus! {

/// Facility code of the packet size facility.
pub const FACILITY_PACKET_SIZE: u8 = 0x42;

/// Facility code of the window size facility.
pub const FACILITY_WINDOW_SIZE: u8 = 0x43;

/// Most facilities that fit in one block: three bytes each, 255 in all.
pub const MAX_FACILITIES: usize = 85;

/// The binary logarithm that stands for a packet size on the wire.
pub open spec fn size_exponent(size: usize) -> Option<u8> {
    if size == 16 {
        Some(4u8)
    } else if size == 32 {
        Some(5u8)
    } else if size == 64 {
        Some(6u8)
    } else if size == 128 {
        Some(7u8)
    } else if size == 256 {
        Some(8u8)
    } else if size == 512 {
        Some(9u8)
    } else if size == 1024 {
        Some(10u8)
    } else if size == 2048 {
        Some(11u8)
    } else if size == 4096 {
        Some(12u8)
    } else {
        None
    }
}

/// The packet size that a binary logarithm on the wire stands for.
pub open spec fn exponent_size(exponent: u8) -> Option<usize> {
    if exponent == 4 {
        Some(16usize)
    } else if exponent == 5 {
        Some(32usize)
    } else if exponent == 6 {
        Some(64usize)
    } else if exponent == 7 {
        Some(128usize)
    } else if exponent == 8 {
        Some(256usize)
    } else if exponent == 9 {
        Some(512usize)
    } else if exponent == 10 {
        Some(1024usize)
    } else if exponent == 11 {
        Some(2048usize)
    } else if exponent == 12 {
        Some(4096usize)
    } else {
        None
    }
}

pub fn exponent_of(size: usize) -> (exponent: Option<u8>)
    ensures
        exponent == size_exponent(size),
{
    if size == 16 {
        Some(4)
    } else if size == 32 {
        Some(5)
    } else if size == 64 {
        Some(6)
    } else if size == 128 {
        Some(7)
    } else if size == 256 {
        Some(8)
    } else if size == 512 {
        Some(9)
    } else if size == 1024 {
        Some(10)
    } else if size == 2048 {
        Some(11)
    } else if size == 4096 {
        Some(12)
    } else {
        None
    }
}

pub fn size_of_exponent(exponent: u8) -> (size: Option<usize>)
    ensures
        size == exponent_size(exponent),
{
    if exponent == 4 {
        Some(16)
    } else if exponent == 5 {
        Some(32)
    } else if exponent == 6 {
        Some(64)
    } else if exponent == 7 {
        Some(128)
    } else if exponent == 8 {
        Some(256)
    } else if exponent == 9 {
        Some(512)
    } else if exponent == 10 {
        Some(1024)
    } else if exponent == 11 {
        Some(2048)
    } else if exponent == 12 {
        Some(4096)
    } else {
        None
    }
}

/// Whether a facility can be written: packet sizes are powers of two from
/// 16 to 4096.
pub open spec fn facility_valid(facility: X25Facility) -> bool {
    match facility {
        X25Facility::PacketSize { from_called, from_calling } => size_exponent(from_called)
            is Some && size_exponent(from_calling) is Some,
        X25Facility::WindowSize { .. } => true,
    }
}

/// Whether the facilities fit in one block and each can be written.
pub open spec fn facilities_valid(facilities: Seq<X25Facility>) -> bool {
    &&& facilities.len() <= MAX_FACILITIES
    &&& forall|i: int| 0 <= i < facilities.len() ==> facility_valid(#[trigger] facilities[i])
}

/// The three bytes of a facility: its code and its two values.
pub open spec fn encode_facility(facility: X25Facility) -> Seq<u8> {
    match facility {
        X25Facility::PacketSize { from_called, from_calling } => seq![
            FACILITY_PACKET_SIZE,
            size_exponent(from_called)->0,
            size_exponent(from_calling)->0,
        ],
        X25Facility::WindowSize { from_called, from_calling } => seq![
            FACILITY_WINDOW_SIZE,
            from_called,
            from_calling,
        ],
    }
}

/// The facilities written one after the other.
pub open spec fn encode_facility_list(facilities: Seq<X25Facility>) -> Seq<u8>
    decreases facilities.len(),
{
    if facilities.len() == 0 {
        Seq::empty()
    } else {
        encode_facility(facilities[0]) + encode_facility_list(facilities.skip(1))
    }
}

/// The facility block: a length byte and the facilities.
pub open spec fn encode_facility_block(facilities: Seq<X25Facility>) -> Seq<u8> {
    seq![(3 * facilities.len()) as u8] + encode_facility_list(facilities)
}

/// The length of the parameter field of the facility that `bytes` start
/// with, or `None` where the bytes end before it is known. The two high
/// bits of the code give the class: one, two or three bytes, or a length
/// byte and as many bytes as it says.
pub open spec fn facility_parameter_len(bytes: Seq<u8>) -> Option<int> {
    if bytes.len() == 0 {
        None
    } else if bytes[0] / 64 < 3 {
        Some(bytes[0] / 64 + 1)
    } else if bytes.len() < 2 {
        None
    } else {
        Some(1 + bytes[1])
    }
}

/// The facilities that `bytes` hold, or `None` where a facility overruns
/// the bytes or a packet size is not a logarithm from 4 to 12. Facilities
/// of other codes are passed over.
pub open spec fn parse_facility_list(bytes: Seq<u8>) -> Option<Seq<X25Facility>>
    decreases bytes.len(),
{
    if bytes.len() == 0 {
        Some(Seq::empty())
    } else {
        match facility_parameter_len(bytes) {
            None => None,
            Some(len) => {
                if bytes.len() < 1 + len {
                    None
                } else {
                    match (parse_facility(bytes), parse_facility_list(bytes.skip(1 + len))) {
                        (Some(first), Some(rest)) => Some(first + rest),
                        _ => None,
                    }
                }
            },
        }
    }
}

/// What the facility at the front of `bytes` stands for: one facility, none
/// for a code that is passed over, or `None` for a bad packet size.
pub open spec fn parse_facility(bytes: Seq<u8>) -> Option<Seq<X25Facility>>
    recommends
        bytes.len() >= 3,
{
    if bytes[0] == FACILITY_PACKET_SIZE {
        match (exponent_size(bytes[1]), exponent_size(bytes[2])) {
            (Some(from_called), Some(from_calling)) => Some(
                seq![X25Facility::PacketSize { from_called, from_calling }],
            ),
            _ => None,
        }
    } else if bytes[0] == FACILITY_WINDOW_SIZE {
        Some(seq![X25Facility::WindowSize { from_called: bytes[1], from_calling: bytes[2] }])
    } else {
        Some(Seq::empty())
    }
}

/// The facilities of the block that `bytes` start with and the bytes behind
/// the block, or `None` where the block overruns the bytes or does not
/// parse.
pub open spec fn parse_facility_block(bytes: Seq<u8>) -> Option<(Seq<X25Facility>, Seq<u8>)> {
    if bytes.len() < 1 || bytes.len() < 1 + bytes[0] {
        None
    } else {
        match parse_facility_list(bytes.subrange(1, 1 + bytes[0])) {
            Some(facilities) => Some((facilities, bytes.skip(1 + bytes[0]))),
            None => None,
        }
    }
}

pub proof fn lemma_facility_list_len(facilities: Seq<X25Facility>)
    ensures
        encode_facility_list(facilities).len() == 3 * facilities.len(),
    decreases facilities.len(),
{
    if facilities.len() > 0 {
        lemma_facility_list_len(facilities.skip(1));
    }
}

/// Facilities that can be written read back as written.
pub proof fn lemma_facility_list_roundtrip(facilities: Seq<X25Facility>)
    requires
        forall|i: int| 0 <= i < facilities.len() ==> facility_valid(#[trigger] facilities[i]),
    ensures
        parse_facility_list(encode_facility_list(facilities)) == Some(facilities),
    decreases facilities.len(),
{
    let bytes = encode_facility_list(facilities);
    lemma_facility_list_len(facilities);
    if facilities.len() > 0 {
        let tail = facilities.skip(1);
        assert forall|i: int| 0 <= i < tail.len() implies facility_valid(#[trigger] tail[i]) by {
            assert(tail[i] == facilities[i + 1]);
        }
        lemma_facility_list_roundtrip(tail);
        lemma_facility_list_len(tail);
        let first = facilities[0];
        assert(facility_valid(first));
        assert(bytes.skip(3) =~= encode_facility_list(tail));
        assert(bytes[0] == encode_facility(first)[0]);
        assert(bytes[1] == encode_facility(first)[1]);
        assert(bytes[2] == encode_facility(first)[2]);
        assert(parse_facility(bytes) == Some(seq![first]));
        assert(seq![first] + tail =~= facilities);
    }
}

/// A facility block that can be written reads back as written, and what
/// follows it is left over.
pub proof fn lemma_facility_block_roundtrip(facilities: Seq<X25Facility>, rest: Seq<u8>)
    requires
        facilities_valid(facilities),
    ensures
        parse_facility_block(encode_facility_block(facilities) + rest) == Some(
            (facilities, rest),
        ),
{
    let bytes = encode_facility_block(facilities) + rest;
    lemma_facility_list_len(facilities);
    lemma_facility_list_roundtrip(facilities);
    assert(bytes[0] == 3 * facilities.len());
    assert(bytes.subrange(1, 1 + bytes[0]) =~= encode_facility_list(facilities));
    assert(bytes.skip(1 + bytes[0]) =~= rest);
}

/// Whether the facilities fit in one block and each can be written.
pub fn are_facilities_valid(facilities: &[X25Facility]) -> (valid: bool)
    ensures
        valid == facilities_valid(facilities@),
{
    if facilities.len() > MAX_FACILITIES {
        return false;
    }
    let mut k: usize = 0;
    while k < facilities.len()
        invariant
            k <= facilities.len(),
            forall|j: int| 0 <= j < k ==> facility_valid(#[trigger] facilities@[j]),
        decreases facilities.len() - k,
    {
        if let X25Facility::PacketSize { from_called, from_calling } = facilities[k] {
            if exponent_of(from_called).is_none() || exponent_of(from_calling).is_none() {
                proof {
                    assert(!facility_valid(facilities@[k as int]));
                }
                return false;
            }
        }
        k += 1;
    }
    true
}

/// Appends the facility block to `out`.
pub fn put_facility_block(out: &mut Vec<u8>, facilities: &[X25Facility])
    requires
        facilities_valid(facilities@),
    ensures
        final(out)@ == old(out)@ + encode_facility_block(facilities@),
{
    let ghost length = seq![(3 * facilities@.len()) as u8];
    out.push((3 * facilities.len()) as u8);
    let mut k: usize = 0;
    proof {
        assert(facilities@.take(0) =~= Seq::empty());
        assert(out@ =~= old(out)@ + length + encode_facility_list(facilities@.take(0)));
    }
    while k < facilities.len()
        invariant
            k <= facilities.len(),
            facilities_valid(facilities@),
            length == seq![(3 * facilities@.len()) as u8],
            out@ == old(out)@ + length + encode_facility_list(facilities@.take(k as int)),
        decreases facilities.len() - k,
    {
        let ghost done = facilities@.take(k as int);
        let ghost facility = facilities@[k as int];
        proof {
            assert(facility_valid(facility));
            assert(facilities@.take(k as int + 1) =~= done.push(facility));
            lemma_facility_list_push(done, facility);
        }
        match facilities[k] {
            X25Facility::PacketSize { from_called, from_calling } => {
                out.push(FACILITY_PACKET_SIZE);
                out.push(exponent_of(from_called).unwrap());
                out.push(exponent_of(from_calling).unwrap());
            },
            X25Facility::WindowSize { from_called, from_calling } => {
                out.push(FACILITY_WINDOW_SIZE);
                out.push(from_called);
                out.push(from_calling);
            },
        }
        proof {
            assert(out@ =~= old(out)@ + length + encode_facility_list(done) + encode_facility(
                facility,
            ));
        }
        k += 1;
    }
    proof {
        assert(facilities@.take(facilities.len() as int) =~= facilities@);
        assert(out@ =~= old(out)@ + encode_facility_block(facilities@));
    }
}

/// Writing one more facility appends its bytes.
pub proof fn lemma_facility_list_push(facilities: Seq<X25Facility>, facility: X25Facility)
    ensures
        encode_facility_list(facilities.push(facility)) == encode_facility_list(facilities)
            + encode_facility(facility),
    decreases facilities.len(),
{
    let extended = facilities.push(facility);
    if facilities.len() == 0 {
        assert(extended[0] == facility);
        assert(extended.skip(1) =~= Seq::empty());
        assert(encode_facility_list(extended.skip(1)) =~= Seq::empty());
        assert(encode_facility_list(extended) =~= encode_facility(facility));
        assert(encode_facility_list(facilities) + encode_facility(facility) =~= encode_facility(
            facility,
        ));
    } else {
        assert(extended[0] == facilities[0]);
        assert(extended.skip(1) =~= facilities.skip(1).push(facility));
        lemma_facility_list_push(facilities.skip(1), facility);
        assert(encode_facility_list(extended) =~= encode_facility_list(facilities)
            + encode_facility(facility));
    }
}

/// Reads the facility block that starts at `start`. Returns the facilities
/// and where the block ends.
pub fn get_facility_block(data: &[u8], start: usize) -> (result: Option<(Vec<X25Facility>, usize)>)
    requires
        start <= data@.len(),
    ensures
        match parse_facility_block(data@.skip(start as int)) {
            Some((facilities, rest)) => {
                &&& result is Some
                &&& (result->0).0@ == facilities
                &&& start <= (result->0).1 <= data@.len()
                &&& data@.skip((result->0).1 as int) == rest
            },
            None => result is None,
        },
{
    let ghost bytes = data@.skip(start as int);
    if data.len() - start < 1 {
        return None;
    }
    let len: usize = data[start] as usize;
    if data.len() - start - 1 < len {
        return None;
    }
    let end: usize = start + 1 + len;
    let field = slice_subrange(data, start + 1, end);
    proof {
        assert(bytes[0] == data@[start as int]);
        assert(field@ =~= bytes.subrange(1, 1 + bytes[0]));
        assert(data@.skip(end as int) =~= bytes.skip(1 + bytes[0]));
    }
    match get_facility_list(field) {
        Some(facilities) => Some((facilities, end)),
        None => None,
    }
}

/// Reads the facilities that `field` holds.
fn get_facility_list(field: &[u8]) -> (result: Option<Vec<X25Facility>>)
    ensures
        match parse_facility_list(field@) {
            Some(facilities) => result is Some && result->0@ == facilities,
            None => result is None,
        },
{
    let mut facilities: Vec<X25Facility> = Vec::new();
    let mut pos: usize = 0;
    proof {
        assert(field@.skip(0) =~= field@);
        assert(facilities@ + Seq::<X25Facility>::empty() =~= facilities@);
    }
    while pos < field.len()
        invariant
            pos <= field.len(),
            parse_facility_list(field@) == match parse_facility_list(field@.skip(pos as int)) {
                Some(rest) => Some(facilities@ + rest),
                None => None,
            },
        decreases field.len() - pos,
    {
        let ghost bytes = field@.skip(pos as int);
        let ghost found = facilities@;
        let code: u8 = field[pos];
        proof {
            assert(bytes[0] == code);
        }
        let remaining: usize = field.len() - pos;
        let class: u8 = code / 64;
        let len: usize = if class < 3 {
            (class + 1) as usize
        } else {
            if remaining < 2 {
                return None;
            }
            proof {
                assert(bytes[1] == field@[pos as int + 1]);
            }
            1 + field[pos + 1] as usize
        };
        if remaining < 1 + len {
            return None;
        }
        proof {
            assert(facility_parameter_len(bytes) == Some(len as int));
            assert(bytes.skip(1 + len) =~= field@.skip(pos as int + 1 + len));
        }
        if code == FACILITY_PACKET_SIZE {
            proof {
                assert(bytes[1] == field@[pos as int + 1]);
                assert(bytes[2] == field@[pos as int + 2]);
            }
            match (size_of_exponent(field[pos + 1]), size_of_exponent(field[pos + 2])) {
                (Some(from_called), Some(from_calling)) => {
                    facilities.push(X25Facility::PacketSize { from_called, from_calling });
                },
                _ => {
                    return None;
                },
            }
        } else if code == FACILITY_WINDOW_SIZE {
            proof {
                assert(bytes[1] == field@[pos as int + 1]);
                assert(bytes[2] == field@[pos as int + 2]);
            }
            facilities.push(
                X25Facility::WindowSize {
                    from_called: field[pos + 1],
                    from_calling: field[pos + 2],
                },
            );
        }
        proof {
            let first = parse_facility(bytes)->0;
            assert(facilities@ =~= found + first);
            match parse_facility_list(bytes.skip(1 + len)) {
                Some(rest) => {
                    assert(found + (first + rest) =~= facilities@ + rest);
                },
                None => {},
            }
        }
        pos = pos + 1 + len;
    }
    Some(facilities)
}

/// The address block: a byte with the two lengths, then the digits of the
/// called and of the calling address, two to a byte, the last byte filled
/// up with zero.
pub open spec fn encode_addr_block(called: Seq<u8>, calling: Seq<u8>) -> Seq<u8> {
    let digits = called + calling;
    seq![(calling.len() * 16 + called.len()) as u8] + Seq::new(
        ((digits.len() + 1) / 2) as nat,
        |i: int|
            (digits[2 * i] * 16 + if 2 * i + 1 < digits.len() {
                digits[2 * i + 1]
            } else {
                0u8
            }) as u8,
    )
}

/// The digit at `index` of the digits packed in `bytes` from `bytes[1]` on.
pub open spec fn packed_digit(bytes: Seq<u8>, index: int) -> u8 {
    if index % 2 == 0 {
        bytes[1 + index / 2] / 16
    } else {
        bytes[1 + index / 2] % 16
    }
}

/// The called and the calling address of the block that `bytes` start with
/// and the bytes behind the block, or `None` where the block overruns the
/// bytes or holds a digit above 9.
pub open spec fn parse_addr_block(bytes: Seq<u8>) -> Option<(Seq<u8>, Seq<u8>, Seq<u8>)> {
    if bytes.len() < 1 {
        None
    } else {
        let called_len = (bytes[0] % 16) as int;
        let calling_len = (bytes[0] / 16) as int;
        let total = called_len + calling_len;
        let used = 1 + (total + 1) / 2;
        let digits = Seq::new(total as nat, |i: int| packed_digit(bytes, i));
        if bytes.len() < used {
            None
        } else if !x121_valid(digits.take(called_len)) || !x121_valid(digits.skip(called_len)) {
            None
        } else {
            Some((digits.take(called_len), digits.skip(called_len), bytes.skip(used)))
        }
    }
}

/// Two digits packed in a byte come apart again.
pub proof fn lemma_packed_pair(high: u8, low: u8)
    requires
        high < 16,
        low < 16,
    ensures
        (high * 16 + low) / 16 == high,
        (high * 16 + low) % 16 == low,
        high * 16 + low < 256,
{
}

/// An address block reads back as written, and what follows it is left
/// over.
#[verifier::rlimit(50)]
pub proof fn lemma_addr_block_roundtrip(called: Seq<u8>, calling: Seq<u8>, rest: Seq<u8>)
    requires
        x121_valid(called),
        x121_valid(calling),
    ensures
        parse_addr_block(encode_addr_block(called, calling) + rest) == Some(
            (called, calling, rest),
        ),
{
    let block = encode_addr_block(called, calling);
    let bytes = block + rest;
    let digits = called + calling;
    let total = digits.len() as int;
    assert(forall|i: int| 0 <= i < total ==> #[trigger] digits[i] <= 9);
    lemma_packed_pair(calling.len() as u8, called.len() as u8);
    assert(bytes[0] == calling.len() * 16 + called.len());
    assert(block.len() == 1 + (total + 1) / 2);
    let read = Seq::new(total as nat, |i: int| packed_digit(bytes, i));
    assert forall|i: int| 0 <= i < total implies read[i] == digits[i] by {
        let j = i / 2;
        let byte = bytes[1 + j];
        assert(byte == block[1 + j]);
        let high = digits[2 * j];
        let low = if 2 * j + 1 < total {
            digits[2 * j + 1]
        } else {
            0u8
        };
        assert(high <= 9);
        assert(low <= 9);
        lemma_packed_pair(high, low);
        assert(byte == high * 16 + low);
    }
    assert(read =~= digits);
    assert(digits.take(called.len() as int) =~= called);
    assert(digits.skip(called.len() as int) =~= calling);
    assert(bytes.skip(1 + (total + 1) / 2) =~= rest);
}

/// Appends the address block to `out`.
pub fn put_addr_block(out: &mut Vec<u8>, called: &X121Addr, calling: &X121Addr)
    ensures
        final(out)@ == old(out)@ + encode_addr_block(called@, calling@),
{
    let called_len: usize = called.len();
    let calling_len: usize = calling.len();
    let total: usize = called_len + calling_len;
    let ghost digits = called@ + calling@;
    let ghost block = encode_addr_block(called@, calling@);
    out.push((calling_len * 16 + called_len) as u8);
    let mut i: usize = 0;
    proof {
        assert(out@ =~= old(out)@ + block.take(1));
    }
    while i < (total + 1) / 2
        invariant
            i <= (total + 1) / 2,
            total == digits.len(),
            total <= 30,
            called_len == called@.len(),
            calling_len == calling@.len(),
            digits == called@ + calling@,
            x121_valid(called@),
            x121_valid(calling@),
            block == encode_addr_block(called@, calling@),
            out@ == old(out)@ + block.take(1 + i as int),
        decreases (total + 1) / 2 - i,
    {
        let high: u8 = digit_at(called, calling, 2 * i);
        let low: u8 = if 2 * i + 1 < total {
            digit_at(called, calling, 2 * i + 1)
        } else {
            0
        };
        out.push(high * 16 + low);
        proof {
            assert(block[1 + i as int] == high * 16 + low);
            assert(out@ =~= old(out)@ + block.take(2 + i as int));
        }
        i += 1;
    }
    proof {
        assert(block.take(1 + (total as int + 1) / 2) =~= block);
    }
}

/// The digit at `index` of the called address followed by the calling one.
fn digit_at(called: &X121Addr, calling: &X121Addr, index: usize) -> (d: u8)
    requires
        index < called@.len() + calling@.len(),
    ensures
        d == (called@ + calling@)[index as int],
        d <= 9,
{
    if index < called.len() {
        called.digit(index)
    } else {
        calling.digit(index - called.len())
    }
}

/// Reads the address block that starts at `start`. Returns the called and
/// the calling address and where the block ends.
pub fn get_addr_block(data: &[u8], start: usize) -> (result: Option<(X121Addr, X121Addr, usize)>)
    requires
        start <= data@.len(),
    ensures
        match parse_addr_block(data@.skip(start as int)) {
            Some((called, calling, rest)) => {
                &&& result is Some
                &&& (result->0).0@ == called
                &&& (result->0).1@ == calling
                &&& start <= (result->0).2 <= data@.len()
                &&& data@.skip((result->0).2 as int) == rest
            },
            None => result is None,
        },
{
    let ghost bytes = data@.skip(start as int);
    if data.len() - start < 1 {
        return None;
    }
    let lengths: u8 = data[start];
    proof {
        assert(bytes[0] == lengths);
    }
    let called_len: usize = (lengths % 16) as usize;
    let calling_len: usize = (lengths / 16) as usize;
    let total: usize = called_len + calling_len;
    let used: usize = 1 + (total + 1) / 2;
    if data.len() - start < used {
        return None;
    }
    let ghost all = Seq::new(total as nat, |i: int| packed_digit(bytes, i));
    let mut digits: Vec<u8> = Vec::new();
    let mut i: usize = 0;
    while i < total
        invariant
            i <= total,
            total <= 30,
            used == 1 + (total + 1) / 2,
            start <= data.len(),
            used <= data.len() - start,
            bytes == data@.skip(start as int),
            all == Seq::new(total as nat, |i: int| packed_digit(bytes, i)),
            digits@ == all.take(i as int),
        decreases total - i,
    {
        let byte: u8 = data[start + 1 + i / 2];
        proof {
            assert(bytes[1 + i as int / 2] == byte);
        }
        let digit: u8 = if i % 2 == 0 {
            byte / 16
        } else {
            byte % 16
        };
        digits.push(digit);
        proof {
            assert(digits@ =~= all.take(i as int + 1));
        }
        i += 1;
    }
    proof {
        assert(all.take(total as int) =~= all);
    }
    let called = X121Addr::from_digits(slice_subrange(digits.as_slice(), 0, called_len));
    let calling = X121Addr::from_digits(slice_subrange(digits.as_slice(), called_len, total));
    proof {
        assert(digits@.subrange(0, called_len as int) =~= all.take(called_len as int));
        assert(digits@.subrange(called_len as int, total as int) =~= all.skip(called_len as int));
        assert(data@.skip((start + used) as int) =~= bytes.skip(used as int));
    }
    match (called, calling) {
        (Some(called), Some(calling)) => Some((called, calling, start + used)),
        _ => None,
    }
}

} // verus!
