//! The frame codec: pure functions between raw bytes and payloads.
//!
//! A frame is one byte of flags and opcode, a length field in one of three
//! widths, an optional four-byte mask key, and the payload. Clients mask what
//! they send; the server does not. A message never spans frames.

use crate::error::ChatError;
use vstd::prelude::*;

verus! {

/// First byte of every frame the server sends: FIN set, opcode text.
pub const TEXT_FRAME: u8 = 0x81;

/// The opcode by which a peer closes the connection.
pub const OPCODE_CLOSE: u8 = 8;

/// Largest payload length that fits in the first length byte.
pub const SHORT_LENGTH_MAX: u8 = 125;

/// Length byte that announces a 16-bit length.
pub const LENGTH_16: u8 = 126;

/// Length byte that announces a 64-bit length.
pub const LENGTH_64: u8 = 127;

/// What the length byte of a masked frame has on top of its length code.
pub const MASK_BIT: u8 = 128;

/// The number that `bytes` spell, most significant byte first.
pub open spec fn be_value(bytes: Seq<u8>) -> nat
    decreases bytes.len(),
{
    if bytes.len() == 0 {
        0
    } else {
        be_value(bytes.drop_last()) * 256 + bytes.last() as nat
    }
}

/// The `width` low bytes of `n`, most significant byte first.
pub open spec fn be_bytes(n: nat, width: nat) -> Seq<u8>
    decreases width,
{
    if width == 0 {
        Seq::<u8>::empty()
    } else {
        be_bytes(n / 256, (width - 1) as nat).push((n % 256) as u8)
    }
}

/// The opcode of a frame: the low four bits of its first byte.
pub open spec fn opcode_of(data: Seq<u8>) -> nat
    recommends
        data.len() >= 1,
{
    (data[0] % 16) as nat
}

/// The seven-bit length code in the second byte of a frame.
pub open spec fn length_code(data: Seq<u8>) -> nat
    recommends
        data.len() >= 2,
{
    (data[1] % 128) as nat
}

/// The number of bytes that the flags and the length field take: two, and
/// the extended length, if there is one. In a masked frame the key starts
/// there, in an unmasked one the payload.
pub open spec fn header_len(data: Seq<u8>) -> int
    recommends
        data.len() >= 2,
{
    if length_code(data) == LENGTH_16 {
        4
    } else if length_code(data) == LENGTH_64 {
        10
    } else {
        2
    }
}

/// True when `data` holds the whole length field of a frame.
pub open spec fn header_complete(data: Seq<u8>) -> bool {
    data.len() >= 2 && data.len() >= header_len(data)
}

/// The payload length that the header announces.
pub open spec fn payload_len(data: Seq<u8>) -> nat
    recommends
        header_complete(data),
{
    if length_code(data) == LENGTH_16 {
        be_value(data.subrange(2, 4))
    } else if length_code(data) == LENGTH_64 {
        be_value(data.subrange(2, 10))
    } else {
        length_code(data)
    }
}

/// True when `data` holds a whole unmasked frame: header and payload.
pub open spec fn unmasked_complete(data: Seq<u8>) -> bool {
    header_complete(data) && data.len() >= header_len(data) + payload_len(data)
}

/// The payload of an unmasked frame.
pub open spec fn unmasked_payload(data: Seq<u8>) -> Seq<u8>
    recommends
        unmasked_complete(data),
{
    data.subrange(header_len(data), header_len(data) + payload_len(data))
}

/// True when `data` holds a whole masked frame: header, key and payload.
pub open spec fn frame_complete(data: Seq<u8>) -> bool {
    header_complete(data) && data.len() >= header_len(data) + 4 + payload_len(data)
}

/// `payload` with byte `i` combined by exclusive or with `key[i mod 4]`.
pub open spec fn masked(payload: Seq<u8>, key: Seq<u8>) -> Seq<u8>
    recommends
        key.len() == 4,
{
    Seq::new(payload.len(), |i: int| payload[i] ^ key[i % 4])
}

/// The mask key of a frame.
pub open spec fn frame_key(data: Seq<u8>) -> Seq<u8>
    recommends
        frame_complete(data),
{
    data.subrange(header_len(data), header_len(data) + 4)
}

/// The payload of a masked frame, unmasked.
pub open spec fn frame_payload(data: Seq<u8>) -> Seq<u8>
    recommends
        frame_complete(data),
{
    masked(
        data.subrange(header_len(data) + 4, header_len(data) + 4 + payload_len(data)),
        frame_key(data),
    )
}

/// The length field of an unmasked frame with a payload of `n` bytes.
pub open spec fn length_field(n: nat) -> Seq<u8> {
    if n <= SHORT_LENGTH_MAX {
        seq![n as u8]
    } else if n <= 65535 {
        seq![LENGTH_16] + be_bytes(n, 2)
    } else {
        seq![LENGTH_64] + be_bytes(n, 8)
    }
}

/// The unmasked text frame that carries `payload`.
pub open spec fn server_frame(payload: Seq<u8>) -> Seq<u8> {
    seq![TEXT_FRAME] + length_field(payload.len()) + payload
}

/// The masked text frame by which a client sends `payload` under `key`.
pub open spec fn client_frame(payload: Seq<u8>, key: Seq<u8>) -> Seq<u8>
    recommends
        key.len() == 4,
{
    let field = length_field(payload.len());
    seq![TEXT_FRAME] + field.update(0, (field[0] + MASK_BIT) as u8) + key + masked(payload, key)
}

/// Where the header of a frame puts its length and its mask key.
#[derive(Clone, Copy, Debug, PartialEq, Eq, Structural)]
pub struct FrameHeader {
    /// The payload length that the header announces.
    pub payload_len: u64,
    /// The index of the first byte behind the length field: in a masked
    /// frame, of the mask key.
    pub mask_index: usize,
}

proof fn lemma_be_value_2(s: Seq<u8>)
    requires
        s.len() == 2,
    ensures
        be_value(s) == s[0] * 256 + s[1],
{
    reveal_with_fuel(be_value, 3);
}

proof fn lemma_be_value_8(s: Seq<u8>)
    requires
        s.len() == 8,
    ensures
        be_value(s) == s[0] * 0x100_0000_0000_0000 + s[1] * 0x1_0000_0000_0000 + s[2]
            * 0x100_0000_0000 + s[3] * 0x1_0000_0000 + s[4] * 0x100_0000 + s[5] * 0x1_0000
            + s[6] * 0x100 + s[7],
{
    let s7 = s.drop_last();
    let s6 = s7.drop_last();
    let s5 = s6.drop_last();
    let s4 = s5.drop_last();
    let s3 = s4.drop_last();
    let s2 = s3.drop_last();
    let s1 = s2.drop_last();
    assert(be_value(s1) == s[0]) by {
        reveal_with_fuel(be_value, 2);
    }
    assert(be_value(s2) == be_value(s1) * 256 + s[1]);
    assert(be_value(s3) == be_value(s2) * 256 + s[2]);
    assert(be_value(s4) == be_value(s3) * 256 + s[3]);
    assert(be_value(s5) == be_value(s4) * 256 + s[4]);
    assert(be_value(s6) == be_value(s5) * 256 + s[5]);
    assert(be_value(s7) == be_value(s6) * 256 + s[6]);
    assert(be_value(s) == be_value(s7) * 256 + s[7]);
}

proof fn lemma_join_16(hi: u8, lo: u8)
    by (bit_vector)
    ensures
        ((hi as u64) << 8) | (lo as u64) == hi as u64 * 256 + lo as u64,
{
}

proof fn lemma_join_64(b0: u8, b1: u8, b2: u8, b3: u8, b4: u8, b5: u8, b6: u8, b7: u8)
    by (bit_vector)
    ensures
        ((b0 as u64) << 56) | ((b1 as u64) << 48) | ((b2 as u64) << 40) | ((b3 as u64) << 32) | ((
        b4 as u64) << 24) | ((b5 as u64) << 16) | ((b6 as u64) << 8) | (b7 as u64) == b0 as u64
            * 0x100_0000_0000_0000 + b1 as u64 * 0x1_0000_0000_0000 + b2 as u64 * 0x100_0000_0000
            + b3 as u64 * 0x1_0000_0000 + b4 as u64 * 0x100_0000 + b5 as u64 * 0x1_0000 + b6 as u64
            * 0x100 + b7 as u64,
{
}

/// The opcode of the frame that starts `data`, or `None` where `data` is
/// empty.
pub fn frame_opcode(data: &[u8]) -> (opcode: Option<u8>)
    ensures
        opcode is Some <==> data@.len() >= 1,
        opcode matches Some(code) ==> code == opcode_of(data@),
{
    if data.len() == 0 {
        return None;
    }
    let first: u8 = data[0];
    assert(first & 15 == first % 16) by (bit_vector);
    Some(first & 15)
}

/// Reads the length field of the frame that starts `data`.
///
/// Gives `None` when `data` ends inside the length field, and otherwise the
/// announced payload length with the place of the mask key: two bytes in for
/// a length up to 125, four for a 16-bit length, ten for a 64-bit one.
pub fn parse_frame_header(data: &[u8]) -> (header: Option<FrameHeader>)
    ensures
        header is Some <==> header_complete(data@),
        header matches Some(h) ==> h.payload_len == payload_len(data@) && h.mask_index
            == header_len(data@),
{
    if data.len() < 2 {
        return None;
    }
    let second: u8 = data[1];
    let code: u8 = second & 127;
    assert(second & 127 == second % 128) by (bit_vector);
    if code == LENGTH_16 {
        if data.len() < 4 {
            return None;
        }
        let length: u64 = ((data[2] as u64) << 8) | (data[3] as u64);
        proof {
            lemma_join_16(data[2], data[3]);
            lemma_be_value_2(data@.subrange(2, 4));
        }
        Some(FrameHeader { payload_len: length, mask_index: 4 })
    } else if code == LENGTH_64 {
        if data.len() < 10 {
            return None;
        }
        let length: u64 = ((data[2] as u64) << 56) | ((data[3] as u64) << 48) | ((data[4] as u64)
            << 40) | ((data[5] as u64) << 32) | ((data[6] as u64) << 24) | ((data[7] as u64) << 16)
            | ((data[8] as u64) << 8) | (data[9] as u64);
        proof {
            lemma_join_64(
                data[2],
                data[3],
                data[4],
                data[5],
                data[6],
                data[7],
                data[8],
                data[9],
            );
            lemma_be_value_8(data@.subrange(2, 10));
        }
        Some(FrameHeader { payload_len: length, mask_index: 10 })
    } else {
        Some(FrameHeader { payload_len: code as u64, mask_index: 2 })
    }
}

/// Unmasks the payload of the masked frame that starts `data`.
///
/// The frame has to lie in `data` whole: a frame that runs past the end of
/// the buffer is not waited for, it is refused as `FrameIncomplete`.
pub fn decode_frame_payload(data: &[u8]) -> (payload: Result<Vec<u8>, ChatError>)
    ensures
        payload is Ok <==> frame_complete(data@),
        payload matches Ok(bytes) ==> bytes@ == frame_payload(data@),
        payload matches Err(e) ==> e == ChatError::FrameIncomplete,
{
    let header = match parse_frame_header(data) {
        Some(header) => header,
        None => {
            return Err(ChatError::FrameIncomplete);
        },
    };
    let start: usize = header.mask_index + 4;
    if data.len() < start || header.payload_len > (data.len() - start) as u64 {
        return Err(ChatError::FrameIncomplete);
    }
    let length: usize = header.payload_len as usize;
    let key_at: usize = header.mask_index;
    let ghost body = data@.subrange(start as int, start + length);
    let ghost key = frame_key(data@);
    let mut bytes: Vec<u8> = Vec::with_capacity(length);
    let mut i: usize = 0;
    while i < length
        invariant
            i <= length,
            start == key_at + 4,
            start + length <= data@.len() <= usize::MAX,
            body == data@.subrange(start as int, start + length),
            key == data@.subrange(key_at as int, key_at + 4),
            bytes@ == masked(body, key).take(i as int),
        decreases length - i,
    {
        let byte: u8 = data[start + i] ^ data[key_at + i % 4];
        bytes.push(byte);
        i = i + 1;
    }
    Ok(bytes)
}

proof fn lemma_split_16(n: u64)
    by (bit_vector)
    requires
        n <= 65535,
    ensures
        (n >> 8) & 255 == n / 256,
        n & 255 == n % 256,
{
}

proof fn lemma_split_64(n: u64)
    by (bit_vector)
    ensures
        (n >> 56) & 255 == n / 0x100_0000_0000_0000,
        (n >> 48) & 255 == n / 0x1_0000_0000_0000 % 256,
        (n >> 40) & 255 == n / 0x100_0000_0000 % 256,
        (n >> 32) & 255 == n / 0x1_0000_0000 % 256,
        (n >> 24) & 255 == n / 0x100_0000 % 256,
        (n >> 16) & 255 == n / 0x1_0000 % 256,
        (n >> 8) & 255 == n / 0x100 % 256,
        n & 255 == n % 256,
{
}

proof fn lemma_be_bytes_2(n: nat)
    requires
        n <= 65535,
    ensures
        be_bytes(n, 2) == seq![(n / 256) as u8, (n % 256) as u8],
{
    reveal_with_fuel(be_bytes, 3);
}

proof fn lemma_be_bytes_8(n: nat)
    requires
        n <= u64::MAX,
    ensures
        be_bytes(n, 8) == seq![
            (n / 0x100_0000_0000_0000) as u8,
            (n / 0x1_0000_0000_0000 % 256) as u8,
            (n / 0x100_0000_0000 % 256) as u8,
            (n / 0x1_0000_0000 % 256) as u8,
            (n / 0x100_0000 % 256) as u8,
            (n / 0x1_0000 % 256) as u8,
            (n / 0x100 % 256) as u8,
            (n % 256) as u8,
        ],
{
    reveal_with_fuel(be_bytes, 9);
    let n1 = n / 256;
    let n2 = n1 / 256;
    let n3 = n2 / 256;
    let n4 = n3 / 256;
    let n5 = n4 / 256;
    let n6 = n5 / 256;
    let n7 = n6 / 256;
    assert(n1 == n / 0x100);
    assert(n2 == n / 0x1_0000);
    assert(n3 == n / 0x100_0000);
    assert(n4 == n / 0x1_0000_0000);
    assert(n5 == n / 0x100_0000_0000);
    assert(n6 == n / 0x1_0000_0000_0000);
    assert(n7 == n / 0x100_0000_0000_0000);
    assert(be_bytes(n, 8) =~= seq![
        (n / 0x100_0000_0000_0000) as u8,
        (n / 0x1_0000_0000_0000 % 256) as u8,
        (n / 0x100_0000_0000 % 256) as u8,
        (n / 0x1_0000_0000 % 256) as u8,
        (n / 0x100_0000 % 256) as u8,
        (n / 0x1_0000 % 256) as u8,
        (n / 0x100 % 256) as u8,
        (n % 256) as u8,
    ]);
}

/// The length field for `length` bytes of payload, pushed onto `frame`, with
/// `flag` (0, or the mask bit) added to its first byte.
fn push_length_field(frame: &mut Vec<u8>, length: usize, flag: u8)
    requires
        flag == 0 || flag == MASK_BIT,
    ensures
        final(frame)@ == old(frame)@ + length_field(length as nat).update(
            0,
            (length_field(length as nat)[0] + flag) as u8,
        ),
{
    let wide: u64 = length as u64;
    if length <= SHORT_LENGTH_MAX as usize {
        frame.push(length as u8 + flag);
    } else if length <= 65535 {
        proof {
            lemma_split_16(wide);
            lemma_be_bytes_2(length as nat);
        }
        frame.push(LENGTH_16 + flag);
        frame.push(((wide >> 8) & 255) as u8);
        frame.push((wide & 255) as u8);
    } else {
        proof {
            lemma_split_64(wide);
            lemma_be_bytes_8(length as nat);
        }
        frame.push(LENGTH_64 + flag);
        frame.push(((wide >> 56) & 255) as u8);
        frame.push(((wide >> 48) & 255) as u8);
        frame.push(((wide >> 40) & 255) as u8);
        frame.push(((wide >> 32) & 255) as u8);
        frame.push(((wide >> 24) & 255) as u8);
        frame.push(((wide >> 16) & 255) as u8);
        frame.push(((wide >> 8) & 255) as u8);
        frame.push((wide & 255) as u8);
    }
}

/// Wraps `payload` as one unmasked text frame.
///
/// The length takes one byte up to 125, the marker 126 and two bytes up to
/// 65535, and the marker 127 and eight bytes above that.
pub fn encode_text_frame(payload: &[u8]) -> (frame: Vec<u8>)
    ensures
        frame@ == server_frame(payload@),
{
    let length: usize = payload.len();
    let mut frame: Vec<u8> = Vec::new();
    frame.push(TEXT_FRAME);
    push_length_field(&mut frame, length, 0);
    let ghost head = frame@;
    let mut i: usize = 0;
    while i < length
        invariant
            i <= length,
            length == payload@.len(),
            frame@ == head + payload@.take(i as int),
        decreases length - i,
    {
        frame.push(payload[i]);
        i = i + 1;
    }
    frame
}

/// Wraps `payload` as one masked text frame, as a client sends it.
pub fn encode_masked_frame(payload: &[u8], key: &[u8; 4]) -> (frame: Vec<u8>)
    ensures
        frame@ == client_frame(payload@, key@),
{
    let length: usize = payload.len();
    let mut frame: Vec<u8> = Vec::new();
    frame.push(TEXT_FRAME);
    push_length_field(&mut frame, length, MASK_BIT);
    frame.push(key[0]);
    frame.push(key[1]);
    frame.push(key[2]);
    frame.push(key[3]);
    let ghost head = frame@;
    let mut i: usize = 0;
    while i < length
        invariant
            i <= length,
            length == payload@.len(),
            key@.len() == 4,
            frame@ == head + masked(payload@, key@).take(i as int),
        decreases length - i,
    {
        frame.push(payload[i] ^ key[i % 4]);
        i = i + 1;
    }
    frame
}

/// Masks an unmasked text frame under `key`, as a client would send the
/// same payload. `None` where `frame` ends before its payload does.
pub fn mask_as_client_frame(frame: &[u8], key: &[u8; 4]) -> (masked_frame: Option<Vec<u8>>)
    ensures
        masked_frame is Some <==> unmasked_complete(frame@),
        masked_frame matches Some(bytes) ==> bytes@ == client_frame(
            unmasked_payload(frame@),
            key@,
        ),
{
    let header = match parse_frame_header(frame) {
        Some(header) => header,
        None => {
            return None;
        },
    };
    let start: usize = header.mask_index;
    if header.payload_len > (frame.len() - start) as u64 {
        return None;
    }
    let length: usize = header.payload_len as usize;
    let payload = vstd::slice::slice_subrange(frame, start, start + length);
    Some(encode_masked_frame(payload, key))
}

proof fn lemma_xor_twice(a: u8, b: u8)
    by (bit_vector)
    ensures
        (a ^ b) ^ b == a,
{
}

/// Masking twice under one key gives the payload back.
pub proof fn lemma_mask_twice(payload: Seq<u8>, key: Seq<u8>)
    requires
        key.len() == 4,
    ensures
        masked(masked(payload, key), key) == payload,
{
    assert forall|i: int| 0 <= i < payload.len() implies masked(masked(payload, key), key)[i]
        == payload[i] by {
        lemma_xor_twice(payload[i], key[i % 4]);
    }
}

/// True when `n` can be written in `width` bytes.
spec fn fits_in(n: nat, width: nat) -> bool
    decreases width,
{
    if width == 0 {
        n == 0
    } else {
        fits_in(n / 256, (width - 1) as nat)
    }
}

proof fn lemma_be_value_of_be_bytes(n: nat, width: nat)
    requires
        fits_in(n, width),
    ensures
        be_bytes(n, width).len() == width,
        be_value(be_bytes(n, width)) == n,
    decreases width,
{
    if width > 0 {
        let rest = be_bytes(n / 256, (width - 1) as nat);
        lemma_be_value_of_be_bytes(n / 256, (width - 1) as nat);
        assert(be_bytes(n, width).drop_last() =~= rest);
    }
}

proof fn lemma_be_round_trip(n: nat)
    ensures
        n <= 65535 ==> be_value(be_bytes(n, 2)) == n,
        n <= u64::MAX ==> be_value(be_bytes(n, 8)) == n,
{
    if n <= 65535 {
        assert(fits_in(n, 2)) by {
            reveal_with_fuel(fits_in, 3);
        }
        lemma_be_value_of_be_bytes(n, 2);
    }
    if n <= u64::MAX {
        assert(fits_in(n, 8)) by {
            reveal_with_fuel(fits_in, 9);
        }
        lemma_be_value_of_be_bytes(n, 8);
    }
}

/// The header of the frame that the server makes of a payload selects the
/// width that the payload's length calls for and announces that length, and
/// the payload follows it unchanged.
pub proof fn lemma_server_frame_payload(payload: Seq<u8>)
    requires
        payload.len() <= u64::MAX,
    ensures
        header_len(server_frame(payload)) == (if payload.len() <= 125 {
            2int
        } else if payload.len() <= 65535 {
            4int
        } else {
            10int
        }),
        payload_len(server_frame(payload)) == payload.len(),
        unmasked_complete(server_frame(payload)),
        unmasked_payload(server_frame(payload)) == payload,
{
    let n = payload.len();
    let frame = server_frame(payload);
    lemma_be_round_trip(n);
    if n <= 125 {
    } else if n <= 65535 {
        lemma_be_bytes_2(n);
        assert(frame.subrange(2, 4) =~= be_bytes(n, 2));
    } else {
        lemma_be_bytes_8(n);
        assert(frame.subrange(2, 10) =~= be_bytes(n, 8));
    }
}

/// What a client masks and frames, the decoder unmasks and unframes: the
/// length field of the masked frame of any payload selects the width that
/// the payload's length calls for and announces that length, the frame is
/// whole, and its unmasked payload is the payload that went in.
pub proof fn lemma_client_frame_round_trip(payload: Seq<u8>, key: Seq<u8>)
    requires
        key.len() == 4,
        payload.len() <= u64::MAX,
    ensures
        header_len(client_frame(payload, key)) == (if payload.len() <= 125 {
            2int
        } else if payload.len() <= 65535 {
            4int
        } else {
            10int
        }),
        payload_len(client_frame(payload, key)) == payload.len(),
        frame_complete(client_frame(payload, key)),
        client_frame(payload, key).len() == header_len(client_frame(payload, key)) + 4
            + payload.len(),
        frame_key(client_frame(payload, key)) == key,
        frame_payload(client_frame(payload, key)) == payload,
{
    let n = payload.len();
    let frame = client_frame(payload, key);
    lemma_be_round_trip(n);
    if n <= 125 {
    } else if n <= 65535 {
        lemma_be_bytes_2(n);
        assert(frame.subrange(2, 4) =~= be_bytes(n, 2));
    } else {
        lemma_be_bytes_8(n);
        assert(frame.subrange(2, 10) =~= be_bytes(n, 8));
    }
    lemma_mask_twice(payload, key);
}

/// A frame is read from the front of a buffer: what follows a whole frame
/// changes nothing of what is read from it.
pub proof fn lemma_frame_ends_where_it_says(data: Seq<u8>, behind: Seq<u8>)
    requires
        frame_complete(data),
    ensures
        frame_complete(data + behind),
        header_len(data + behind) == header_len(data),
        payload_len(data + behind) == payload_len(data),
        frame_key(data + behind) == frame_key(data),
        frame_payload(data + behind) == frame_payload(data),
{
    let longer = data + behind;
    let at = header_len(data);
    let n = payload_len(data);
    assert(longer[1] == data[1]);
    assert(longer.subrange(2, at) =~= data.subrange(2, at));
    assert(longer.subrange(at, at + 4) =~= data.subrange(at, at + 4));
    assert(longer.subrange(at + 4, at + 4 + n) =~= data.subrange(at + 4, at + 4 + n));
}

proof fn lemma_mask_bit(code: u8)
    by (bit_vector)
    requires
        code <= 127,
    ensures
        code | 128 == code + 128,
{
}

/// The masked frame of a payload is the unmasked one with the mask bit set
/// in its second byte, the key behind its header, and the payload masked.
pub proof fn lemma_client_frame_of_server_frame(payload: Seq<u8>, key: Seq<u8>)
    requires
        key.len() == 4,
        payload.len() <= u64::MAX,
    ensures
        client_frame(payload, key) == server_frame(payload).subrange(
            0,
            header_len(server_frame(payload)),
        ).update(1, server_frame(payload)[1] | MASK_BIT) + key + masked(payload, key),
{
    let frame = server_frame(payload);
    lemma_server_frame_payload(payload);
    if payload.len() > 65535 {
        lemma_be_bytes_8(payload.len());
    } else if payload.len() > 125 {
        lemma_be_bytes_2(payload.len());
    }
    lemma_mask_bit(frame[1]);
    assert(client_frame(payload, key) =~= frame.subrange(0, header_len(frame)).update(
        1,
        frame[1] | MASK_BIT,
    ) + key + masked(payload, key));
}

} // verus!
