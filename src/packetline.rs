//! The packet-line codec: each frame is four lowercase hex digits giving the
//! frame's total length (header included), followed by the payload verbatim.
//! Three reserved lengths stand for the control frames.

use vstd::prelude::*;

verus! {

/// The largest payload that fits in one data frame.
pub const MAX_DATA_LEN: usize = 65516;

/// The largest value of a data frame's length field: header plus payload.
pub const MAX_LINE_LEN: usize = 65520;

/// The length of the hex header of every frame.
pub const HEADER_LEN: usize = 4;

/// A decoded frame.
#[derive(Debug, Clone, PartialEq, Eq)]
pub enum PacketLine {
    /// A data frame and its payload.
    Data(Vec<u8>),
    /// Length field 0: the end of a message.
    Flush,
    /// Length field 1: the end of a section (protocol version 2).
    Delimiter,
    /// Length field 2: the end of a response (protocol version 2).
    ResponseEnd,
}

/// The mathematical value of a frame.
pub enum Frame {
    Data(Seq<u8>),
    Flush,
    Delimiter,
    ResponseEnd,
}

impl View for PacketLine {
    type V = Frame;

    open spec fn view(&self) -> Frame {
        match self {
            PacketLine::Data(p) => Frame::Data(p@),
            PacketLine::Flush => Frame::Flush,
            PacketLine::Delimiter => Frame::Delimiter,
            PacketLine::ResponseEnd => Frame::ResponseEnd,
        }
    }
}

/// Why bytes could not be decoded as a frame.
#[derive(Debug, Clone, Copy, PartialEq, Eq, Structural)]
pub enum DecodeError {
    /// The bytes end before the header or before the payload that it announces.
    NotEnoughData,
    /// One of the four header bytes is not a hex digit.
    HexDecode,
    /// The length field is 3: too short for a data frame, and no control frame.
    InvalidLineLength,
    /// The length field exceeds the largest data frame.
    DataLengthLimitExceeded,
}

/// Why a payload could not be encoded as one frame.
#[derive(Debug, Clone, Copy, PartialEq, Eq, Structural)]
pub enum EncodeError {
    /// The payload is longer than the largest data frame allows.
    DataLengthLimitExceeded,
}

/// The value of a hex digit, either case.
pub open spec fn hex_value(b: u8) -> Option<nat> {
    if 48 <= b <= 57 {
        Some((b - 48) as nat)
    } else if 97 <= b <= 102 {
        Some((b - 87) as nat)
    } else if 65 <= b <= 70 {
        Some((b - 55) as nat)
    } else {
        None
    }
}

/// The lowercase hex digit of a value below 16.
pub open spec fn hex_digit(d: nat) -> u8 {
    if d < 10 {
        (d + 48) as u8
    } else {
        (d + 87) as u8
    }
}

/// Four hex digits, most significant first.
pub open spec fn hex4(n: nat) -> Seq<u8> {
    seq![
        hex_digit(n / 4096),
        hex_digit((n % 4096) / 256),
        hex_digit((n % 256) / 16),
        hex_digit(n % 16),
    ]
}

/// Whether the first four bytes are hex digits.
pub open spec fn has_hex_header(s: Seq<u8>) -> bool {
    s.len() >= 4 && hex_value(s[0]) is Some && hex_value(s[1]) is Some && hex_value(s[2])
        is Some && hex_value(s[3]) is Some
}

/// The number that a hex header gives.
pub open spec fn header_value(s: Seq<u8>) -> nat {
    hex_value(s[0])->0 * 4096 + hex_value(s[1])->0 * 256 + hex_value(s[2])->0 * 16 + hex_value(
        s[3],
    )->0
}

/// The frame that carries `payload`.
pub open spec fn encoded(payload: Seq<u8>) -> Seq<u8> {
    hex4((payload.len() + 4) as nat) + payload
}

/// The four bytes of a control frame with the given length field.
pub open spec fn control_frame(n: nat) -> Seq<u8> {
    hex4(n)
}

/// The frame at the start of `s`, and how many bytes it takes.
pub open spec fn spec_decode(s: Seq<u8>) -> Result<(Frame, nat), DecodeError> {
    if s.len() < 4 {
        Err(DecodeError::NotEnoughData)
    } else if !has_hex_header(s) {
        Err(DecodeError::HexDecode)
    } else {
        let n = header_value(s);
        if n == 0 {
            Ok((Frame::Flush, 4))
        } else if n == 1 {
            Ok((Frame::Delimiter, 4))
        } else if n == 2 {
            Ok((Frame::ResponseEnd, 4))
        } else if n < 4 {
            Err(DecodeError::InvalidLineLength)
        } else if n > MAX_LINE_LEN {
            Err(DecodeError::DataLengthLimitExceeded)
        } else if s.len() < n {
            Err(DecodeError::NotEnoughData)
        } else {
            Ok((Frame::Data(s.subrange(4, n as int)), n))
        }
    }
}

/// What a decode result stands for.
pub open spec fn decode_view(r: Result<(PacketLine, usize), DecodeError>) -> Result<
    (Frame, nat),
    DecodeError,
> {
    match r {
        Ok((line, n)) => Ok((line@, n as nat)),
        Err(e) => Err(e),
    }
}

proof fn lemma_hex_digit(d: nat)
    requires
        d < 16,
    ensures
        hex_value(hex_digit(d)) == Some(d),
{
}

proof fn lemma_digits(x: u32)
    requires
        x < 65536,
    ensures
        x / 4096 < 16,
        (x % 4096) / 256 < 16,
        (x % 256) / 16 < 16,
        (x / 4096) * 4096 + ((x % 4096) / 256) * 256 + ((x % 256) / 16) * 16 + x % 16 == x,
{
    assert((x / 4096) * 4096 + ((x % 4096) / 256) * 256 + ((x % 256) / 16) * 16 + x % 16 == x)
        by (bit_vector)
        requires
            x < 65536u32,
    ;
    assert(x / 4096 < 16 && (x % 4096) / 256 < 16 && (x % 256) / 16 < 16) by (bit_vector)
        requires
            x < 65536u32,
    ;
}

proof fn lemma_hex4(n: nat)
    requires
        n < 65536,
    ensures
        has_hex_header(hex4(n)),
        header_value(hex4(n)) == n,
{
    lemma_digits(n as u32);
    lemma_hex_digit(n / 4096);
    lemma_hex_digit((n % 4096) / 256);
    lemma_hex_digit((n % 256) / 16);
    lemma_hex_digit(n % 16);
}

/// A header followed by anything decodes by the header alone.
proof fn lemma_header_prefix(n: nat, rest: Seq<u8>)
    requires
        n < 65536,
    ensures
        has_hex_header(hex4(n) + rest),
        header_value(hex4(n) + rest) == n,
        (hex4(n) + rest).len() == 4 + rest.len(),
{
    lemma_hex4(n);
    let s = hex4(n) + rest;
    assert(s[0] == hex4(n)[0] && s[1] == hex4(n)[1] && s[2] == hex4(n)[2] && s[3] == hex4(n)[3]);
}

/// Decoding an encoded payload gives the payload back, whatever follows it.
pub proof fn lemma_decode_encoded(payload: Seq<u8>, rest: Seq<u8>)
    requires
        payload.len() <= MAX_DATA_LEN,
    ensures
        spec_decode(encoded(payload) + rest) == Ok::<(Frame, nat), DecodeError>(
            (Frame::Data(payload), (payload.len() + 4) as nat),
        ),
{
    let n = (payload.len() + 4) as nat;
    let s = encoded(payload) + rest;
    assert(s == hex4(n) + (payload + rest));
    lemma_header_prefix(n, payload + rest);
    assert(s.subrange(4, n as int) =~= payload);
}

/// The three control frames decode to their markers with no payload, and an empty
/// data frame decodes to an empty payload: the four are told apart by their length field.
pub proof fn lemma_control_frames(rest: Seq<u8>)
    ensures
        spec_decode(control_frame(0) + rest) == Ok::<(Frame, nat), DecodeError>((Frame::Flush, 4)),
        spec_decode(control_frame(1) + rest) == Ok::<(Frame, nat), DecodeError>(
            (Frame::Delimiter, 4),
        ),
        spec_decode(control_frame(2) + rest) == Ok::<(Frame, nat), DecodeError>(
            (Frame::ResponseEnd, 4),
        ),
        spec_decode(encoded(Seq::empty()) + rest) == Ok::<(Frame, nat), DecodeError>(
            (Frame::Data(Seq::empty()), 4),
        ),
{
    lemma_header_prefix(0, rest);
    lemma_header_prefix(1, rest);
    lemma_header_prefix(2, rest);
    lemma_decode_encoded(Seq::empty(), rest);
}


fn hex_digit_exec(d: u16) -> (r: u8)
    requires
        d < 16,
    ensures
        r == hex_digit(d as nat),
{
    if d < 10 {
        (d + 48) as u8
    } else {
        (d + 87) as u8
    }
}

fn push_hex4(out: &mut Vec<u8>, n: u16)
    ensures
        final(out)@ == old(out)@ + hex4(n as nat),
{
    out.push(hex_digit_exec(n / 4096));
    out.push(hex_digit_exec((n % 4096) / 256));
    out.push(hex_digit_exec((n % 256) / 16));
    out.push(hex_digit_exec(n % 16));
    assert(final(out)@ =~= old(out)@ + hex4(n as nat));
}

/// Appends `src` to `out`.
pub(crate) fn push_all(out: &mut Vec<u8>, src: &[u8])
    ensures
        final(out)@ == old(out)@ + src@,
{
    let mut i: usize = 0;
    while i < src.len()
        invariant
            i <= src@.len(),
            out@ == old(out)@ + src@.subrange(0, i as int),
        decreases src@.len() - i,
    {
        out.push(src[i]);
        i = i + 1;
        assert(out@ =~= old(out)@ + src@.subrange(0, i as int));
    }
    assert(src@.subrange(0, i as int) =~= src@);
}

/// Appends the frame that carries `payload` to `out`.
pub(crate) fn push_encoded(out: &mut Vec<u8>, payload: &[u8])
    requires
        payload@.len() <= MAX_DATA_LEN,
    ensures
        final(out)@ == old(out)@ + encoded(payload@),
{
    push_hex4(out, (payload.len() + 4) as u16);
    push_all(out, payload);
    assert(final(out)@ =~= old(out)@ + encoded(payload@));
}

/// Encodes `payload` as one data frame.
pub fn encode(payload: &[u8]) -> (r: Result<Vec<u8>, EncodeError>)
    ensures
        payload@.len() <= MAX_DATA_LEN ==> (r matches Ok(v) && v@ == encoded(payload@)),
        payload@.len() > MAX_DATA_LEN ==> r == Err::<Vec<u8>, EncodeError>(
            EncodeError::DataLengthLimitExceeded,
        ),
{
    if payload.len() > MAX_DATA_LEN {
        return Err(EncodeError::DataLengthLimitExceeded);
    }
    let mut out: Vec<u8> = Vec::new();
    push_encoded(&mut out, payload);
    Ok(out)
}

/// The flush frame.
pub fn encode_flush() -> (r: Vec<u8>)
    ensures
        r@ == control_frame(0),
{
    let mut out: Vec<u8> = Vec::new();
    push_hex4(&mut out, 0);
    out
}

/// The delimiter frame.
pub fn encode_delimiter() -> (r: Vec<u8>)
    ensures
        r@ == control_frame(1),
{
    let mut out: Vec<u8> = Vec::new();
    push_hex4(&mut out, 1);
    out
}

/// The response-end frame.
pub fn encode_response_end() -> (r: Vec<u8>)
    ensures
        r@ == control_frame(2),
{
    let mut out: Vec<u8> = Vec::new();
    push_hex4(&mut out, 2);
    out
}

fn hex_value_exec(b: u8) -> (r: Option<u16>)
    ensures
        r matches Some(v) ==> hex_value(b) == Some(v as nat),
        r is None ==> hex_value(b) is None,
{
    if 48 <= b && b <= 57 {
        Some((b - 48) as u16)
    } else if 97 <= b && b <= 102 {
        Some((b - 87) as u16)
    } else if 65 <= b && b <= 70 {
        Some((b - 55) as u16)
    } else {
        None
    }
}

/// Decodes the frame that starts at `start` in `data`, and says how many bytes it takes.
pub(crate) fn decode_at(data: &[u8], start: usize) -> (r: Result<(PacketLine, usize), DecodeError>)
    requires
        start <= data@.len(),
    ensures
        decode_view(r) == spec_decode(data@.subrange(start as int, data@.len() as int)),
        r matches Ok((_, n)) ==> start + n <= data@.len(),
{
    let ghost s = data@.subrange(start as int, data@.len() as int);
    if data.len() - start < 4 {
        return Err(DecodeError::NotEnoughData);
    }
    let d0 = hex_value_exec(data[start]);
    let d1 = hex_value_exec(data[start + 1]);
    let d2 = hex_value_exec(data[start + 2]);
    let d3 = hex_value_exec(data[start + 3]);
    assert(s[0] == data@[start as int] && s[1] == data@[start + 1] && s[2] == data@[start + 2]
        && s[3] == data@[start + 3]);
    match (d0, d1, d2, d3) {
        (Some(a), Some(b), Some(c), Some(d)) => {
            let n: usize = (a as usize) * 4096 + (b as usize) * 256 + (c as usize) * 16 + (d as usize);
            assert(n == header_value(s));
            if n == 0 {
                Ok((PacketLine::Flush, 4))
            } else if n == 1 {
                Ok((PacketLine::Delimiter, 4))
            } else if n == 2 {
                Ok((PacketLine::ResponseEnd, 4))
            } else if n < 4 {
                Err(DecodeError::InvalidLineLength)
            } else if n > MAX_LINE_LEN {
                Err(DecodeError::DataLengthLimitExceeded)
            } else if data.len() - start < n {
                Err(DecodeError::NotEnoughData)
            } else {
                let mut payload: Vec<u8> = Vec::new();
                let end: usize = start + n;
                let mut i: usize = start + 4;
                while i < end
                    invariant
                        end == start + n,
                        start + 4 <= i <= end <= data@.len(),
                        payload@ == data@.subrange(start + 4, i as int),
                    decreases end - i,
                {
                    payload.push(data[i]);
                    i = i + 1;
                    assert(payload@ =~= data@.subrange(start + 4, i as int));
                }
                assert(payload@ =~= s.subrange(4, n as int));
                Ok((PacketLine::Data(payload), n))
            }
        },
        _ => Err(DecodeError::HexDecode),
    }
}

/// Decodes the frame at the start of `data`, and says how many bytes it takes.
pub fn decode(data: &[u8]) -> (r: Result<(PacketLine, usize), DecodeError>)
    ensures
        decode_view(r) == spec_decode(data@),
        r matches Ok((_, n)) ==> n <= data@.len(),
{
    assert(data@.subrange(0, data@.len() as int) =~= data@);
    decode_at(data, 0)
}

} // verus!
