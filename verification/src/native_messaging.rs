use vstd::prelude::*;

use crate::host_error::{IoErrorKind, NativeHostError};
use crate::platform::native_order_is_little;

verus! {

/// Largest payload, in bytes, that a native message may carry.
pub const MAX_MESSAGE_BYTES: usize = 1048576;

/// The four bytes of `v`, least significant first when `little`, else most
/// significant first.
pub open spec fn spec_u32_bytes(v: u32, little: bool) -> Seq<u8> {
    let b0 = (v % 256) as u8;
    let b1 = ((v / 256) % 256) as u8;
    let b2 = ((v / 65536) % 256) as u8;
    let b3 = (v / 16777216) as u8;
    if little {
        seq![b0, b1, b2, b3]
    } else {
        seq![b3, b2, b1, b0]
    }
}

/// The number that four bytes stand for in the given byte order.
pub open spec fn spec_u32_value(b: Seq<u8>, little: bool) -> int
    recommends
        b.len() == 4,
{
    if little {
        b[0] + 256 * b[1] + 65536 * b[2] + 16777216 * b[3]
    } else {
        b[3] + 256 * b[2] + 65536 * b[1] + 16777216 * b[0]
    }
}

/// The frame of a payload: its length in four bytes, then the payload.
pub open spec fn spec_frame(payload: Seq<u8>, little: bool) -> Seq<u8>
    recommends
        payload.len() <= u32::MAX,
{
    spec_u32_bytes(payload.len() as u32, little) + payload
}

/// The outcome of reading one message from the start of `input`.
pub enum ReadOutcome {
    /// The input holds no byte at all.
    Empty,
    /// Fewer than four header bytes.
    PartialHeader,
    /// The announced length is over the limit.
    TooLarge(int),
    /// The payload is shorter than announced.
    TruncatedPayload,
    /// A whole message.
    Message(Seq<u8>),
}

/// What reading one message from the start of `input` gives: nothing when the
/// input is empty, an end-of-input error when the header or the payload is cut
/// short, a size error when the announced length exceeds the limit, and
/// otherwise the announced number of bytes after the header.
pub open spec fn spec_read_message(input: Seq<u8>, little: bool) -> ReadOutcome {
    if input.len() == 0 {
        ReadOutcome::Empty
    } else if input.len() < 4 {
        ReadOutcome::PartialHeader
    } else {
        let length = spec_u32_value(input.subrange(0, 4), little);
        if length > MAX_MESSAGE_BYTES {
            ReadOutcome::TooLarge(length)
        } else if input.len() < 4 + length {
            ReadOutcome::TruncatedPayload
        } else {
            ReadOutcome::Message(input.subrange(4, 4 + length))
        }
    }
}

/// Whether a result of reading agrees with the outcome of reading.
pub open spec fn read_result_matches(
    r: Result<Option<Vec<u8>>, NativeHostError>,
    outcome: ReadOutcome,
) -> bool {
    match outcome {
        ReadOutcome::Empty => r == Ok::<Option<Vec<u8>>, NativeHostError>(None),
        ReadOutcome::PartialHeader => r == Err::<Option<Vec<u8>>, NativeHostError>(
            NativeHostError::Io(IoErrorKind::UnexpectedEof),
        ),
        ReadOutcome::TooLarge(length) => r == Err::<Option<Vec<u8>>, NativeHostError>(
            NativeHostError::MessageTooLarge { length: length as usize, limit: MAX_MESSAGE_BYTES },
        ),
        ReadOutcome::TruncatedPayload => r == Err::<Option<Vec<u8>>, NativeHostError>(
            NativeHostError::Io(IoErrorKind::UnexpectedEof),
        ),
        ReadOutcome::Message(m) => r matches Ok(Some(p)) && p@ == m,
    }
}

/// The length that a four-byte header announces, read in the given order.
pub fn decode_length_header(header: &[u8], little: bool) -> (r: u32)
    requires
        header@.len() == 4,
    ensures
        r == spec_u32_value(header@, little),
{
    let b0 = header[0] as u32;
    let b1 = header[1] as u32;
    let b2 = header[2] as u32;
    let b3 = header[3] as u32;
    if little {
        b0 + 256 * b1 + 65536 * b2 + 16777216 * b3
    } else {
        b3 + 256 * b2 + 65536 * b1 + 16777216 * b0
    }
}

/// The four bytes of `v` in the given order.
pub fn encode_length_header(v: u32, little: bool) -> (r: Vec<u8>)
    ensures
        r@ == spec_u32_bytes(v, little),
{
    let b0 = (v % 256) as u8;
    let b1 = ((v / 256) % 256) as u8;
    let b2 = ((v / 65536) % 256) as u8;
    let b3 = (v / 16777216) as u8;
    let mut r: Vec<u8> = Vec::new();
    if little {
        r.push(b0);
        r.push(b1);
        r.push(b2);
        r.push(b3);
    } else {
        r.push(b3);
        r.push(b2);
        r.push(b1);
        r.push(b0);
    }
    r
}

/// Reads the first message of `input`, with lengths in the given byte order.
pub fn read_native_message_in_order(input: &[u8], little: bool) -> (r: Result<
    Option<Vec<u8>>,
    NativeHostError,
>)
    ensures
        read_result_matches(r, spec_read_message(input@, little)),
{
    if input.len() == 0 {
        return Ok(None);
    }
    if input.len() < 4 {
        return Err(NativeHostError::Io(IoErrorKind::UnexpectedEof));
    }
    let header = slice_prefix(input, 4);
    let length = decode_length_header(header.as_slice(), little) as usize;
    assert(header@ =~= input@.subrange(0, 4));
    if length > MAX_MESSAGE_BYTES {
        return Err(NativeHostError::MessageTooLarge { length, limit: MAX_MESSAGE_BYTES });
    }
    if input.len() - 4 < length {
        return Err(NativeHostError::Io(IoErrorKind::UnexpectedEof));
    }
    let mut payload: Vec<u8> = Vec::new();
    let mut i: usize = 4;
    while i < 4 + length
        invariant
            length <= MAX_MESSAGE_BYTES,
            4 <= i <= 4 + length <= input@.len(),
            payload@ =~= input@.subrange(4, i as int),
        decreases 4 + length - i,
    {
        payload.push(input[i]);
        i = i + 1;
    }
    Ok(Some(payload))
}

/// The first `n` bytes of `input`.
fn slice_prefix(input: &[u8], n: usize) -> (r: Vec<u8>)
    requires
        n <= input@.len(),
    ensures
        r@ == input@.subrange(0, n as int),
{
    let mut r: Vec<u8> = Vec::new();
    let mut i: usize = 0;
    while i < n
        invariant
            i <= n <= input@.len(),
            r@ =~= input@.subrange(0, i as int),
        decreases n - i,
    {
        r.push(input[i]);
        i = i + 1;
    }
    r
}

/// Reads the first message of `input`, with lengths in the machine's byte
/// order: `None` for an empty input, an end-of-input error when the header or
/// the payload is cut short, a size error above `MAX_MESSAGE_BYTES`.
pub fn read_native_message(input: &[u8]) -> (r: Result<Option<Vec<u8>>, NativeHostError>)
    ensures
        read_result_matches(r, spec_read_message(input@, crate::platform::native_little())),
{
    let little = native_order_is_little();
    read_native_message_in_order(input, little)
}

/// What the header bytes read so far announce, with lengths in the given
/// byte order: none at all ends the input (`None`); part of a header is an
/// end-of-input error; a whole one gives the payload length, which must not
/// exceed `MAX_MESSAGE_BYTES`.
pub open spec fn header_outcome(header: Seq<u8>, little: bool, r: Result<Option<usize>, NativeHostError>) -> bool {
    if header.len() == 0 {
        r == Ok::<Option<usize>, NativeHostError>(None)
    } else if header.len() < 4 {
        r == Err::<Option<usize>, NativeHostError>(NativeHostError::Io(IoErrorKind::UnexpectedEof))
    } else if spec_u32_value(header, little) > MAX_MESSAGE_BYTES {
        r == Err::<Option<usize>, NativeHostError>(
            NativeHostError::MessageTooLarge {
                length: spec_u32_value(header, little) as usize,
                limit: MAX_MESSAGE_BYTES,
            },
        )
    } else {
        r == Ok::<Option<usize>, NativeHostError>(Some(spec_u32_value(header, little) as usize))
    }
}

/// The payload length that the header bytes read from a stream announce, in
/// the machine's byte order (see [`header_outcome`]).
pub fn announced_length(header: &[u8]) -> (r: Result<Option<usize>, NativeHostError>)
    requires
        header@.len() <= 4,
    ensures
        header_outcome(header@, crate::platform::native_little(), r),
{
    let little = native_order_is_little();
    let r = if header.len() == 0 {
        Ok(None)
    } else if header.len() < 4 {
        Err(NativeHostError::Io(IoErrorKind::UnexpectedEof))
    } else {
        let length = decode_length_header(header, little) as usize;
        if length > MAX_MESSAGE_BYTES {
            Err(NativeHostError::MessageTooLarge { length, limit: MAX_MESSAGE_BYTES })
        } else {
            Ok(Some(length))
        }
    };
    assert(header_outcome(header@, little, r));
    r
}

/// Appends the frame of `payload` to `output`, with its length in the given
/// byte order; refuses a payload whose length does not fit in four bytes.
pub fn write_native_message_in_order(output: &mut Vec<u8>, payload: &[u8], little: bool) -> (r:
    Result<(), NativeHostError>)
    ensures
        payload@.len() > u32::MAX ==> r == Err::<(), NativeHostError>(
            NativeHostError::ResponseTooLarge,
        ) && final(output)@ == old(output)@,
        payload@.len() <= u32::MAX ==> r is Ok && final(output)@ == old(output)@ + spec_frame(
            payload@,
            little,
        ),
{
    if payload.len() > u32::MAX as usize {
        return Err(NativeHostError::ResponseTooLarge);
    }
    let header = encode_length_header(payload.len() as u32, little);
    let ghost start = output@;
    let mut i: usize = 0;
    while i < 4
        invariant
            header@.len() == 4,
            0 <= i <= 4,
            output@ =~= start + header@.subrange(0, i as int),
        decreases 4 - i,
    {
        output.push(header[i]);
        i = i + 1;
    }
    let mut j: usize = 0;
    while j < payload.len()
        invariant
            header@.len() == 4,
            0 <= j <= payload@.len(),
            output@ =~= start + header@ + payload@.subrange(0, j as int),
        decreases payload@.len() - j,
    {
        output.push(payload[j]);
        j = j + 1;
    }
    Ok(())
}

/// Appends the frame of `payload` to `output`, with its length in the
/// machine's byte order; refuses a payload whose length does not fit in four
/// bytes.
pub fn write_native_message(output: &mut Vec<u8>, payload: &[u8]) -> (r: Result<
    (),
    NativeHostError,
>)
    ensures
        payload@.len() > u32::MAX ==> r == Err::<(), NativeHostError>(
            NativeHostError::ResponseTooLarge,
        ) && final(output)@ == old(output)@,
        payload@.len() <= u32::MAX ==> r is Ok && final(output)@ == old(output)@ + spec_frame(
            payload@,
            crate::platform::native_little(),
        ),
{
    let little = native_order_is_little();
    write_native_message_in_order(output, payload, little)
}

/// The length header survives encoding and decoding in one byte order.
pub proof fn lemma_length_header_roundtrip(v: u32, little: bool)
    ensures
        spec_u32_bytes(v, little).len() == 4,
        spec_u32_value(spec_u32_bytes(v, little), little) == v,
{
}

/// A payload that is framed and then read back, in one byte order, is the
/// same payload, provided it is within the size limit.
pub proof fn law_frame_roundtrip(payload: Seq<u8>, little: bool)
    requires
        payload.len() <= MAX_MESSAGE_BYTES,
    ensures
        spec_read_message(spec_frame(payload, little), little) == ReadOutcome::Message(payload),
{
    lemma_length_header_roundtrip(payload.len() as u32, little);
    let f = spec_frame(payload, little);
    assert(f.subrange(0, 4) =~= spec_u32_bytes(payload.len() as u32, little));
    assert(f.subrange(4, 4 + payload.len() as int) =~= payload);
}

/// What `write_native_message` writes, `read_native_message` reads back:
/// both use the machine's byte order.
pub proof fn law_written_message_reads_back(payload: Seq<u8>)
    requires
        payload.len() <= MAX_MESSAGE_BYTES,
    ensures
        spec_read_message(
            spec_frame(payload, crate::platform::native_little()),
            crate::platform::native_little(),
        ) == ReadOutcome::Message(payload),
{
    law_frame_roundtrip(payload, crate::platform::native_little());
}

} // verus!
