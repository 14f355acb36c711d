//! Length-prefixed framing: each frame is a 4-byte big-endian length, then that many bytes.

use vstd::prelude::*;
use crate::error::SyncError;

verus! {

/// The four big-endian bytes of `n`, which is below 2^32.
pub open spec fn be_bytes(n: nat) -> Seq<u8> {
    seq![
        (n / 0x100_0000) as u8,
        ((n / 0x1_0000) % 0x100) as u8,
        ((n / 0x100) % 0x100) as u8,
        (n % 0x100) as u8,
    ]
}

/// The number that four big-endian bytes encode.
pub open spec fn be_value(b: Seq<u8>) -> nat {
    (b[0] * 0x100_0000 + b[1] * 0x1_0000 + b[2] * 0x100 + b[3]) as nat
}

/// The length field written in front of a payload of `len` bytes: the length
/// taken modulo 2^32, as a 32-bit cast leaves it.
pub open spec fn header_for(len: nat) -> Seq<u8> {
    be_bytes(len % 0x1_0000_0000)
}

/// A whole frame for a payload.
pub open spec fn frame_for(payload: Seq<u8>) -> Seq<u8> {
    header_for(payload.len()) + payload
}

/// What reading a length field yields against a payload limit: the length, or
/// `PayloadTooLarge` when it exceeds the limit.
pub open spec fn length_check(header: Seq<u8>, max_payload: usize) -> Result<usize, SyncError> {
    let n = be_value(header);
    if n <= max_payload {
        Ok(n as usize)
    } else {
        Err(SyncError::PayloadTooLarge { size: n as usize, max: max_payload })
    }
}

/// Encodes the length field for a payload of `len` bytes.
pub fn frame_header(len: usize) -> (h: [u8; 4])
    ensures
        h@ == header_for(len as nat),
{
    let wide: u64 = len as u64;
    let l: u32 = wide as u32;
    assert(l == wide % 0x1_0000_0000) by (bit_vector)
        requires
            l == wide as u32,
    ;
    let b0: u8 = (l >> 24u32) as u8;
    let b1: u8 = (l >> 16u32) as u8;
    let b2: u8 = (l >> 8u32) as u8;
    let b3: u8 = l as u8;
    assert(b0 == l / 0x100_0000) by (bit_vector)
        requires
            b0 == (l >> 24u32) as u8,
    ;
    assert(b1 == (l / 0x1_0000) % 0x100) by (bit_vector)
        requires
            b1 == (l >> 16u32) as u8,
    ;
    assert(b2 == (l / 0x100) % 0x100) by (bit_vector)
        requires
            b2 == (l >> 8u32) as u8,
    ;
    assert(b3 == l % 0x100) by (bit_vector)
        requires
            b3 == l as u8,
    ;
    let h = [b0, b1, b2, b3];
    assert(h@ =~= header_for(len as nat));
    h
}

/// Decodes a length field.
pub fn frame_length(header: [u8; 4]) -> (n: u32)
    ensures
        n as nat == be_value(header@),
{
    let b0 = header[0];
    let b1 = header[1];
    let b2 = header[2];
    let b3 = header[3];
    let n: u32 = ((b0 as u32) << 24u32) | ((b1 as u32) << 16u32) | ((b2 as u32) << 8u32) | (b3 as u32);
    assert(n == b0 * 0x100_0000 + b1 * 0x1_0000 + b2 * 0x100 + b3) by (bit_vector)
        requires
            n == ((b0 as u32) << 24u32) | ((b1 as u32) << 16u32) | ((b2 as u32) << 8u32) | (b3 as u32),
    ;
    n
}

/// Reads a length field and checks it against the payload limit: a frame
/// longer than `max_payload` is refused with `PayloadTooLarge`.
pub fn check_frame_length(header: [u8; 4], max_payload: usize) -> (r: Result<usize, SyncError>)
    ensures
        r == length_check(header@, max_payload),
{
    let n = frame_length(header);
    let len = n as usize;
    if len > max_payload {
        Err(SyncError::PayloadTooLarge { size: len, max: max_payload })
    } else {
        Ok(len)
    }
}

/// Why reading a frame failed: the stream failed, or the frame is longer than
/// the payload limit.
#[derive(Debug)]
pub enum ReadFailure {
    Io(std::io::Error),
    PayloadTooLarge { size: usize, max: usize },
}

/// The error that a read failure is reported as.
pub open spec fn failure_error(f: ReadFailure) -> SyncError {
    match f {
        ReadFailure::Io(e) => SyncError::Io(e),
        ReadFailure::PayloadTooLarge { size, max } => SyncError::PayloadTooLarge { size, max },
    }
}

/// What reading a length field yields against a payload limit, with the
/// failure kept as a read failure.
pub open spec fn header_check(header: Seq<u8>, max_payload: usize) -> Result<usize, ReadFailure> {
    let n = be_value(header);
    if n <= max_payload {
        Ok(n as usize)
    } else {
        Err(ReadFailure::PayloadTooLarge { size: n as usize, max: max_payload })
    }
}

impl ReadFailure {
    /// The error that this read failure is reported as.
    pub fn into_error(self) -> (e: SyncError)
        ensures
            e == failure_error(self),
    {
        match self {
            ReadFailure::Io(e) => SyncError::Io(e),
            ReadFailure::PayloadTooLarge { size, max } => SyncError::PayloadTooLarge { size, max },
        }
    }
}

impl From<std::io::Error> for ReadFailure {
    fn from(e: std::io::Error) -> (r: Self) {
        ReadFailure::Io(e)
    }
}

impl vstd::std_specs::convert::FromSpecImpl<std::io::Error> for ReadFailure {
    open spec fn obeys_from_spec() -> bool {
        true
    }

    open spec fn from_spec(e: std::io::Error) -> Self {
        ReadFailure::Io(e)
    }
}

/// Reads a length field and checks it against the payload limit, reporting a
/// frame longer than `max_payload` as a read failure.
pub fn check_frame_header(header: [u8; 4], max_payload: usize) -> (r: Result<usize, ReadFailure>)
    ensures
        r == header_check(header@, max_payload),
{
    let n = frame_length(header);
    let len = n as usize;
    if len > max_payload {
        Err(ReadFailure::PayloadTooLarge { size: len, max: max_payload })
    } else {
        Ok(len)
    }
}

/// Builds a whole frame: the length field followed by the payload.
pub fn encode_frame(payload: &[u8]) -> (f: Vec<u8>)
    ensures
        f@ == frame_for(payload@),
{
    let h = frame_header(payload.len());
    let mut f: Vec<u8> = Vec::new();
    f.push(h[0]);
    f.push(h[1]);
    f.push(h[2]);
    f.push(h[3]);
    assert(f@ =~= h@);
    let mut i: usize = 0;
    while i < payload.len()
        invariant
            i <= payload@.len(),
            f@ =~= h@ + payload@.subrange(0, i as int),
            h@ == header_for(payload@.len()),
        decreases payload@.len() - i,
    {
        f.push(payload[i]);
        i = i + 1;
    }
    assert(payload@.subrange(0, payload@.len() as int) =~= payload@);
    f
}

/// Law: the length field encodes every length below 2^32 exactly, so a reader
/// gets back the length that the writer wrote.
pub proof fn law_header_round_trip(len: nat)
    requires
        len < 0x1_0000_0000,
    ensures
        be_value(header_for(len)) == len,
{
}

/// Law: decoding then encoding four bytes gives the same four bytes.
pub proof fn law_bytes_round_trip(b: Seq<u8>)
    requires
        b.len() == 4,
    ensures
        header_for(be_value(b)) =~= b,
{
    let (b0, b1, b2, b3) = (b[0], b[1], b[2], b[3]);
    assert({
        let v = b0 * 0x100_0000 + b1 * 0x1_0000 + b2 * 0x100 + b3;
        &&& v < 0x1_0000_0000
        &&& (v / 0x100_0000) as u8 == b0
        &&& ((v / 0x1_0000) % 0x100) as u8 == b1
        &&& ((v / 0x100) % 0x100) as u8 == b2
        &&& (v % 0x100) as u8 == b3
    }) by (bit_vector);
}

/// Law: a reader with limit `max_payload` accepts the frame of any payload of
/// at most `max_payload` bytes (and below 2^32), and finds exactly that payload
/// behind the length field; a longer payload is refused with `PayloadTooLarge`.
pub proof fn law_frame_round_trip(payload: Seq<u8>, max_payload: usize)
    requires
        payload.len() < 0x1_0000_0000,
    ensures
        frame_for(payload).subrange(0, 4) =~= header_for(payload.len()),
        frame_for(payload).subrange(4, frame_for(payload).len() as int) =~= payload,
        payload.len() <= max_payload ==> length_check(frame_for(payload).subrange(0, 4), max_payload)
            == Ok::<usize, SyncError>(payload.len() as usize),
        payload.len() > max_payload ==> length_check(frame_for(payload).subrange(0, 4), max_payload)
            == Err::<usize, SyncError>(SyncError::PayloadTooLarge { size: payload.len() as usize, max: max_payload }),
{
    law_header_round_trip(payload.len());
    assert(frame_for(payload).subrange(0, 4) =~= header_for(payload.len()));
}

} // verus!
