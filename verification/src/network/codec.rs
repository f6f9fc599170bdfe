//! Length-prefixed frames: four bytes of length, big endian, and that many bytes of data.

use vstd::prelude::*;

verus! {

/// The largest frame: 100 MiB, room for a batch of 50 000 transactions.
pub const MAX_FRAME_SIZE: u32 = 104_857_600;

/// Why a frame is refused.
#[derive(Clone, Copy, Debug, PartialEq, Eq, Structural)]
pub enum FrameError {
    /// The length is 0.
    Empty,
    /// The length is above [`MAX_FRAME_SIZE`].
    TooLarge { len: u32 },
}

/// The number that four bytes denote, most significant first.
pub open spec fn be_value(b: Seq<u8>) -> int {
    b[0] * 0x1000000 + b[1] * 0x10000 + b[2] * 0x100 + b[3]
}

/// The number that four bytes denote, most significant first.
pub fn be_u32(b: [u8; 4]) -> (v: u32)
    ensures
        v == be_value(b@),
{
    b[0] as u32 * 0x1000000 + b[1] as u32 * 0x10000 + b[2] as u32 * 0x100 + b[3] as u32
}

/// The number of data bytes that a frame header announces.
pub fn frame_len(header: [u8; 4]) -> (r: Result<u32, FrameError>)
    ensures
        r is Ok <==> 1 <= be_value(header@) <= MAX_FRAME_SIZE,
        match r {
            Ok(len) => len == be_value(header@),
            Err(FrameError::Empty) => be_value(header@) == 0,
            Err(FrameError::TooLarge { len }) => len == be_value(header@) && len > MAX_FRAME_SIZE,
        },
{
    let len: u32 = be_u32(header);
    if len == 0 {
        Err(FrameError::Empty)
    } else if len > MAX_FRAME_SIZE {
        Err(FrameError::TooLarge { len })
    } else {
        Ok(len)
    }
}

/// The four bytes that denote a number, most significant first.
pub open spec fn be_bytes(n: int) -> Seq<u8> {
    seq![
        (n / 0x1000000) as u8,
        ((n / 0x10000) % 0x100) as u8,
        ((n / 0x100) % 0x100) as u8,
        (n % 0x100) as u8,
    ]
}

/// The header of a frame of `len` data bytes.
pub fn frame_header(len: u32) -> (header: [u8; 4])
    ensures
        header@ == be_bytes(len as int),
        be_value(header@) == len,
{
    let header = [
        (len / 0x1000000) as u8,
        ((len / 0x10000) % 0x100) as u8,
        ((len / 0x100) % 0x100) as u8,
        (len % 0x100) as u8,
    ];
    assert(header@ =~= be_bytes(len as int));
    header
}

/// A frame that holds `data`.
pub open spec fn frame(data: Seq<u8>) -> Seq<u8> {
    be_bytes(data.len() as int) + data
}

/// What is read from a frame is what was written into it, whatever follows: the first four bytes
/// announce the length of the data, and that many bytes behind them are the data.
pub proof fn law_frame_round_trip(data: Seq<u8>, rest: Seq<u8>)
    requires
        data.len() <= u32::MAX,
    ensures
        ({
            let bytes = frame(data) + rest;
            &&& be_value(bytes.take(4)) == data.len()
            &&& bytes.skip(4).take(be_value(bytes.take(4))) == data
            &&& bytes.skip(4 + be_value(bytes.take(4))) == rest
        }),
{
    let bytes = frame(data) + rest;
    assert(bytes.take(4) =~= be_bytes(data.len() as int));
    assert(bytes.skip(4).take(data.len() as int) =~= data);
    assert(bytes.skip(4 + data.len() as int) =~= rest);
}

/// A number of four bytes has the highest byte first.
pub proof fn law_highest_byte_first(a: u8, b: u8, c: u8, d: u8)
    ensures
        be_value(seq![a, b, c, d]) == a * 16777216 + b * 65536 + c * 256 + d,
        be_bytes(a * 16777216 + b * 65536 + c * 256 + d) == seq![a, b, c, d],
        MAX_FRAME_SIZE == 100 * 1024 * 1024,
{
    let n = a * 16777216 + b * 65536 + c * 256 + d;
    assert(n / 0x1000000 == a);
    assert((n / 0x10000) % 0x100 == b);
    assert((n / 0x100) % 0x100 == c);
    assert(n % 0x100 == d);
    assert(be_bytes(n) =~= seq![a, b, c, d]);
}

} // verus!
