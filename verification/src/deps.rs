//! The functions of other crates and of the standard library that this crate calls, each with
//! the contract the rest of the crate relies on.

use rayon::prelude::IntoParallelRefIterator;
use rayon::prelude::ParallelIterator;
use sha2::Digest;
use vstd::prelude::*;
use vstd::utf8::{decode_utf8, valid_utf8};

verus! {

// ---------------------------------------------------------------------------------------------
// hex
// ---------------------------------------------------------------------------------------------

/// The error of `hex::decode`.
#[verifier::external_type_specification]
#[verifier::external_body]
pub struct ExFromHexError(hex::FromHexError);

/// The lower-case hexadecimal digit of `v`, for `v` below 16.
pub open spec fn hex_digit(v: int) -> char {
    if v < 10 {
        ('0' as int + v) as char
    } else {
        ('a' as int + v - 10) as char
    }
}

/// The value of a hexadecimal digit of either case.
pub open spec fn hex_value(c: char) -> Option<int> {
    if '0' <= c && c <= '9' {
        Some(c as int - '0' as int)
    } else if 'a' <= c && c <= 'f' {
        Some(c as int - 'a' as int + 10)
    } else if 'A' <= c && c <= 'F' {
        Some(c as int - 'A' as int + 10)
    } else {
        None
    }
}

/// Two lower-case digits per byte, high digit first.
pub open spec fn hex_text(data: Seq<u8>) -> Seq<char> {
    Seq::new(
        2 * data.len(),
        |i: int|
            if i % 2 == 0 {
                hex_digit(data[i / 2] as int / 16)
            } else {
                hex_digit(data[i / 2] as int % 16)
            },
    )
}

/// An even number of hexadecimal digits and nothing else.
pub open spec fn is_hex_text(text: Seq<char>) -> bool {
    &&& text.len() % 2 == 0
    &&& forall|i: int| 0 <= i < text.len() ==> hex_value(#[trigger] text[i]) is Some
}

/// The bytes that a hexadecimal text stands for.
pub open spec fn hex_bytes(text: Seq<char>) -> Seq<u8> {
    Seq::new(
        text.len() / 2,
        |i: int| (hex_value(text[2 * i])->0 * 16 + hex_value(text[2 * i + 1])->0) as u8,
    )
}

/// `hex::encode`: the lower-case hexadecimal text of `data`, two digits per byte.
#[verifier::external_body]
pub(crate) fn hex_encode(data: &[u8]) -> (text: String)
    ensures
        text@ == hex_text(data@),
{
    hex::encode(data)
}

/// `hex::decode`: succeeds exactly on an even number of hexadecimal digits of either case and
/// returns the bytes they stand for.
#[verifier::external_body]
pub(crate) fn hex_decode(text: &str) -> (r: Result<Vec<u8>, hex::FromHexError>)
    ensures
        r is Ok <==> is_hex_text(text@),
        r is Ok ==> r->Ok_0@ == hex_bytes(text@),
{
    hex::decode(text)
}

/// Decoding undoes encoding.
pub proof fn law_hex_round_trip(data: Seq<u8>)
    ensures
        is_hex_text(hex_text(data)),
        hex_bytes(hex_text(data)) == data,
{
    let text = hex_text(data);
    assert forall|v: int| 0 <= v < 16 implies hex_value(#[trigger] hex_digit(v)) == Some(v) by {
    }
    assert forall|i: int| 0 <= i < text.len() implies hex_value(#[trigger] text[i]) is Some by {
        let b = data[i / 2] as int;
        assert(hex_value(hex_digit(b / 16)) == Some(b / 16));
        assert(hex_value(hex_digit(b % 16)) == Some(b % 16));
    }
    assert forall|i: int| 0 <= i < data.len() implies hex_bytes(text)[i] == data[i] by {
        let b = data[i] as int;
        assert((2 * i) % 2 == 0 && (2 * i) / 2 == i);
        assert((2 * i + 1) % 2 == 1 && (2 * i + 1) / 2 == i);
        assert(text[2 * i] == hex_digit(b / 16));
        assert(text[2 * i + 1] == hex_digit(b % 16));
        assert(hex_value(hex_digit(b / 16)) == Some(b / 16));
        assert(hex_value(hex_digit(b % 16)) == Some(b % 16));
    }
    assert(hex_bytes(text) =~= data);
}

// ---------------------------------------------------------------------------------------------
// sha2
// ---------------------------------------------------------------------------------------------

/// What `sha2::Sha256` returns for `data`.
pub uninterp spec fn sha256(data: Seq<u8>) -> Seq<u8>;

/// `sha2::Sha256::digest`: the 32-byte SHA-256 digest of `data`, a function of its bytes.
#[verifier::external_body]
pub(crate) fn sha256_digest(data: &[u8]) -> (digest: [u8; 32])
    ensures
        digest@ == sha256(data@),
{
    sha2::Sha256::digest(data).into()
}

/// The SHA-256 digest of `data`.
pub fn hash_bytes(data: &Vec<u8>) -> (digest: [u8; 32])
    ensures
        digest@ == sha256(data@),
{
    sha256_digest(data.as_slice())
}

// ---------------------------------------------------------------------------------------------
// rayon
// ---------------------------------------------------------------------------------------------

/// `rayon`'s `par_iter`, `map` and `collect`: applies [`hash_bytes`] to every element, on several
/// threads, and collects the results in the order of the elements.
#[verifier::external_body]
pub(crate) fn hash_all(list: &Vec<Vec<u8>>) -> (digests: Vec<[u8; 32]>)
    ensures
        digests@.len() == list@.len(),
        forall|i: int|
            0 <= i < digests@.len() ==> (#[trigger] digests@[i])@ == sha256(list@[i]@),
{
    list.par_iter().map(|data| hash_bytes(data)).collect()
}

// ---------------------------------------------------------------------------------------------
// prost
// ---------------------------------------------------------------------------------------------

/// The error of `prost::encoding::decode_varint`.
#[verifier::external_type_specification]
#[verifier::external_body]
pub struct ExDecodeError(prost::DecodeError);

/// The number of leading bytes of `s` with the continuation bit set.
pub open spec fn continuation_run(s: Seq<u8>) -> nat
    decreases s.len(),
{
    if s.len() == 0 || s[0] < 0x80 {
        0
    } else {
        1 + continuation_run(s.skip(1))
    }
}

/// The little-endian base-128 value of the low seven bits of each byte of `s`.
pub open spec fn base128_value(s: Seq<u8>) -> nat
    decreases s.len(),
{
    if s.len() == 0 {
        0
    } else {
        (s[0] as nat) % 128 + 128 * base128_value(s.skip(1))
    }
}

/// A varint is at most ten bytes long, ends with the first byte without continuation bit, and
/// has a value that fits in 64 bits.
pub open spec fn varint_ok(s: Seq<u8>) -> bool {
    let k = continuation_run(s);
    k < s.len() && k < 10 && (k == 9 ==> s[9] < 2)
}

/// How many bytes decoding a varint from `s` consumes. A well-formed varint is consumed; a
/// buffer of at most ten bytes in which no varint ends is consumed whole; any other malformed
/// buffer is left alone.
pub open spec fn varint_consumed(s: Seq<u8>) -> nat {
    if varint_ok(s) {
        continuation_run(s) + 1
    } else if continuation_run(s) == s.len() && s.len() <= 10 {
        s.len()
    } else {
        0
    }
}

/// `prost::encoding::decode_varint` on a slice: the LEB128 value at its start, and the slice
/// advanced past what was consumed.
#[verifier::external_body]
pub(crate) fn decode_varint(buf: &[u8]) -> (r: (Result<u64, prost::DecodeError>, &[u8]))
    ensures
        r.0 is Ok <==> varint_ok(buf@),
        r.0 is Ok ==> r.0->Ok_0 == base128_value(
            buf@.take(continuation_run(buf@) as int + 1),
        ),
        r.1@ == buf@.skip(varint_consumed(buf@) as int),
{
    let mut rest = buf;
    let value = prost::encoding::decode_varint(&mut rest);
    (value, rest)
}

// ---------------------------------------------------------------------------------------------
// std::time
// ---------------------------------------------------------------------------------------------

/// A reading of the monotonic clock.
#[verifier::external_type_specification]
#[verifier::external_body]
pub struct ExInstant(std::time::Instant);

/// `std::time::Instant::now`. Nothing is promised of the reading.
#[verifier::external_body]
pub(crate) fn monotonic_now() -> std::time::Instant {
    std::time::Instant::now()
}

/// `std::time::Instant::elapsed`, in nanoseconds. Nothing is promised of the amount.
#[verifier::external_body]
pub(crate) fn nanos_since(start: &std::time::Instant) -> u128 {
    start.elapsed().as_nanos()
}

/// `std::time::SystemTime::now`, in milliseconds since the Unix epoch, and 0 before it. Nothing is
/// promised of the reading.
#[verifier::external_body]
pub(crate) fn unix_millis() -> u64 {
    std::time::SystemTime::now().duration_since(std::time::UNIX_EPOCH).unwrap_or_default().as_millis() as u64
}

// ---------------------------------------------------------------------------------------------
// std::fmt
// ---------------------------------------------------------------------------------------------

/// What `{:?}` prints for an optional string.
pub uninterp spec fn debug_option_text(s: Option<Seq<char>>) -> Seq<char>;

/// The `Debug` format of `Option<String>`, a function of the characters of the string.
#[verifier::external_body]
pub(crate) fn option_debug_text(s: &Option<String>) -> (text: String)
    ensures
        text@ == debug_option_text(
            match *s {
                Some(t) => Some(t@),
                None => None,
            },
        ),
{
    format!("{:?}", s)
}

// ---------------------------------------------------------------------------------------------
// std::string
// ---------------------------------------------------------------------------------------------

/// What `String::from_utf8_lossy` makes of `bytes`.
pub uninterp spec fn lossy_text(bytes: Seq<u8>) -> Seq<char>;

/// `String::from_utf8_lossy`: valid UTF-8 is decoded; what is not valid is replaced by U+FFFD. Where
/// the replacements stand in invalid input is left to the name.
#[verifier::external_body]
pub(crate) fn decode_lossy(bytes: &[u8]) -> (text: String)
    ensures
        text@ == lossy_text(bytes@),
        valid_utf8(bytes@) ==> text@ == decode_utf8(bytes@),
{
    String::from_utf8_lossy(bytes).into_owned()
}

/// The digits of a hexadecimal text, in either case, are worth 0 to 15, and no other character is
/// a digit.
pub proof fn law_hexadecimal_digits(c: char)
    ensures
        hex_value(c) == if 48 <= c as int <= 57 {
            Some(c as int - 48)
        } else if 65 <= c as int <= 70 {
            Some(c as int - 55)
        } else if 97 <= c as int <= 102 {
            Some(c as int - 87)
        } else {
            None
        },
{
}

/// Hexadecimal texts are in lower case, have two digits for each byte, and the texts of two pieces
/// stand one behind the other in the text of the whole.
pub proof fn law_hexadecimal_texts(a: Seq<u8>, b: Seq<u8>)
    ensures
        hex_text(a).len() == 2 * a.len(),
        hex_text(a + b) == hex_text(a) + hex_text(b),
        forall|i: int|
            0 <= i < hex_text(a).len() ==> '0' <= #[trigger] hex_text(a)[i] <= '9' || 'a'
                <= hex_text(a)[i] <= 'f',
{
    assert forall|i: int| 0 <= i < hex_text(a + b).len() implies hex_text(a + b)[i] == (hex_text(a)
        + hex_text(b))[i] by {
        if i >= 2 * a.len() {
            assert((i - 2 * a.len()) / 2 == i / 2 - a.len());
            assert((i - 2 * a.len()) % 2 == i % 2);
        }
    }
    assert(hex_text(a + b) =~= hex_text(a) + hex_text(b));
}

/// Each byte of a hexadecimal text is sixteen times the first of its two digits, plus the second.
pub proof fn law_hexadecimal_bytes(text: Seq<char>, i: int)
    requires
        is_hex_text(text),
        0 <= i < text.len() / 2,
    ensures
        text.len() == 2 * hex_bytes(text).len(),
        hex_value(text[2 * i]) is Some,
        hex_value(text[2 * i + 1]) is Some,
        hex_bytes(text)[i] == 16 * hex_value(text[2 * i])->0 + hex_value(text[2 * i + 1])->0,
{
}

/// A text of odd length, or with a character that is no digit, is not hexadecimal; every other one
/// is.
pub proof fn law_which_texts_are_hexadecimal(text: Seq<char>)
    ensures
        text.len() % 2 == 1 ==> !is_hex_text(text),
        (exists|i: int| 0 <= i < text.len() && hex_value(#[trigger] text[i]) is None)
            ==> !is_hex_text(text),
        text.len() % 2 == 0 && (forall|i: int|
            0 <= i < text.len() ==> hex_value(#[trigger] text[i]) is Some) ==> is_hex_text(text),
{
}

/// A varint of one byte is that byte; a byte with the continuation bit adds its seven low bits to
/// 128 times what follows.
pub proof fn law_varints_are_read_byte_by_byte(first: u8, rest: Seq<u8>)
    ensures
        first < 128 ==> continuation_run(seq![first] + rest) == 0 && varint_ok(seq![first] + rest)
            && varint_consumed(seq![first] + rest) == 1,
        first >= 128 ==> continuation_run(seq![first] + rest) == 1 + continuation_run(rest),
        base128_value(seq![first] + rest) == first as int % 128 + 128 * base128_value(rest),
        continuation_run(Seq::<u8>::empty()) == 0,
        base128_value(Seq::<u8>::empty()) == 0,
{
    let s = seq![first] + rest;
    assert(s.skip(1) =~= rest);
    assert(s[0] == first);
}

/// A varint is well-formed if it ends within ten bytes, the tenth being 0 or 1. It is consumed,
/// and so is a buffer of up to ten bytes in which none ends; nothing else is.
pub proof fn law_which_varints_are_well_formed(s: Seq<u8>)
    ensures
        s.len() == 0 ==> !varint_ok(s),
        continuation_run(s) == s.len() ==> !varint_ok(s) && varint_consumed(s) == if s.len() <= 10 {
            s.len()
        } else {
            0
        },
        continuation_run(s) < s.len() && continuation_run(s) < 9 ==> varint_ok(s)
            && varint_consumed(s) == continuation_run(s) + 1,
        continuation_run(s) < s.len() && continuation_run(s) == 9 ==> (varint_ok(s) <==> s[9] == 0
            || s[9] == 1) && varint_consumed(s) == if s[9] <= 1 {
            10nat
        } else {
            0
        },
        continuation_run(s) < s.len() && continuation_run(s) > 9 ==> !varint_ok(s)
            && varint_consumed(s) == 0,
{
}

} // verus!
