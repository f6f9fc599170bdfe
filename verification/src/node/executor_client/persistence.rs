//! The files that let a node resume where it stopped.

use vstd::bytes::{
    lemma_auto_spec_u32_to_from_le_bytes, lemma_auto_spec_u64_to_from_le_bytes,
    spec_u32_from_le_bytes, spec_u32_to_le_bytes, spec_u64_from_le_bytes, spec_u64_to_le_bytes,
    u32_from_le_bytes, u32_to_le_bytes, u64_from_le_bytes, u64_to_le_bytes,
};
use vstd::prelude::*;
use vstd::slice::slice_subrange;

use crate::deps::{base128_value, continuation_run, varint_consumed, varint_ok};
use crate::node::executor_client::block_store::{join_path, joined};

verus! {

// ---------------------------------------------------------------------------------------------
// Unsigned varints
// ---------------------------------------------------------------------------------------------

/// `n` as an unsigned varint: seven bits per byte, least significant first, with the high bit set
/// on all bytes but the last.
pub open spec fn uvarint(n: nat) -> Seq<u8>
    decreases n,
{
    if n < 128 {
        seq![n as u8]
    } else {
        seq![(n % 128 + 128) as u8] + uvarint(n / 128)
    }
}

/// Appends `value` as an unsigned varint.
pub fn write_uvarint(buf: &mut Vec<u8>, value: u64)
    ensures
        final(buf)@ == old(buf)@ + uvarint(value as nat),
{
    let ghost start = buf@;
    let mut rest: u64 = value;
    while rest >= 128
        invariant
            buf@ + uvarint(rest as nat) == start + uvarint(value as nat),
        decreases rest,
    {
        let ghost before = buf@;
        let byte: u8 = (rest % 128) as u8 + 128;
        buf.push(byte);
        proof {
            assert(uvarint(rest as nat) == seq![byte] + uvarint((rest / 128) as nat));
            assert(buf@ + uvarint((rest / 128) as nat) =~= before + uvarint(rest as nat));
        }
        rest = rest / 128;
    }
    let ghost before = buf@;
    buf.push(rest as u8);
    assert(buf@ =~= before + uvarint(rest as nat));
}

/// 128 to the power of `k`.
pub open spec fn pow128(k: nat) -> nat
    decreases k,
{
    if k == 0 {
        1
    } else {
        128 * pow128((k - 1) as nat)
    }
}

/// The shape and value of a varint.
proof fn lemma_uvarint(n: nat, k: nat)
    requires
        n < pow128(k),
        k > 0,
    ensures
        continuation_run(uvarint(n)) + 1 == uvarint(n).len(),
        uvarint(n).len() <= k,
        base128_value(uvarint(n)) == n,
        uvarint(n).len() == k ==> uvarint(n).last() as nat * pow128((k - 1) as nat) <= n,
    decreases n,
{
    let s = uvarint(n);
    if n < 128 {
        assert(s.skip(1) =~= Seq::<u8>::empty());
        assert(base128_value(s.skip(1)) == 0);
        assert(continuation_run(s) == 0);
        if k == 1 {
            assert(pow128(0) == 1);
        }
    } else {
        assert(pow128(1) == 128 * pow128(0));
        assert(pow128(0) == 1);
        assert(k > 1);
        let rest = n / 128;
        assert(pow128(k) == 128 * pow128((k - 1) as nat));
        assert(rest < pow128((k - 1) as nat));
        lemma_uvarint(rest, (k - 1) as nat);
        assert(s.skip(1) =~= uvarint(rest));
        let b = (n % 128 + 128) as u8;
        assert(s[0] == b);
        assert((b as nat) % 128 == n % 128);
        if s.len() == k {
            let l = uvarint(rest).last() as nat;
            let p = pow128((k - 2) as nat);
            assert(s.last() == uvarint(rest).last());
            assert(pow128((k - 1) as nat) == 128 * p);
            assert(l * p <= rest);
            assert(l * (128 * p) == 128 * (l * p)) by (nonlinear_arith);
        }
    }
}

/// Reading a varint gives back the number that was written, and consumes exactly its bytes,
/// whatever follows them.
pub proof fn law_uvarint_round_trip(n: u64, tail: Seq<u8>)
    ensures
        ({
            let s = uvarint(n as nat) + tail;
            &&& varint_ok(s)
            &&& varint_consumed(s) == uvarint(n as nat).len()
            &&& base128_value(s.take(continuation_run(s) as int + 1)) == n
        }),
{
    reveal_with_fuel(pow128, 11);
    assert(pow128(10) > n as nat);
    lemma_uvarint(n as nat, 10);
    let u = uvarint(n as nat);
    let s = u + tail;
    lemma_run_of_prefix(u, tail);
    assert(s.take(u.len() as int) =~= u);
    assert(continuation_run(u) < u.len());
    if continuation_run(s) == 9 {
        assert(u.last() as nat * pow128(9) <= n);
        assert(u.last() == s[9]);
        if s[9] >= 2 {
            assert(u.last() as nat * pow128(9) >= 2 * pow128(9)) by (nonlinear_arith)
                requires
                    u.last() as nat >= 2,
            ;
            assert(2 * pow128(9) > u64::MAX);
        }
    }
}

/// A run that ends inside `u` is not affected by what follows.
proof fn lemma_run_of_prefix(u: Seq<u8>, tail: Seq<u8>)
    requires
        continuation_run(u) < u.len(),
    ensures
        continuation_run(u + tail) == continuation_run(u),
    decreases u.len(),
{
    if u[0] >= 0x80 {
        assert((u + tail).skip(1) =~= u.skip(1) + tail);
        lemma_run_of_prefix(u.skip(1), tail);
    }
}

// ---------------------------------------------------------------------------------------------
// State files
// ---------------------------------------------------------------------------------------------

/// The directory of the state files, below the storage directory.
pub const STATE_DIR: &'static str = "executor_state";

/// The state files.
#[derive(Clone, Copy, Debug, PartialEq, Eq, Structural)]
pub enum StateFile {
    /// The last index that was sent to the engine, and its commit.
    LastSentIndex,
    /// The last block that the engine reported.
    LastBlockNumber,
    /// The indices that fragments took beyond one per commit in the current epoch.
    FragmentOffset,
}

impl StateFile {
    /// The name of the file.
    pub open spec fn file_name(&self) -> Seq<char> {
        match self {
            StateFile::LastSentIndex => "last_sent_index.bin"@,
            StateFile::LastBlockNumber => "last_block_number.bin"@,
            StateFile::FragmentOffset => "fragment_offset.bin"@,
        }
    }

    /// The path of the file.
    pub fn path(&self, storage_path: &str) -> (r: String)
        ensures
            r@ == joined(joined(storage_path@, STATE_DIR@), self.file_name()),
    {
        let dir = join_path(storage_path, STATE_DIR);
        join_path(
            dir.as_str(),
            match self {
                StateFile::LastSentIndex => "last_sent_index.bin",
                StateFile::LastBlockNumber => "last_block_number.bin",
                StateFile::FragmentOffset => "fragment_offset.bin",
            },
        )
    }
}

/// The last sent index and its commit: eight bytes and four bytes, little endian.
pub open spec fn last_index_bytes(index: u64, commit_index: u32) -> Seq<u8> {
    spec_u64_to_le_bytes(index) + spec_u32_to_le_bytes(commit_index)
}

/// What a file with the last sent index says. Files of eight bytes stem from before the commit was
/// recorded; any other length is damaged.
pub open spec fn last_index_from(bytes: Seq<u8>) -> Option<(u64, u32)> {
    if bytes.len() == 12 {
        Some(
            (
                spec_u64_from_le_bytes(bytes.subrange(0, 8)),
                spec_u32_from_le_bytes(bytes.subrange(8, 12)),
            ),
        )
    } else if bytes.len() == 8 {
        Some((spec_u64_from_le_bytes(bytes), 0))
    } else {
        None
    }
}

/// Encodes the last sent index and its commit.
pub fn encode_last_sent_index(index: u64, commit_index: u32) -> (bytes: Vec<u8>)
    ensures
        bytes@ == last_index_bytes(index, commit_index),
{
    let mut bytes = u64_to_le_bytes(index);
    let mut commit = u32_to_le_bytes(commit_index);
    bytes.append(&mut commit);
    bytes
}

/// Decodes a file with the last sent index; `None` if it is damaged.
pub fn decode_last_sent_index(bytes: &[u8]) -> (r: Option<(u64, u32)>)
    ensures
        r == last_index_from(bytes@),
{
    if bytes.len() == 12 {
        let index: u64 = u64_from_le_bytes(slice_subrange(bytes, 0, 8));
        let commit: u32 = u32_from_le_bytes(slice_subrange(bytes, 8, 12));
        Some((index, commit))
    } else if bytes.len() == 8 {
        Some((u64_from_le_bytes(bytes), 0))
    } else {
        None
    }
}

/// What was persisted is what is loaded.
pub proof fn law_last_index_round_trip(index: u64, commit_index: u32)
    ensures
        last_index_from(last_index_bytes(index, commit_index)) == Some((index, commit_index)),
{
    lemma_auto_spec_u64_to_from_le_bytes();
    lemma_auto_spec_u32_to_from_le_bytes();
    let b = last_index_bytes(index, commit_index);
    assert(b.len() == 12);
    assert(b.subrange(0, 8) =~= spec_u64_to_le_bytes(index));
    assert(b.subrange(8, 12) =~= spec_u32_to_le_bytes(commit_index));
}

/// Encodes the last block number, or the fragment offset: eight bytes, little endian.
pub fn encode_u64(value: u64) -> (bytes: Vec<u8>)
    ensures
        bytes@ == spec_u64_to_le_bytes(value),
{
    u64_to_le_bytes(value)
}

/// The block number in a file, read from its first eight bytes; `None` if there are fewer.
pub fn decode_last_block_number(bytes: &[u8]) -> (r: Option<u64>)
    ensures
        r == if bytes@.len() >= 8 {
            Some(spec_u64_from_le_bytes(bytes@.subrange(0, 8)))
        } else {
            None
        },
{
    if bytes.len() >= 8 {
        Some(u64_from_le_bytes(slice_subrange(bytes, 0, 8)))
    } else {
        None
    }
}

/// The fragment offset in a file. A missing or damaged file means that no commit of the epoch was
/// fragmented.
pub fn decode_fragment_offset(file: Option<Vec<u8>>) -> (offset: u64)
    ensures
        offset == match file {
            Some(bytes) if bytes@.len() == 8 => spec_u64_from_le_bytes(bytes@),
            _ => 0,
        },
{
    match file {
        Some(bytes) => if bytes.len() == 8 {
            u64_from_le_bytes(bytes.as_slice())
        } else {
            0
        },
        None => 0,
    }
}

/// A number that was persisted is the number that is loaded.
pub proof fn law_u64_file_round_trip(value: u64)
    ensures
        spec_u64_to_le_bytes(value).len() == 8,
        spec_u64_from_le_bytes(spec_u64_to_le_bytes(value)) == value,
        spec_u64_to_le_bytes(value).subrange(0, 8) == spec_u64_to_le_bytes(value),
{
    lemma_auto_spec_u64_to_from_le_bytes();
    assert(spec_u64_to_le_bytes(value).len() == 8);
    assert(spec_u64_to_le_bytes(value).subrange(0, 8) =~= spec_u64_to_le_bytes(value));
}

/// A varint has seven bits per byte, the lowest first, and all bytes but the last have the highest
/// bit set. Small numbers are one byte.
pub proof fn law_what_a_varint_looks_like(n: nat)
    ensures
        n < 128 ==> uvarint(n) == seq![n as u8],
        n >= 128 ==> uvarint(n).len() > 1 && uvarint(n)[0] as nat % 128 == n % 128 && uvarint(n)[0]
            >= 128 && uvarint(n).skip(1) == uvarint(n / 128),
{
    if n >= 128 {
        assert(uvarint(n).skip(1) =~= uvarint(n / 128));
        assert(uvarint(n / 128).len() >= 1);
    }
}

/// The names of the state files differ, so that none overwrites another, and are these.
pub proof fn law_state_files_have_their_own_names()
    ensures
        StateFile::LastSentIndex.file_name() == "last_sent_index.bin"@,
        StateFile::LastBlockNumber.file_name() == "last_block_number.bin"@,
        StateFile::FragmentOffset.file_name() == "fragment_offset.bin"@,
        STATE_DIR@ == "executor_state"@,
{
}

/// A file of eight bytes is an index without a commit; one of any other length than that and twelve
/// is damaged.
pub proof fn law_old_and_damaged_index_files(index: u64, bytes: Seq<u8>)
    ensures
        last_index_from(spec_u64_to_le_bytes(index)) == Some((index, 0u32)),
        bytes.len() != 8 && bytes.len() != 12 ==> last_index_from(bytes) is None,
        last_index_bytes(index, 0).len() == 12,
        last_index_bytes(index, 0).take(8) == spec_u64_to_le_bytes(index),
{
    lemma_auto_spec_u64_to_from_le_bytes();
    lemma_auto_spec_u32_to_from_le_bytes();
    assert(spec_u64_to_le_bytes(index).len() == 8);
    assert(last_index_bytes(index, 0).take(8) =~= spec_u64_to_le_bytes(index));
}

/// A block number that was written is read back, whatever stands behind it; fewer than eight bytes
/// hold none.
pub proof fn law_block_numbers_are_read_back(n: u64, rest: Seq<u8>, bytes: &[u8], r: Option<u64>)
    requires
        call_ensures(decode_last_block_number, (bytes,), r),
    ensures
        bytes@ == spec_u64_to_le_bytes(n) + rest ==> r == Some(n),
        bytes@.len() < 8 ==> r is None,
        bytes@.len() >= 8 ==> r is Some,
{
    lemma_auto_spec_u64_to_from_le_bytes();
    let s = spec_u64_to_le_bytes(n) + rest;
    assert(s.subrange(0, 8) =~= spec_u64_to_le_bytes(n));
}

/// An offset that was written is read back; without a file, or with one of another length, it is 0.
pub proof fn law_offsets_are_read_back(n: u64, file: Option<Vec<u8>>, offset: u64)
    requires
        call_ensures(decode_fragment_offset, (file,), offset),
    ensures
        file is None ==> offset == 0,
        file is Some && file->0@.len() != 8 ==> offset == 0,
        file is Some && file->0@ == spec_u64_to_le_bytes(n) ==> offset == n,
{
    lemma_auto_spec_u64_to_from_le_bytes();
}

} // verus!
