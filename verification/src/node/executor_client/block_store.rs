//! The names under which blocks are stored for nodes that catch up.

use vstd::prelude::*;

use crate::text::{
    chars_of, copy_str, decimal, decimal_string, occurs, parse_number, parsed_number,
};

verus! {

/// The directory of the stored blocks, below the storage directory.
pub const BLOCKS_DIR: &'static str = "executable_blocks";

/// The file name suffix of a stored block.
pub const BLOCK_SUFFIX: &'static str = ".bin";

/// `name` below the directory `base`, with exactly one separator between them.
pub open spec fn joined(base: Seq<char>, name: Seq<char>) -> Seq<char> {
    if base.len() == 0 {
        name
    } else if base.last() == '/' {
        base + name
    } else {
        base.push('/') + name
    }
}

/// Puts the relative path `name` below the directory `base`.
pub fn join_path(base: &str, name: &str) -> (r: String)
    ensures
        r@ == joined(base@, name@),
{
    let chars = chars_of(base);
    let mut path = copy_str(base);
    if chars.len() > 0 && chars[chars.len() - 1] != '/' {
        path.push('/');
    }
    path.append(name);
    assert(path@ =~= joined(base@, name@));
    path
}

/// The directory of the stored blocks.
pub fn blocks_dir(storage_path: &str) -> (r: String)
    ensures
        r@ == joined(storage_path@, BLOCKS_DIR@),
{
    join_path(storage_path, BLOCKS_DIR)
}

/// The file name of the block at `gei`.
pub open spec fn block_file_name(gei: nat) -> Seq<char> {
    decimal(gei) + BLOCK_SUFFIX@
}

/// The index that a file name denotes: a number followed by the suffix.
pub open spec fn gei_of_file_name(name: Seq<char>) -> Option<nat> {
    let stem = name.len() - BLOCK_SUFFIX@.len();
    if stem >= 0 && name.skip(stem) == BLOCK_SUFFIX@ {
        parsed_number(name.take(stem), u64::MAX as nat)
    } else {
        None
    }
}

/// The file name of the block at `gei`.
pub fn block_file(gei: u64) -> (name: String)
    ensures
        name@ == block_file_name(gei as nat),
{
    let mut name = decimal_string(gei);
    name.append(BLOCK_SUFFIX);
    name
}

/// The index of the block in a file, if the file holds a block.
pub fn parse_block_file(name: &str) -> (r: Option<u64>)
    ensures
        match r {
            Some(gei) => gei_of_file_name(name@) == Some(gei as nat),
            None => gei_of_file_name(name@) is None,
        },
{
    let chars = chars_of(name);
    let suffix = chars_of(BLOCK_SUFFIX);
    if chars.len() < suffix.len() {
        return None;
    }
    let stem: usize = chars.len() - suffix.len();
    let found = occurs(chars.as_slice(), suffix.as_slice(), stem);
    assert(name@.subrange(stem as int, name@.len() as int) =~= name@.skip(stem as int));
    if !found {
        return None;
    }
    let digits = vstd::slice::slice_subrange(chars.as_slice(), 0, stem);
    assert(digits@ =~= name@.take(stem as int));
    parse_number(digits, u64::MAX)
}

/// The names of block files lead back to their indices.
pub proof fn law_block_file_round_trip(gei: u64)
    ensures
        gei_of_file_name(block_file_name(gei as nat)) == Some(gei as nat),
{
    let name = block_file_name(gei as nat);
    let stem = decimal(gei as nat).len() as int;
    assert(name.skip(stem) =~= BLOCK_SUFFIX@);
    assert(name.take(stem) =~= decimal(gei as nat));
    crate::text::law_decimal_round_trip(gei as nat, u64::MAX as nat);
}

/// `best` is the greatest index that one of the first `n` names denotes.
pub open spec fn is_max_gei(names: Seq<String>, best: Option<u64>) -> bool {
    match best {
        Some(m) => {
            &&& exists|i: int|
                0 <= i < names.len() && gei_of_file_name(#[trigger] names[i]@) == Some(m as nat)
            &&& forall|i: int|
                0 <= i < names.len() ==> (gei_of_file_name(#[trigger] names[i]@) matches Some(g)
                    ==> g <= m)
        },
        None => forall|i: int|
            0 <= i < names.len() ==> gei_of_file_name(#[trigger] names[i]@) is None,
    }
}

/// The greatest index among the stored blocks, given the names in their directory. Names that are
/// not block files are ignored.
pub fn max_stored_gei(names: &Vec<String>) -> (best: Option<u64>)
    ensures
        is_max_gei(names@, best),
{
    let mut best: Option<u64> = None;
    let mut i: usize = 0;
    while i < names.len()
        invariant
            i <= names@.len(),
            is_max_gei(names@.take(i as int), best),
        decreases names@.len() - i,
    {
        let parsed = parse_block_file(names[i].as_str());
        let ghost before = best;
        let ghost seen = names@.take(i as int);
        let ghost now = names@.take(i + 1);
        match (best, parsed) {
            (Some(m), Some(g)) => {
                if g > m {
                    best = Some(g);
                }
            },
            (None, Some(g)) => {
                best = Some(g);
            },
            _ => {},
        }
        proof {
            assert(now[i as int] == names@[i as int]);
            assert forall|k: int| 0 <= k < i implies now[k] == seen[k] by {}
            match before {
                Some(m) => {
                    let k = choose|k: int|
                        0 <= k < seen.len() && gei_of_file_name(#[trigger] seen[k]@) == Some(
                            m as nat,
                        );
                    assert(gei_of_file_name(now[k]@) == Some(m as nat));
                },
                None => {},
            }
            match best {
                Some(m) => {
                    assert forall|k: int| 0 <= k < now.len() implies (gei_of_file_name(
                        #[trigger] now[k]@,
                    ) matches Some(g) ==> g <= m) by {
                        if k < i {
                            assert(now[k] == seen[k]);
                        }
                    }
                },
                None => {
                    assert forall|k: int| 0 <= k < now.len() implies gei_of_file_name(
                        #[trigger] now[k]@,
                    ) is None by {
                        if k < i {
                            assert(now[k] == seen[k]);
                        }
                    }
                },
            }
        }
        i = i + 1;
    }
    assert(names@.take(i as int) =~= names@);
    best
}

/// Whether a block is worth storing: empty ones are not.
pub fn is_storable(data: &[u8]) -> (r: bool)
    ensures
        r == (data@.len() > 0),
{
    data.len() > 0
}

/// A path below a directory is the directory, one separator and the name.
pub proof fn law_paths_are_joined_by_one_separator(base: Seq<char>, name: Seq<char>)
    ensures
        base.len() > 0 && base.last() != '/' ==> joined(base, name) == base + seq!['/'] + name,
        base.len() > 0 && base.last() == '/' ==> joined(base, name) == base + name,
        base.len() == 0 ==> joined(base, name) == name,
{
    assert(base.push('/') + name =~= base + seq!['/'] + name);
}

/// A file is a block's exactly if its name is a number and `.bin`.
pub proof fn law_which_files_are_blocks(name: Seq<char>, n: nat)
    ensures
        block_file_name(n) == decimal(n) + ".bin"@,
        gei_of_file_name(name) is Some ==> name.len() >= 4 && name.skip(name.len() - 4) == ".bin"@
            && gei_of_file_name(name) == parsed_number(name.take(name.len() - 4), u64::MAX as nat),
        name.len() >= 4 && name.skip(name.len() - 4) == ".bin"@ ==> gei_of_file_name(name)
            == parsed_number(name.take(name.len() - 4), u64::MAX as nat),
{
    reveal_strlit(".bin");
    assert(BLOCK_SUFFIX@ =~= ".bin"@);
}

/// The greatest index is that of a file, and no file has a greater one.
pub proof fn law_the_greatest_index_is_found(names: Seq<String>, best: Option<u64>, i: int)
    requires
        is_max_gei(names, best),
        0 <= i < names.len(),
    ensures
        gei_of_file_name(names[i]@) matches Some(g) ==> best is Some && g <= best->0,
        best matches Some(m) ==> exists|j: int|
            0 <= j < names.len() && gei_of_file_name(#[trigger] names[j]@) == Some(m as nat),
{
    if gei_of_file_name(names[i]@) is Some && best is None {
        assert(gei_of_file_name(names[i]@) is None);
    }
}

/// Stored blocks lie in a directory of their own below the storage directory.
pub proof fn law_where_stored_blocks_lie(storage_path: &str, r: String)
    requires
        call_ensures(blocks_dir, (storage_path,), r),
    ensures
        r@ == joined(storage_path@, "executable_blocks"@),
{
}

} // verus!
