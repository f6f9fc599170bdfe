//! Cutting work into pieces of bounded size.

use vstd::prelude::*;

verus! {

/// Where piece `i` starts.
pub open spec fn chunk_start(i: int, size: int) -> int {
    i * size
}

/// Where piece `i` of `total` items ends.
pub open spec fn chunk_end(i: int, size: int, total: int) -> int {
    if chunk_start(i + 1, size) <= total {
        chunk_start(i + 1, size)
    } else {
        total
    }
}

/// Cuts `total` items into pieces of `size`: the half-open ranges of their positions. All pieces
/// but the last are full; there are none if there are no items.
pub fn chunk_ranges(total: usize, size: usize) -> (r: Vec<(usize, usize)>)
    requires
        size > 0,
        total + size <= usize::MAX,
    ensures
        total > 0 ==> r@.len() > 0 && chunk_start(r@.len() - 1, size as int) < total,
        total <= chunk_start(r@.len() as int, size as int),
        total == 0 ==> r@.len() == 0,
        forall|i: int|
            0 <= i < r@.len() ==> (#[trigger] r@[i]).0 == chunk_start(i, size as int) && r@[i].1
                == chunk_end(i, size as int, total as int),
{
    let mut ranges: Vec<(usize, usize)> = Vec::new();
    let mut start: usize = 0;
    assert(chunk_start(0, size as int) == 0) by (nonlinear_arith)
        requires
            chunk_start(0, size as int) == 0 * size as int,
    ;
    while start < total
        invariant
            size > 0,
            total + size <= usize::MAX,
            start == chunk_start(ranges@.len() as int, size as int),
            start < total + size,
            ranges@.len() > 0 ==> chunk_start(ranges@.len() - 1, size as int) < total,
            total == 0 ==> ranges@.len() == 0,
            forall|i: int|
                0 <= i < ranges@.len() ==> (#[trigger] ranges@[i]).0 == chunk_start(
                    i,
                    size as int,
                ) && ranges@[i].1 == chunk_end(i, size as int, total as int),
        decreases total + size - start,
    {
        let ghost n = ranges@.len() as int;
        proof {
            lemma_next_chunk(n, size as int);
        }
        let end: usize = if total - start <= size {
            total
        } else {
            start + size
        };
        ranges.push((start, end));
        start = start + size;
    }
    ranges
}

/// A piece starts `size` behind the one before it.
proof fn lemma_next_chunk(i: int, size: int)
    ensures
        chunk_start(i + 1, size) == chunk_start(i, size) + size,
{
    assert((i + 1) * size == i * size + size) by (nonlinear_arith);
}

/// The pieces cover all items without overlap: the first starts at 0, each starts where the one
/// before it ends, the last ends at `total`, and none is empty or too large.
pub proof fn law_chunks_cover(total: int, size: int, n: int, i: int)
    requires
        size > 0,
        0 <= i < n,
        chunk_start(n - 1, size) < total <= chunk_start(n, size),
    ensures
        chunk_start(0, size) == 0,
        chunk_end(n - 1, size, total) == total,
        chunk_start(i, size) < chunk_end(i, size, total) <= chunk_start(i, size) + size,
        i + 1 < n ==> chunk_end(i, size, total) == chunk_start(i + 1, size),
{
    lemma_next_chunk(i, size);
    assert(0 * size == 0) by (nonlinear_arith);
    assert(i * size <= (n - 1) * size) by (nonlinear_arith)
        requires
            i <= n - 1,
            size > 0,
    ;
    if i + 1 < n {
        assert((i + 1) * size <= (n - 1) * size) by (nonlinear_arith)
            requires
                i + 1 <= n - 1,
                size > 0,
        ;
    }
}

/// The last number of a batch of `size` that starts at `from` and does not go beyond `to`.
pub open spec fn batch_end(from: u64, to: u64, size: u64) -> u64 {
    if to - from < size {
        to
    } else {
        (from + size - 1) as u64
    }
}

/// The last number of a batch of `size` that starts at `from` and does not go beyond `to`.
pub fn batch_last(from: u64, to: u64, size: u64) -> (r: u64)
    requires
        from <= to,
        size > 0,
    ensures
        r == batch_end(from, to, size),
        from <= r <= to,
        r - from < size,
{
    if to - from < size {
        to
    } else {
        from + (size - 1)
    }
}

/// A batch ends `size` numbers further on, or at the end if that comes first.
pub proof fn law_where_a_batch_ends(from: u64, to: u64, size: u64)
    requires
        from <= to,
        size > 0,
    ensures
        from <= batch_end(from, to, size) <= to,
        batch_end(from, to, size) - from < size,
        batch_end(from, to, size) == to || batch_end(from, to, size) - from == size - 1,
{
}

/// Piece `i` starts behind `i` full ones.
pub proof fn law_where_a_piece_starts(i: int, size: int)
    ensures
        chunk_start(0, size) == 0,
        chunk_start(i + 1, size) - chunk_start(i, size) == size,
{
    lemma_next_chunk(i, size);
    assert(0 * size == 0) by (nonlinear_arith);
}

} // verus!
