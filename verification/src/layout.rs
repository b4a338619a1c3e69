//! How a file's content lies in chunks, and which bytes a read takes from each chunk.
use vstd::prelude::*;

verus! {

/// The chunk size used where the requested one cannot be: 32 MiB.
pub const DEFAULT_BYTE_BLOB_SIZE: usize = 33554432;

/// The chunk size that a file is written with: the requested one if it is positive and
/// no blob of the store is too small for it, the default otherwise.
pub open spec fn chunk_size_for(requested: usize, limit: i32) -> usize {
    if 0 < requested <= limit {
        requested
    } else {
        DEFAULT_BYTE_BLOB_SIZE
    }
}

/// Resolves the chunk size that a file is written with.
pub fn resolve_chunk_size(requested: usize, limit: i32) -> (chunk_size: usize)
    ensures
        chunk_size == chunk_size_for(requested, limit),
        0 < chunk_size <= i32::MAX,
{
    if limit > 0 && requested > 0 && requested <= limit as usize {
        requested
    } else {
        DEFAULT_BYTE_BLOB_SIZE
    }
}

/// What the size aggregate of the store means: a negative value stands for a file without
/// any chunk, any other value is the size of the file.
pub open spec fn size_of_aggregate(raw: i64) -> Option<int> {
    if raw < 0 {
        None
    } else {
        Some(raw as int)
    }
}

/// Where in its first chunk a read starts: the index of the read less the bytes that lie
/// before that chunk. There is no such place where the chunk begins behind the index or
/// before the start of the file.
pub open spec fn first_offset(index: int, chunk_num: int, chunk_size: int) -> Option<int> {
    if 0 <= chunk_num * chunk_size <= index {
        Some(index - chunk_num * chunk_size)
    } else {
        None
    }
}

/// Computes where in its first chunk a read starts.
pub fn offset_in_first_chunk(index: usize, chunk_num: i64, chunk_size: i64) -> (offset: Option<
    usize,
>)
    ensures
        match first_offset(index as int, chunk_num as int, chunk_size as int) {
            Some(place) => offset == Some(place as usize) && place <= index,
            None => offset is None,
        },
{
    assert(-0x4000_0000_0000_0000_0000_0000_0000_0000 <= chunk_num * chunk_size
        <= 0x4000_0000_0000_0000_0000_0000_0000_0000) by (nonlinear_arith)
        requires
            -0x8000_0000_0000_0000 <= chunk_num <= 0x7fff_ffff_ffff_ffff,
            -0x8000_0000_0000_0000 <= chunk_size <= 0x7fff_ffff_ffff_ffff,
    ;
    let before: i128 = (chunk_num as i128) * (chunk_size as i128);
    if before < 0 || before > index as i128 {
        None
    } else {
        Some((index as i128 - before) as usize)
    }
}

/// The number of bytes that a read takes from one chunk: as many as the chunk holds from
/// the place where the read enters it, and no more than the read still wants. The first
/// chunk must yield at least one byte, and no chunk can yield a negative number.
pub open spec fn span(first: bool, offset: int, blob_size: int, wanted: int) -> Option<int> {
    let count = if first {
        vstd::math::min(blob_size - offset, vstd::math::min(blob_size, wanted))
    } else {
        vstd::math::min(blob_size, wanted)
    };
    if count < 0 || (first && count == 0) {
        None
    } else {
        Some(count)
    }
}

/// Computes the number of bytes that a read takes from one chunk.
pub fn span_in_chunk(first: bool, offset: usize, blob_size: i32, wanted: usize) -> (count: Option<
    usize,
>)
    ensures
        match span(first, offset as int, blob_size as int, wanted as int) {
            Some(bytes) => count == Some(bytes as usize) && bytes <= i32::MAX && bytes <= wanted,
            None => count is None,
        },
{
    if blob_size < 0 {
        return None;
    }
    let held = blob_size as usize;
    let mut count = if held < wanted {
        held
    } else {
        wanted
    };
    if first {
        if offset >= held {
            return None;
        }
        if held - offset < count {
            count = held - offset;
        }
        if count == 0 {
            return None;
        }
    }
    Some(count)
}

/// The place at which a read enters a row of the chunks it is handed: the first row at
/// the offset of the read in its first chunk, every later row at its beginning.
pub open spec fn row_offset(row: int, first_offset: int) -> int {
    if row == 0 {
        first_offset
    } else {
        0
    }
}

/// The span that a read takes from a row of the chunks it is handed, as a value: the
/// place at which the row is entered and the number of bytes taken from there, or nothing
/// where the row has no span for the read.
pub open spec fn row_span(row: int, first_offset: int, blob_size: int, wanted: int) -> Option<
    (int, int),
> {
    match span(row == 0, row_offset(row, first_offset), blob_size, wanted) {
        Some(count) => Some((row_offset(row, first_offset), count)),
        None => None,
    }
}

/// Computes the span that a read takes from a row of the chunks it is handed.
pub fn span_of_row(row: usize, first_offset: usize, blob_size: i32, wanted: usize) -> (step:
    Option<(usize, usize)>)
    ensures
        match row_span(row as int, first_offset as int, blob_size as int, wanted as int) {
            Some((offset, count)) => step == Some((offset as usize, count as usize)) && count
                <= i32::MAX && count <= wanted && offset <= first_offset,
            None => step is None,
        },
{
    let offset = if row == 0 {
        first_offset
    } else {
        0
    };
    match span_in_chunk(row == 0, offset, blob_size, wanted) {
        Some(count) => Some((offset, count)),
        None => None,
    }
}

/// The number of bytes that a read takes from blobs of the given sizes, handed to it in
/// this order, or nothing where one of them has no span for the read.
pub open spec fn counted(sizes: Seq<int>, first: bool, offset: int, wanted: int) -> Option<int>
    decreases sizes.len(),
{
    if sizes.len() == 0 {
        Some(0)
    } else {
        match span(first, offset, sizes[0], wanted) {
            None => None,
            Some(count) => match counted(sizes.drop_first(), false, 0, wanted - count) {
                None => None,
                Some(rest) => Some(count + rest),
            },
        }
    }
}

/// What one more blob adds to the bytes counted so far: the span it has for what the
/// read still wants.
pub proof fn lemma_counted_push(sizes: Seq<int>, size: int, first_offset: int, wanted: int)
    ensures
        counted(sizes.push(size), true, first_offset, wanted) == match counted(
            sizes,
            true,
            first_offset,
            wanted,
        ) {
            None => None,
            Some(before) => match row_span(sizes.len() as int, first_offset, size, wanted - before) {
                None => None,
                Some((_, count)) => Some(before + count),
            },
        },
{
    lemma_counted_on(sizes, size, true, first_offset, wanted);
}

/// The same, for a read that has entered its rows anywhere.
proof fn lemma_counted_on(sizes: Seq<int>, size: int, first: bool, offset: int, wanted: int)
    ensures
        counted(sizes.push(size), first, offset, wanted) == match counted(
            sizes,
            first,
            offset,
            wanted,
        ) {
            None => None,
            Some(before) => match span(
                first && sizes.len() == 0,
                if sizes.len() == 0 {
                    offset
                } else {
                    0
                },
                size,
                wanted - before,
            ) {
                None => None,
                Some(count) => Some(before + count),
            },
        },
    decreases sizes.len(),
{
    let longer = sizes.push(size);
    if sizes.len() == 0 {
        assert(longer.drop_first() =~= Seq::<int>::empty());
        reveal_with_fuel(counted, 2);
    } else {
        assert(longer[0] == sizes[0]);
        assert(longer.drop_first() =~= sizes.drop_first().push(size));
        match span(first, offset, sizes[0], wanted) {
            None => {},
            Some(count) => {
                lemma_counted_on(sizes.drop_first(), size, false, 0, wanted - count);
            },
        }
    }
}

/// The lengths of chunks.
pub open spec fn lengths(rows: Seq<Seq<u8>>) -> Seq<int> {
    rows.map_values(|row: Seq<u8>| row.len() as int)
}

/// The bytes that a read takes from chunks are as many as it counts from their lengths.
pub proof fn lemma_counted_of_taken(rows: Seq<Seq<u8>>, first: bool, offset: int, wanted: int)
    requires
        0 <= offset,
        first || offset == 0,
    ensures
        counted(lengths(rows), first, offset, wanted) == match taken(rows, first, offset, wanted) {
            Some(bytes) => Some(bytes.len() as int),
            None => None,
        },
    decreases rows.len(),
{
    if rows.len() > 0 {
        assert(lengths(rows).drop_first() =~= lengths(rows.drop_first()));
        assert(lengths(rows)[0] == rows[0].len());
        match span(first, offset, rows[0].len() as int, wanted) {
            None => {},
            Some(count) => {
                lemma_counted_of_taken(rows.drop_first(), false, 0, wanted - count);
                assert(rows[0].subrange(offset, offset + count).len() == count);
            },
        }
    }
}

/// The number of bytes that one sequential read asks for: as many as the buffer takes, and
/// no more than are left behind the cursor.
pub open spec fn step_length(buffer: int, size: int, cursor: int) -> int {
    vstd::math::min(buffer, size - cursor)
}

/// Where chunk number `number` begins in a content of `size` bytes cut at `chunk_size`,
/// and the end of the content for a chunk that would begin behind it.
pub open spec fn boundary(number: int, chunk_size: int, size: int) -> int {
    vstd::math::min(number * chunk_size, size)
}

/// The bytes of chunk number `number` of a content cut at `chunk_size`.
pub open spec fn chunk_of(content: Seq<u8>, chunk_size: int, number: int) -> Seq<u8> {
    content.subrange(
        boundary(number, chunk_size, content.len() as int),
        boundary(number + 1, chunk_size, content.len() as int),
    )
}

/// The chunks that a content is stored in when its source hands it out in full reads:
/// every chunk but the last is full, and the last is the first that is not. A content
/// that fills its chunks exactly, the empty content too, ends in an empty chunk.
pub open spec fn chunks_of(content: Seq<u8>, chunk_size: int) -> Seq<Seq<u8>> {
    Seq::new(
        (content.len() as int / chunk_size + 1) as nat,
        |number: int| chunk_of(content, chunk_size, number),
    )
}

/// The size that the store reports for a file: the lengths of its chunks, added up.
pub open spec fn stored_size(chunks: Seq<Seq<u8>>) -> int
    decreases chunks.len(),
{
    if chunks.len() == 0 {
        0
    } else {
        stored_size(chunks.drop_last()) + chunks.last().len()
    }
}

/// The chunks that the store hands to a read of `length` bytes from `index` on: those that
/// exist among the chunks numbered from `index / chunk_size` to
/// `(index + length - 1) / chunk_size`, in ascending order.
pub open spec fn selected(chunks: Seq<Seq<u8>>, chunk_size: int, index: int, length: int) -> Seq<
    Seq<u8>,
> {
    chunks.subrange(
        vstd::math::min(index / chunk_size, chunks.len() as int),
        vstd::math::min((index + length - 1) / chunk_size + 1, chunks.len() as int),
    )
}

/// The bytes that a read copies from the chunks it is handed, chunk by chunk, or nothing
/// where a chunk has no span for it.
pub open spec fn taken(rows: Seq<Seq<u8>>, first: bool, offset: int, wanted: int) -> Option<
    Seq<u8>,
>
    decreases rows.len(),
{
    if rows.len() == 0 {
        Some(Seq::empty())
    } else {
        match span(first, offset, rows[0].len() as int, wanted) {
            None => None,
            Some(count) => match taken(rows.drop_first(), false, 0, wanted - count) {
                None => None,
                Some(rest) => Some(rows[0].subrange(offset, offset + count) + rest),
            },
        }
    }
}

/// What a read of `length` bytes from `index` on gives for a file that is stored in
/// `chunks`: the bytes read, or nothing where the read is out of bounds.
pub open spec fn read_back(chunks: Seq<Seq<u8>>, chunk_size: int, index: int, length: int) -> Option<
    Seq<u8>,
> {
    let rows = selected(chunks, chunk_size, index, length);
    if length == 0 {
        Some(Seq::empty())
    } else if rows.len() == 0 {
        None
    } else {
        match first_offset(index, index / chunk_size, chunk_size) {
            None => None,
            Some(offset) => match taken(rows, true, offset, length) {
                Some(bytes) => if bytes.len() == length {
                    Some(bytes)
                } else {
                    None
                },
                None => None,
            },
        }
    }
}

/// A position lies in the chunk that its quotient by the chunk size numbers.
pub proof fn lemma_chunk_of_position(position: int, chunk_size: int)
    requires
        0 <= position,
        0 < chunk_size,
    ensures
        0 <= position / chunk_size,
        (position / chunk_size) * chunk_size <= position < (position / chunk_size + 1)
            * chunk_size,
        position - (position / chunk_size) * chunk_size == position % chunk_size,
{
    vstd::arithmetic::div_mod::lemma_fundamental_div_mod(position, chunk_size);
    vstd::arithmetic::div_mod::lemma_mod_bound(position, chunk_size);
    vstd::arithmetic::div_mod::lemma_div_pos_is_pos(position, chunk_size);
    let quotient = position / chunk_size;
    assert(chunk_size * quotient == quotient * chunk_size) by (nonlinear_arith);
    assert((quotient + 1) * chunk_size == quotient * chunk_size + chunk_size)
        by (nonlinear_arith);
}

/// Chunks begin one chunk size apart, in ascending order.
pub proof fn lemma_boundaries(number: int, chunk_size: int, size: int)
    requires
        0 <= number,
        0 < chunk_size,
        0 <= size,
    ensures
        (number + 1) * chunk_size == number * chunk_size + chunk_size,
        0 <= number * chunk_size,
        0 <= boundary(number, chunk_size, size) <= boundary(number + 1, chunk_size, size)
            <= size,
        number <= size / chunk_size ==> boundary(number, chunk_size, size) == number
            * chunk_size,
        number > size / chunk_size ==> boundary(number, chunk_size, size) == size,
{
    assert((number + 1) * chunk_size == number * chunk_size + chunk_size) by (nonlinear_arith);
    assert(0 <= number * chunk_size) by (nonlinear_arith)
        requires
            0 <= number,
            0 < chunk_size,
    ;
    lemma_chunk_of_position(size, chunk_size);
    let full = size / chunk_size;
    if number <= full {
        assert(number * chunk_size <= full * chunk_size) by (nonlinear_arith)
            requires
                number <= full,
                0 < chunk_size,
        ;
    } else {
        assert(number * chunk_size >= (full + 1) * chunk_size) by (nonlinear_arith)
            requires
                number >= full + 1,
                0 < chunk_size,
        ;
    }
}

/// The chunks before a given one hold the content up to where that chunk begins.
proof fn lemma_stored_prefix(content: Seq<u8>, chunk_size: int, count: int)
    requires
        0 < chunk_size,
        0 <= count <= chunks_of(content, chunk_size).len(),
    ensures
        stored_size(chunks_of(content, chunk_size).take(count)) == boundary(
            count,
            chunk_size,
            content.len() as int,
        ),
    decreases count,
{
    let chunks = chunks_of(content, chunk_size);
    if count == 0 {
        assert(0 * chunk_size == 0) by (nonlinear_arith);
    } else {
        lemma_stored_prefix(content, chunk_size, count - 1);
        lemma_boundaries(count - 1, chunk_size, content.len() as int);
        assert(chunks.take(count).drop_last() =~= chunks.take(count - 1));
        assert(chunks.take(count).last() == chunk_of(content, chunk_size, count - 1));
    }
}

/// The size that the store reports for a file is the number of bytes written to it.
pub proof fn lemma_stored_size(content: Seq<u8>, chunk_size: int)
    requires
        0 < chunk_size,
    ensures
        stored_size(chunks_of(content, chunk_size)) == content.len(),
{
    let chunks = chunks_of(content, chunk_size);
    let size = content.len() as int;
    lemma_chunk_of_position(size, chunk_size);
    lemma_stored_prefix(content, chunk_size, chunks.len() as int);
    assert(chunks.take(chunks.len() as int) =~= chunks);
    lemma_boundaries(size / chunk_size + 1, chunk_size, size);
}

/// A read that goes on at the beginning of a chunk takes the content from there on: as
/// much as it wants, and no more than the chunks it is handed hold.
proof fn lemma_taken_on(content: Seq<u8>, chunk_size: int, from: int, to: int, wanted: int)
    requires
        0 < chunk_size,
        0 <= from <= to <= chunks_of(content, chunk_size).len(),
        0 <= wanted,
    ensures
        taken(chunks_of(content, chunk_size).subrange(from, to), false, 0, wanted) == Some(
            content.subrange(
                boundary(from, chunk_size, content.len() as int),
                vstd::math::min(
                    boundary(from, chunk_size, content.len() as int) + wanted,
                    boundary(to, chunk_size, content.len() as int),
                ),
            ),
        ),
    decreases to - from,
{
    let size = content.len() as int;
    let chunks = chunks_of(content, chunk_size);
    let rows = chunks.subrange(from, to);
    let low = boundary(from, chunk_size, size);
    let high = boundary(to, chunk_size, size);
    lemma_boundaries(from, chunk_size, size);
    if from == to {
        assert(content.subrange(low, low) =~= Seq::<u8>::empty());
    } else {
        lemma_taken_on(content, chunk_size, from + 1, to, wanted - vstd::math::min(
            rows[0].len() as int,
            wanted,
        ));
        lemma_boundaries_ordered(from + 1, to, chunk_size, size);
        let next = boundary(from + 1, chunk_size, size);
        assert(rows[0] == chunk_of(content, chunk_size, from));
        assert(rows.drop_first() =~= chunks.subrange(from + 1, to));
        let count = vstd::math::min(rows[0].len() as int, wanted);
        assert(span(false, 0, rows[0].len() as int, wanted) == Some(count));
        let rest = content.subrange(next, vstd::math::min(next + wanted - count, high));
        assert(rows[0].subrange(0, count) =~= content.subrange(low, low + count));
        assert(content.subrange(low, low + count) + rest =~= content.subrange(
            low,
            vstd::math::min(low + wanted, high),
        ));
    }
}

/// A chunk does not begin before a chunk of a lower number.
proof fn lemma_boundaries_ordered(from: int, to: int, chunk_size: int, size: int)
    requires
        0 <= from <= to,
        0 < chunk_size,
        0 <= size,
    ensures
        boundary(from, chunk_size, size) <= boundary(to, chunk_size, size),
{
    assert(from * chunk_size <= to * chunk_size) by (nonlinear_arith)
        requires
            from <= to,
            0 < chunk_size,
    ;
}

/// Reading back what was written: a read inside the content gives exactly the bytes of
/// the content in its range, a read that reaches beyond the content is out of bounds, and
/// a read of no bytes gives no bytes wherever it starts.
pub proof fn lemma_read_back(content: Seq<u8>, chunk_size: int, index: int, length: int)
    requires
        0 < chunk_size,
        0 <= index,
        0 <= length,
    ensures
        read_back(chunks_of(content, chunk_size), chunk_size, index, length) == if length == 0 {
            Some(Seq::<u8>::empty())
        } else if index + length <= content.len() {
            Some(content.subrange(index, index + length))
        } else {
            None
        },
{
    let size = content.len() as int;
    let chunks = chunks_of(content, chunk_size);
    let rows = selected(chunks, chunk_size, index, length);
    if length > 0 {
        let first = index / chunk_size;
        let last = (index + length - 1) / chunk_size;
        lemma_chunk_of_position(index, chunk_size);
        lemma_chunk_of_position(index + length - 1, chunk_size);
        lemma_chunk_of_position(size, chunk_size);
        vstd::arithmetic::div_mod::lemma_div_is_ordered(index, index + length - 1, chunk_size);
        if first >= chunks.len() {
            // the read starts behind the last chunk
            assert(rows.len() == 0);
            if index <= size {
                vstd::arithmetic::div_mod::lemma_div_is_ordered(index, size, chunk_size);
            }
        } else {
            let to = vstd::math::min(last + 1, chunks.len() as int);
            lemma_boundaries(first, chunk_size, size);
            lemma_boundaries(to, chunk_size, size);
            lemma_boundaries_ordered(first + 1, to, chunk_size, size);
            let offset = index - first * chunk_size;
            assert(first_offset(index, first, chunk_size) == Some(offset));
            assert(rows[0] == chunk_of(content, chunk_size, first));
            let next = boundary(first + 1, chunk_size, size);
            let high = boundary(to, chunk_size, size);
            assert(rows[0].len() == next - first * chunk_size);
            if index >= size {
                assert(span(true, offset, rows[0].len() as int, length) is None);
            } else {
                let count = vstd::math::min(next - index, length);
                assert(span(true, offset, rows[0].len() as int, length) == Some(count));
                lemma_taken_on(content, chunk_size, first + 1, to, length - count);
                assert(rows.drop_first() =~= chunks.subrange(first + 1, to));
                let rest = content.subrange(
                    next,
                    vstd::math::min(next + length - count, high),
                );
                assert(rows[0].subrange(offset, offset + count) =~= content.subrange(
                    index,
                    index + count,
                ));
                let bytes = content.subrange(index, index + count) + rest;
                assert(taken(rows, true, offset, length) == Some(bytes));
                if index + length <= size {
                    if to == last + 1 {
                        assert(high >= index + length);
                    } else {
                        lemma_boundaries(size / chunk_size + 1, chunk_size, size);
                        assert(high == size);
                    }
                    assert(bytes =~= content.subrange(index, index + length));
                } else {
                    assert(bytes.len() < length);
                }
            }
        }
    }
}

/// Reading a file in full gives back what was written to it.
pub proof fn lemma_read_whole(content: Seq<u8>, chunk_size: int)
    requires
        0 < chunk_size,
    ensures
        read_back(chunks_of(content, chunk_size), chunk_size, 0, content.len() as int) == Some(
            content,
        ),
{
    lemma_read_back(content, chunk_size, 0, content.len() as int);
    assert(content.subrange(0, content.len() as int) =~= content);
}

/// Two reads that follow each other give the bytes of one read over both ranges: reading
/// on from a cursor in steps gives what one read gives.
pub proof fn lemma_read_in_steps(
    content: Seq<u8>,
    chunk_size: int,
    cursor: int,
    step: int,
    further: int,
)
    requires
        0 < chunk_size,
        0 <= cursor,
        0 <= step,
        0 <= further,
        cursor + step + further <= content.len(),
    ensures
        read_back(chunks_of(content, chunk_size), chunk_size, cursor, step) is Some,
        read_back(chunks_of(content, chunk_size), chunk_size, cursor + step, further) is Some,
        read_back(chunks_of(content, chunk_size), chunk_size, cursor, step + further) == Some(
            read_back(chunks_of(content, chunk_size), chunk_size, cursor, step)->0 + read_back(
                chunks_of(content, chunk_size),
                chunk_size,
                cursor + step,
                further,
            )->0,
        ),
{
    lemma_read_back(content, chunk_size, cursor, step);
    lemma_read_back(content, chunk_size, cursor + step, further);
    lemma_read_back(content, chunk_size, cursor, step + further);
    assert(content.subrange(cursor, cursor + step) + content.subrange(
        cursor + step,
        cursor + step + further,
    ) =~= content.subrange(cursor, cursor + step + further));
    assert(content.subrange(cursor, cursor) =~= Seq::<u8>::empty());
    assert(content.subrange(cursor + step, cursor + step) =~= Seq::<u8>::empty());
}

/// Whether chunks are what a file is written in: at least one chunk, every chunk but the
/// last one full, and the last one not full.
pub open spec fn is_cut(chunks: Seq<Seq<u8>>, chunk_size: int) -> bool {
    &&& chunks.len() > 0
    &&& forall|i: int| 0 <= i < chunks.len() - 1 ==> (#[trigger] chunks[i]).len() == chunk_size
    &&& chunks.last().len() < chunk_size
}

/// The content that chunks hold together: one chunk after the other.
pub open spec fn flat(chunks: Seq<Seq<u8>>) -> Seq<u8>
    decreases chunks.len(),
{
    if chunks.len() == 0 {
        Seq::empty()
    } else {
        flat(chunks.drop_last()) + chunks.last()
    }
}

/// Where all chunks but the last are full, every chunk lies in the content at the place
/// that its number gives, and the content is as long as the chunks together.
proof fn lemma_flat_places(chunks: Seq<Seq<u8>>, chunk_size: int)
    requires
        0 < chunk_size,
        chunks.len() > 0,
        forall|i: int| 0 <= i < chunks.len() - 1 ==> (#[trigger] chunks[i]).len() == chunk_size,
    ensures
        flat(chunks).len() == (chunks.len() - 1) * chunk_size + chunks.last().len(),
        forall|i: int|
            0 <= i < chunks.len() ==> flat(chunks).subrange(
                i * chunk_size,
                i * chunk_size + (#[trigger] chunks[i]).len(),
            ) == chunks[i],
    decreases chunks.len(),
{
    let count = chunks.len() as int;
    let front = chunks.drop_last();
    assert((count - 1) * chunk_size + chunk_size == count * chunk_size) by (nonlinear_arith);
    if count == 1 {
        assert(flat(front) =~= Seq::<u8>::empty());
        assert(0 * chunk_size == 0) by (nonlinear_arith);
        assert(flat(chunks) =~= chunks[0]);
        assert(flat(chunks).subrange(0, chunks[0].len() as int) =~= chunks[0]);
    } else {
        assert(front.last() == chunks[count - 2]);
        assert forall|i: int| 0 <= i < front.len() - 1 implies (#[trigger] front[i]).len()
            == chunk_size by {
            assert(front[i] == chunks[i]);
        }
        lemma_flat_places(front, chunk_size);
        assert((count - 2) * chunk_size + chunk_size == (count - 1) * chunk_size)
            by (nonlinear_arith);
        assert forall|i: int| 0 <= i < chunks.len() implies flat(chunks).subrange(
            i * chunk_size,
            i * chunk_size + (#[trigger] chunks[i]).len(),
        ) == chunks[i] by {
            if i == count - 1 {
                assert(flat(chunks).subrange(
                    i * chunk_size,
                    i * chunk_size + chunks[i].len(),
                ) =~= chunks[i]);
            } else {
                assert(front[i] == chunks[i]);
                assert((i + 1) * chunk_size <= (count - 1) * chunk_size) by (nonlinear_arith)
                    requires
                        i + 1 <= count - 1,
                        0 < chunk_size,
                ;
                assert((i + 1) * chunk_size == i * chunk_size + chunk_size)
                    by (nonlinear_arith);
                assert(0 <= i * chunk_size) by (nonlinear_arith)
                    requires
                        0 <= i,
                        0 < chunk_size,
                ;
                assert(flat(chunks).subrange(
                    i * chunk_size,
                    i * chunk_size + chunks[i].len(),
                ) =~= flat(front).subrange(i * chunk_size, i * chunk_size + front[i].len()));
            }
        }
    }
}

/// Chunks that a file is written in are the chunks of the content they hold together:
/// whatever holds of a content cut into chunks holds of every file that is written.
pub proof fn lemma_cut_is_layout(chunks: Seq<Seq<u8>>, chunk_size: int)
    requires
        0 < chunk_size,
        is_cut(chunks, chunk_size),
    ensures
        chunks_of(flat(chunks), chunk_size) == chunks,
{
    let content = flat(chunks);
    let size = content.len() as int;
    let count = chunks.len() as int;
    lemma_flat_places(chunks, chunk_size);
    vstd::arithmetic::div_mod::lemma_fundamental_div_mod_converse(
        size,
        chunk_size,
        count - 1,
        chunks.last().len() as int,
    );
    let cut = chunks_of(content, chunk_size);
    assert(cut.len() == count);
    assert forall|i: int| 0 <= i < count implies cut[i] == chunks[i] by {
        lemma_boundaries(i, chunk_size, size);
        lemma_boundaries(i + 1, chunk_size, size);
        assert(cut[i] == chunk_of(content, chunk_size, i));
        if i < count - 1 {
            assert((i + 1) * chunk_size == i * chunk_size + chunks[i].len());
        } else {
            assert(boundary(i + 1, chunk_size, size) == size);
        }
    }
    assert(cut =~= chunks);
}

/// Reading back any file that was written: the store reports the number of bytes that
/// the chunks hold together, a read inside the file gives exactly the bytes in its range,
/// a read that reaches beyond the file is out of bounds, and a read of no bytes gives no
/// bytes wherever it starts.
pub proof fn lemma_read_back_written(
    chunks: Seq<Seq<u8>>,
    chunk_size: int,
    index: int,
    length: int,
)
    requires
        0 < chunk_size,
        is_cut(chunks, chunk_size),
        0 <= index,
        0 <= length,
    ensures
        stored_size(chunks) == flat(chunks).len(),
        read_back(chunks, chunk_size, index, length) == if length == 0 {
            Some(Seq::<u8>::empty())
        } else if index + length <= flat(chunks).len() {
            Some(flat(chunks).subrange(index, index + length))
        } else {
            None
        },
{
    lemma_cut_is_layout(chunks, chunk_size);
    lemma_stored_size(flat(chunks), chunk_size);
    lemma_read_back(flat(chunks), chunk_size, index, length);
}

} // verus!
