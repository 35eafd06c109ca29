//! Views of strided byte memory as planes of 16-bit samples: in place where
//! the memory allows it, through a packed staging buffer where it does not,
//! and the way back from a staging buffer into the strided memory.

use crate::format::{check_plane, plane_fits, PixelError};
use crate::words::{
    bytes_of, cast_words, cast_words_mut, lemma_word_round_trip, ne_bytes, ne_word, word_byte,
    word_of, words_of,
};
use std::fmt::Debug;
use vstd::arithmetic::div_mod::lemma_fundamental_div_mod_converse;
use vstd::prelude::*;

verus! {

/// A plane that is either the caller's memory or a packed copy of it.
#[derive(Debug)]
pub enum SliceStore<'a, T: Copy + Debug> {
    Borrowed(&'a [T]),
    Owned(Vec<T>),
}

impl<'a, T: Copy + Debug> SliceStore<'a, T> {
    pub open spec fn view(&self) -> Seq<T> {
        match self {
            SliceStore::Borrowed(slice) => slice@,
            SliceStore::Owned(vec) => vec@,
        }
    }

    pub fn borrow(&self) -> (slice: &[T])
        ensures
            slice@ == self@,
    {
        match self {
            SliceStore::Borrowed(slice) => slice,
            SliceStore::Owned(vec) => vec.as_slice(),
        }
    }
}

/// A writable plane that is either the caller's memory or a staging buffer
/// that has to be written back.
#[derive(Debug)]
pub enum SliceStoreMut<'a, T: Copy + Debug> {
    Borrowed(&'a mut [T]),
    Owned(Vec<T>),
}

impl<'a, T: Copy + Debug> SliceStoreMut<'a, T> {
    pub open spec fn view(&self) -> Seq<T> {
        match self {
            SliceStoreMut::Borrowed(slice) => slice@,
            SliceStoreMut::Owned(vec) => vec@,
        }
    }

    pub fn borrow(&self) -> (slice: &[T])
        ensures
            slice@ == self@,
    {
        match self {
            SliceStoreMut::Borrowed(slice) => slice,
            SliceStoreMut::Owned(vec) => vec.as_slice(),
        }
    }

    /// Gives up the store: the staging buffer where there is one, to be
    /// written back; nothing where the store was the caller's memory, which
    /// then holds what was written through it.
    pub fn into_staged(self) -> (staged: Option<Vec<T>>)
        ensures
            match self {
                SliceStoreMut::Owned(vec) => staged == Some(vec),
                SliceStoreMut::Borrowed(slice) => staged is None && final(slice)@ == slice@,
            },
    {
        match self {
            SliceStoreMut::Owned(vec) => Some(vec),
            SliceStoreMut::Borrowed(_) => None,
        }
    }

    pub fn borrow_mut(&mut self) -> (slice: &mut [T])
        ensures
            slice@ == old(self)@,
            final(self)@ == final(slice)@,
            match *old(self) {
                SliceStoreMut::Borrowed(before) => *final(self) matches SliceStoreMut::Borrowed(
                    after,
                ) && final(after)@ == final(before)@,
                SliceStoreMut::Owned(_) => *final(self) is Owned,
            },
    {
        match self {
            SliceStoreMut::Borrowed(slice) => slice,
            SliceStoreMut::Owned(vec) => vec.as_mut_slice(),
        }
    }
}

/// The samples of a plane of `rows` rows of `row` words, read from bytes
/// whose rows start `stride` bytes apart: sample `c` of row `r` is spelled by
/// the two bytes at `r * stride + 2 * c`. Bytes between the rows are skipped.
pub open spec fn unpack_words(bytes: Seq<u8>, stride: int, row: int, rows: int) -> Seq<u16> {
    Seq::new(
        (row * rows) as nat,
        |k: int|
            word_of(
                bytes[(k / row) * stride + 2 * (k % row)],
                bytes[(k / row) * stride + 2 * (k % row) + 1],
            ),
    )
}

/// Whether unit `j` of a strided buffer belongs to a sample, and not to the
/// padding behind a row or to what follows the last row. A row has `n`
/// units of samples; rows start `stride` units apart.
pub open spec fn in_pixels(j: int, stride: int, n: int, rows: int) -> bool {
    0 <= j < stride * rows && j % stride < n
}

/// The bytes `base` after the packed samples `words` have been written into
/// them, rows `stride` bytes apart. Bytes that belong to no sample are those
/// of `base`.
pub open spec fn pack_words(base: Seq<u8>, words: Seq<u16>, stride: int, row: int, rows: int) -> Seq<
    u8,
> {
    Seq::new(
        base.len(),
        |j: int|
            if in_pixels(j, stride, 2 * row, rows) {
                word_byte(words[(j / stride) * row + (j % stride) / 2], (j % stride) % 2)
            } else {
                base[j]
            },
    )
}

/// Two buffers agree on every unit that belongs to no sample.
pub open spec fn same_padding<T>(a: Seq<T>, b: Seq<T>, stride: int, n: int, rows: int) -> bool {
    &&& a.len() == b.len()
    &&& forall|j: int| 0 <= j < a.len() && !in_pixels(j, stride, n, rows) ==> #[trigger] b[j] == a[j]
}

/// Two buffers agree on every unit from `from` on.
pub open spec fn same_tail<T>(a: Seq<T>, b: Seq<T>, from: int) -> bool {
    &&& a.len() == b.len()
    &&& forall|j: int| from <= j < a.len() && 0 <= j ==> #[trigger] b[j] == a[j]
}

/// Rows that lie back to back have no padding between them: a buffer of
/// such rows has kept its padding where it has kept what follows them.
pub proof fn lemma_packed_rows_have_no_padding<T>(base: Seq<T>, after: Seq<T>, stride: int, rows: int)
    requires
        0 <= stride,
        same_tail(base, after, stride * rows),
    ensures
        same_padding(base, after, stride, stride, rows),
{
    assert forall|j: int| 0 <= j < base.len() && !in_pixels(j, stride, stride, rows) implies after[j]
        == base[j] by {
        if j < stride * rows {
            assert(stride > 0) by (nonlinear_arith)
                requires
                    0 <= j < stride * rows,
                    0 <= stride,
            ;
        }
    }
}

/// A buffer whose leading rows kept their padding and whose units behind
/// those rows are unchanged has kept all of its padding.
pub proof fn lemma_padding_of_leading_rows<T>(
    base: Seq<T>,
    after: Seq<T>,
    stride: int,
    n: int,
    rows: int,
)
    requires
        0 <= stride * rows <= base.len(),
        same_tail(base, after, stride * rows),
        same_padding(
            base.subrange(0, stride * rows),
            after.subrange(0, stride * rows),
            stride,
            n,
            rows,
        ),
    ensures
        same_padding(base, after, stride, n, rows),
{
    let head = base.subrange(0, stride * rows);
    let head_after = after.subrange(0, stride * rows);
    assert forall|j: int| 0 <= j < base.len() && !in_pixels(j, stride, n, rows) implies after[j]
        == base[j] by {
        if j < stride * rows {
            assert(head_after[j] == head[j]);
        }
    }
}

/// A unit inside row `r` has `r` as its row and its offset in the row as
/// its column.
pub(crate) proof fn lemma_cell(j: int, unit: int, r: int)
    requires
        unit > 0,
        r * unit <= j < r * unit + unit,
    ensures
        j / unit == r,
        j % unit == j - r * unit,
{
    lemma_fundamental_div_mod_converse(j, unit, r, j - r * unit);
}

/// Every row of a plane that fits its buffer lies inside the buffer.
pub(crate) proof fn lemma_rows_within(r: int, rows: int, stride: int, len: int)
    requires
        0 <= r < rows,
        0 <= stride,
        stride * rows <= len,
    ensures
        0 <= r * stride,
        r * stride + stride <= len,
        r * stride + stride <= stride * rows,
{
    assert(r * stride + stride <= stride * rows) by (nonlinear_arith)
        requires
            0 <= r < rows,
            0 <= stride,
    ;
    assert(0 <= r * stride) by (nonlinear_arith)
        requires
            0 <= r,
            0 <= stride,
    ;
}

/// Copies a strided plane into a packed staging buffer with unaligned
/// native-order reads.
pub fn stage_words(bytes: &[u8], stride: usize, row: usize, rows: usize) -> (out: Vec<u16>)
    requires
        plane_fits(bytes@.len() as int, stride as int, 2 * row, rows as int),
    ensures
        out@ == unpack_words(bytes@, stride as int, row as int, rows as int),
{
    let len = bytes.len();
    let mut out: Vec<u16> = Vec::new();
    let mut r: usize = 0;
    let mut start: usize = 0;
    assert(unpack_words(bytes@, stride as int, row as int, 0).len() == 0) by {
        assert(row * 0 == 0);
    }
    while r < rows
        invariant
            plane_fits(bytes@.len() as int, stride as int, 2 * row, rows as int),
            len == bytes@.len(),
            r <= rows,
            start == r * stride,
            out@ =~= unpack_words(bytes@, stride as int, row as int, r as int),
        decreases rows - r,
    {
        proof {
            lemma_rows_within(r as int, rows as int, stride as int, bytes@.len() as int);
        }
        let ghost done = out@;
        let mut c: usize = 0;
        while c < row
            invariant
                plane_fits(bytes@.len() as int, stride as int, 2 * row, rows as int),
                len == bytes@.len(),
                r < rows,
                c <= row,
                start == r * stride,
                start + stride <= bytes@.len(),
                done == unpack_words(bytes@, stride as int, row as int, r as int),
                out@.len() == r * row + c,
                done.len() == r * row,
                forall|k: int| 0 <= k < r * row ==> out@[k] == done[k],
                forall|k: int|
                    r * row <= k < r * row + c ==> #[trigger] out@[k] == word_of(
                        bytes@[r * stride + 2 * (k - r * row)],
                        bytes@[r * stride + 2 * (k - r * row) + 1],
                    ),
            decreases row - c,
        {
            let w = ne_word(bytes[start + 2 * c], bytes[start + 2 * c + 1]);
            out.push(w);
            c += 1;
        }
        proof {
            let next = unpack_words(bytes@, stride as int, row as int, r + 1);
            assert(row * (r + 1) == r * row + row) by (nonlinear_arith);
            assert(row * r == r * row) by (nonlinear_arith);
            assert forall|k: int| 0 <= k < out@.len() implies out@[k] == next[k] by {
                if k < r * row {
                    assert(out@[k] == done[k]);
                } else {
                    lemma_cell(k, row as int, r as int);
                }
            }
            assert(out@ =~= next);
        }
        start += stride;
        r += 1;
        assert(start == r * stride) by (nonlinear_arith)
            requires
                start == (r - 1) * stride + stride,
        ;
    }
    out
}

/// A packed tightly strided plane is spelled by its bytes one word after
/// the other.
pub proof fn lemma_packed_plane_is_words(bytes: Seq<u8>, row: int, rows: int)
    requires
        0 <= row,
        0 <= rows,
        2 * (row * rows) <= bytes.len(),
    ensures
        unpack_words(bytes, 2 * row, row, rows) == words_of(bytes.subrange(0, 2 * (row * rows))),
{
    let head = bytes.subrange(0, 2 * (row * rows));
    let a = unpack_words(bytes, 2 * row, row, rows);
    let b = words_of(head);
    assert forall|k: int| 0 <= k < a.len() implies a[k] == b[k] by {
        let r = k / row;
        let c = k % row;
        assert(row > 0) by (nonlinear_arith)
            requires
                0 <= k < row * rows,
                0 <= row,
        ;
        assert(k == r * row + c && 0 <= c < row) by (nonlinear_arith)
            requires
                r == k / row,
                c == k % row,
                row > 0,
        ;
        assert(r * (2 * row) + 2 * c == 2 * k) by (nonlinear_arith)
            requires
                k == r * row + c,
        ;
    }
    assert(a =~= b);
}

/// A view of a strided plane of 16-bit samples: the caller's memory itself
/// where it is packed and its address admits words, a staged copy
/// otherwise. Either way the view holds the same samples.
pub fn view_words<'a>(bytes: &'a [u8], stride: usize, row: usize, rows: usize) -> (view: SliceStore<
    'a,
    u16,
>)
    requires
        plane_fits(bytes@.len() as int, stride as int, 2 * row, rows as int),
    ensures
        view@ == unpack_words(bytes@, stride as int, row as int, rows as int),
        view is Borrowed ==> stride == 2 * row,
{
    let len = bytes.len();
    if stride == 2 * row {
        proof {
            assert(stride * rows == 2 * (row * rows)) by (nonlinear_arith)
                requires
                    stride == 2 * row,
            ;
            lemma_packed_plane_is_words(bytes@, row as int, rows as int);
        }
        let head = vstd::slice::slice_subrange(bytes, 0, stride * rows);
        match cast_words(head) {
            Ok(words) => {
                return SliceStore::Borrowed(words);
            },
            Err(_) => {},
        }
    }
    SliceStore::Owned(stage_words(bytes, stride, row, rows))
}

/// Validates the geometry of a plane of `width * chans` 16-bit samples per
/// row and gives a view of it together with the view's stride in samples.
pub fn view_plane16<'a>(
    bytes: &'a [u8],
    stride: u32,
    width: u32,
    height: u32,
    chans: u8,
) -> (r: Result<(SliceStore<'a, u16>, usize), PixelError>)
    ensures
        r is Ok <==> plane_fits(
            bytes@.len() as int,
            stride as int,
            2 * (width * chans),
            height as int,
        ),
        r is Err ==> r->Err_0 == PixelError::GeometryViolation,
        r is Ok ==> r->Ok_0.1 == width * chans && r->Ok_0.0@ == unpack_words(
            bytes@,
            stride as int,
            width * chans,
            height as int,
        ),
{
    assert(width * chans <= 0xffff_ffff * 0xff) by (nonlinear_arith)
        requires
            0 <= width <= 0xffff_ffff,
            0 <= chans <= 0xff,
    ;
    let row: u64 = (width as u64) * (chans as u64);
    if !check_plane(bytes.len(), stride, 2 * row, height) {
        return Err(PixelError::GeometryViolation);
    }
    let view = view_words(bytes, stride as usize, row as usize, height as usize);
    Ok((view, row as usize))
}

/// Writes a packed staging buffer back into strided memory with unaligned
/// native-order writes. Padding and whatever follows the last row keep their
/// bytes.
pub fn write_back_words(words: &[u16], bytes: &mut [u8], stride: usize, row: usize, rows: usize)
    requires
        plane_fits(old(bytes)@.len() as int, stride as int, 2 * row, rows as int),
        words@.len() == row * rows,
    ensures
        final(bytes)@ == pack_words(old(bytes)@, words@, stride as int, row as int, rows as int),
{
    let len = bytes.len();
    let count = words.len();
    let mut r: usize = 0;
    let mut start: usize = 0;
    let mut first: usize = 0;
    assert(bytes@ =~= pack_words(old(bytes)@, words@, stride as int, row as int, 0)) by {
        assert(stride * 0 == 0);
    }
    while r < rows
        invariant
            plane_fits(len as int, stride as int, 2 * row, rows as int),
            len == bytes@.len(),
            len == old(bytes)@.len(),
            words@.len() == row * rows,
            count == words@.len(),
            r <= rows,
            start == r * stride,
            first == r * row,
            bytes@ =~= pack_words(old(bytes)@, words@, stride as int, row as int, r as int),
        decreases rows - r,
    {
        proof {
            lemma_rows_within(r as int, rows as int, stride as int, len as int);
            lemma_rows_within(r as int, rows as int, row as int, words@.len() as int);
        }
        let ghost done = bytes@;
        let mut c: usize = 0;
        while c < row
            invariant
                plane_fits(len as int, stride as int, 2 * row, rows as int),
                len == bytes@.len(),
                words@.len() == row * rows,
                count == words@.len(),
                r < rows,
                c <= row,
                start == r * stride,
                start + stride <= len,
                first == r * row,
                first + row <= words@.len(),
                done.len() == len,
                forall|j: int|
                    0 <= j < len ==> #[trigger] bytes@[j] == (if start <= j < start + 2 * c {
                        word_byte(words@[first + (j - start) / 2], (j - start) % 2)
                    } else {
                        done[j]
                    }),
            decreases row - c,
        {
            let pair = ne_bytes(words[first + c]);
            bytes[start + 2 * c] = pair[0];
            bytes[start + 2 * c + 1] = pair[1];
            c += 1;
        }
        proof {
            let base = old(bytes)@;
            let next = pack_words(base, words@, stride as int, row as int, r + 1);
            assert(stride * (r + 1) == r * stride + stride) by (nonlinear_arith);
            assert(stride * r == r * stride) by (nonlinear_arith);
            assert forall|j: int| 0 <= j < len implies bytes@[j] == next[j] by {
                if start <= j < start + stride {
                    lemma_cell(j, stride as int, r as int);
                }
            }
            assert(bytes@ =~= next);
        }
        start += stride;
        first += row;
        r += 1;
        proof {
            assert(start == r * stride) by (nonlinear_arith)
                requires
                    start == (r - 1) * stride + stride,
            ;
            assert(first == r * row) by (nonlinear_arith)
                requires
                    first == (r - 1) * row + row,
            ;
        }
    }
}

/// Writing a plane back keeps every byte that belongs to no sample.
pub proof fn lemma_pack_keeps_padding(
    base: Seq<u8>,
    words: Seq<u16>,
    stride: int,
    row: int,
    rows: int,
)
    ensures
        same_padding(base, pack_words(base, words, stride, row, rows), stride, 2 * row, rows),
{
}

/// What is written back is what a later view reads: a view of the
/// written-back bytes holds exactly the staged samples.
pub proof fn lemma_view_of_written_back(
    base: Seq<u8>,
    words: Seq<u16>,
    stride: int,
    row: int,
    rows: int,
)
    requires
        plane_fits(base.len() as int, stride, 2 * row, rows),
        words.len() == row * rows,
    ensures
        unpack_words(pack_words(base, words, stride, row, rows), stride, row, rows) == words,
{
    let packed = pack_words(base, words, stride, row, rows);
    let back = unpack_words(packed, stride, row, rows);
    assert forall|k: int| 0 <= k < words.len() implies back[k] == words[k] by {
        assert(row > 0) by (nonlinear_arith)
            requires
                0 <= k < row * rows,
                0 <= row,
        ;
        let r = k / row;
        let c = k % row;
        assert(k == r * row + c && 0 <= c < row && 0 <= r < rows) by (nonlinear_arith)
            requires
                r == k / row,
                c == k % row,
                row > 0,
                0 <= k < row * rows,
        ;
        lemma_rows_within(r, rows, stride, base.len() as int);
        let p = r * stride + 2 * c;
        lemma_cell(p, stride, r);
        lemma_cell(p + 1, stride, r);
        lemma_word_round_trip(words[k], 0, 0);
    }
    assert(back =~= words);
}

/// Staging a plane and writing the staged samples back unchanged leaves the
/// caller's memory as it was.
pub proof fn lemma_write_back_of_view(bytes: Seq<u8>, stride: int, row: int, rows: int)
    requires
        plane_fits(bytes.len() as int, stride, 2 * row, rows),
    ensures
        pack_words(bytes, unpack_words(bytes, stride, row, rows), stride, row, rows) == bytes,
{
    let words = unpack_words(bytes, stride, row, rows);
    let packed = pack_words(bytes, words, stride, row, rows);
    assert forall|j: int| 0 <= j < bytes.len() implies packed[j] == bytes[j] by {
        if in_pixels(j, stride, 2 * row, rows) {
            assert(stride > 0) by (nonlinear_arith)
                requires
                    0 <= j < stride * rows,
                    0 <= rows,
            ;
            let r = j / stride;
            let o = j % stride;
            assert(j == r * stride + o && 0 <= o < stride && 0 <= r < rows) by (nonlinear_arith)
                requires
                    r == j / stride,
                    o == j % stride,
                    stride > 0,
                    0 <= j < stride * rows,
            ;
            let c = o / 2;
            let k = r * row + c;
            lemma_cell(k, row, r);
            lemma_rows_within(r, rows, row, row * rows);
            lemma_word_round_trip(0, bytes[r * stride + 2 * c], bytes[r * stride + 2 * c + 1]);
        }
    }
    assert(packed =~= bytes);
}

/// The two ways of writing a packed plane leave byte-identical memory:
/// words written in place through a reinterpreted view, and words staged and
/// written back. `after` is the memory after the in-place write.
pub proof fn lemma_in_place_is_write_back(
    base: Seq<u8>,
    after: Seq<u8>,
    words: Seq<u16>,
    row: int,
    rows: int,
)
    requires
        0 <= row,
        0 <= rows,
        2 * (row * rows) <= base.len(),
        words.len() == row * rows,
        after == bytes_of(words) + base.subrange(2 * (row * rows), base.len() as int),
    ensures
        after == pack_words(base, words, 2 * row, row, rows),
{
    let packed = pack_words(base, words, 2 * row, row, rows);
    assert(2 * (row * rows) == (2 * row) * rows) by (nonlinear_arith);
    assert forall|j: int| 0 <= j < base.len() implies after[j] == packed[j] by {
        if j < 2 * (row * rows) {
            assert(row > 0) by (nonlinear_arith)
                requires
                    0 <= j < 2 * (row * rows),
                    0 <= row,
            ;
            let r = j / (2 * row);
            let o = j % (2 * row);
            assert(j == r * (2 * row) + o && 0 <= o < 2 * row && 0 <= r < rows)
                by (nonlinear_arith)
                requires
                    r == j / (2 * row),
                    o == j % (2 * row),
                    row > 0,
                    0 <= j < (2 * row) * rows,
            ;
            assert(j / 2 == r * row + o / 2 && j % 2 == o % 2) by {
                assert(j == 2 * (r * row) + o) by (nonlinear_arith)
                    requires
                        j == r * (2 * row) + o,
                ;
            }
        }
    }
    assert(after =~= packed);
}

impl<'a> SliceStoreMut<'a, u16> {
    /// The plane that a conversion writes its 16-bit result into: the
    /// caller's memory itself where it is packed and its address admits
    /// words, a zeroed staging buffer otherwise. Nothing is copied in.
    pub fn working(bytes: &'a mut [u8], stride: usize, row: usize, rows: usize) -> (store:
        SliceStoreMut<'a, u16>)
        requires
            plane_fits(old(bytes)@.len() as int, stride as int, 2 * row, rows as int),
        ensures
            store@.len() == row * rows,
            match store {
                SliceStoreMut::Borrowed(words) => stride == 2 * row && 2 * (row * rows) <= old(
                    bytes,
                )@.len() && final(bytes)@ == bytes_of(final(words)@) + old(bytes)@.subrange(
                    2 * (row * rows),
                    old(bytes)@.len() as int,
                ),
                SliceStoreMut::Owned(staging) => final(bytes)@ == old(bytes)@ && forall|k: int|
                    0 <= k < row * rows ==> staging@[k] == 0,
            },
    {
        let len = bytes.len();
        if stride == 2 * row {
            proof {
                assert(stride * rows == 2 * (row * rows)) by (nonlinear_arith)
                    requires
                        stride == 2 * row,
                ;
            }
            let (head, _tail) = bytes.split_at_mut(stride * rows);
            match cast_words_mut(head) {
                Ok(words) => {
                    return SliceStoreMut::Borrowed(words);
                },
                Err(_) => {},
            }
        }
        assert(row * rows <= stride * rows) by (nonlinear_arith)
            requires
                0 <= 2 * row <= stride,
                0 <= rows,
        ;
        SliceStoreMut::Owned(vec![0u16; row * rows])
    }
}

/// The last step of every conversion into 16-bit memory. `staged` is what
/// the working store gave up, `produced` what the store held then, `base`
/// the destination before the store was made. A staging buffer is written
/// back if the conversion succeeded and dropped if it failed. Afterwards a
/// successful conversion has left the same bytes whichever store it worked
/// on, and no byte outside the samples has changed.
pub(crate) fn write_back_if_staged(
    staged: Option<Vec<u16>>,
    succeeded: bool,
    bytes: &mut [u8],
    stride: usize,
    row: usize,
    rows: usize,
    Ghost(base): Ghost<Seq<u8>>,
    Ghost(produced): Ghost<Seq<u16>>,
)
    requires
        plane_fits(base.len() as int, stride as int, 2 * row, rows as int),
        produced.len() == row * rows,
        match staged {
            Some(staging) => staging@ == produced && old(bytes)@ == base,
            None => stride == 2 * row && 2 * (row * rows) <= base.len() && old(bytes)@ == bytes_of(
                produced,
            ) + base.subrange(2 * (row * rows), base.len() as int),
        },
    ensures
        same_padding(base, final(bytes)@, stride as int, 2 * row, rows as int),
        succeeded ==> final(bytes)@ == pack_words(
            base,
            produced,
            stride as int,
            row as int,
            rows as int,
        ),
        staged is Some && !succeeded ==> final(bytes)@ == base,
{
    proof {
        lemma_pack_keeps_padding(base, produced, stride as int, row as int, rows as int);
    }
    match staged {
        Some(staging) => {
            if succeeded {
                write_back_words(staging.as_slice(), bytes, stride, row, rows);
            }
        },
        None => {
            proof {
                lemma_in_place_is_write_back(base, bytes@, produced, row as int, rows as int);
            }
        },
    }
}

} // verus!
