//! Resampling of RGBA images through the outside scaling engine.

use crate::format::{check_plane_wide, plane_fits, reaches_kernel, settles, PixelError};
use crate::icc::{copy_rows, lemma_copy_keeps_padding, rows_copied};
use crate::planes::{check_packed, packed_fits};
use crate::support::{
    in_pixels, lemma_cell, lemma_packed_rows_have_no_padding, lemma_rows_within,
    lemma_view_of_written_back, same_padding, unpack_words, view_words, write_back_if_staged,
    SliceStoreMut,
};
use vstd::prelude::*;

verus! {

#[verifier::external_type_specification]
#[verifier::external_body]
pub struct ExScaler(pic_scale::Scaler);

#[verifier::external_type_specification]
#[verifier::external_body]
pub struct ExPicScaleError(pic_scale::PicScaleError);

/// The resampling filters on offer.
#[derive(Copy, Clone, Debug, PartialEq, Eq, Structural)]
pub enum ScaleFilter {
    Nearest,
    Bilinear,
    Lanczos3,
}

impl ScaleFilter {
    /// The filter that a method number selects: 1 is nearest neighbour, 3 is
    /// Lanczos with three lobes, every other number is bilinear.
    pub open spec fn of_method(method: u32) -> ScaleFilter {
        if method == 3 {
            ScaleFilter::Lanczos3
        } else if method == 1 {
            ScaleFilter::Nearest
        } else {
            ScaleFilter::Bilinear
        }
    }

    pub fn from_method(method: u32) -> (filter: ScaleFilter)
        ensures
            filter == Self::of_method(method),
    {
        if method == 3 {
            ScaleFilter::Lanczos3
        } else if method == 1 {
            ScaleFilter::Nearest
        } else {
            ScaleFilter::Bilinear
        }
    }
}

/// Every sample of `rows` rows of `n` samples in `target` equals the sample
/// at the same place in `source`.
pub open spec fn same_pixels<T>(
    source: Seq<T>,
    src_stride: int,
    target: Seq<T>,
    dst_stride: int,
    n: int,
    rows: int,
) -> bool {
    forall|j: int|
        in_pixels(j, dst_stride, n, rows) ==> #[trigger] target[j] == source[(j / dst_stride)
            * src_stride + j % dst_stride]
}

/// An image without pixels agrees with every other.
proof fn lemma_no_pixels<T>(
    source: Seq<T>,
    src_stride: int,
    target: Seq<T>,
    dst_stride: int,
    n: int,
    rows: int,
)
    requires
        n == 0 || rows == 0,
        0 <= dst_stride,
    ensures
        same_pixels(source, src_stride, target, dst_stride, n, rows),
{
    assert(rows == 0 ==> dst_stride * rows == 0);
    assert forall|j: int| !in_pixels(j, dst_stride, n, rows) by {
        if rows != 0 && 0 <= j < dst_stride * rows {
            assert(dst_stride > 0) by (nonlinear_arith)
                requires
                    0 <= j < dst_stride * rows,
                    0 <= dst_stride,
            ;
        }
    }
}

/// Pixels that agree between the leading rows of a source and the leading
/// rows of a target agree between the whole buffers.
proof fn lemma_same_pixels_within<T>(
    source: Seq<T>,
    src_stride: int,
    written: Seq<T>,
    target: Seq<T>,
    dst_stride: int,
    n: int,
    rows: int,
    dst_rows: int,
)
    requires
        0 <= n <= src_stride,
        n <= dst_stride,
        0 <= rows,
        src_stride * rows <= source.len(),
        written.len() == dst_stride * dst_rows,
        written.len() <= target.len(),
        target.subrange(0, written.len() as int) == written,
    ensures
        rows == dst_rows && same_pixels(
            source.subrange(0, src_stride * rows),
            src_stride,
            written,
            dst_stride,
            n,
            rows,
        ) ==> same_pixels(source, src_stride, target, dst_stride, n, rows),
{
    let head = source.subrange(0, src_stride * rows);
    if rows == dst_rows && same_pixels(head, src_stride, written, dst_stride, n, rows) {
        assert forall|j: int| in_pixels(j, dst_stride, n, rows) implies #[trigger] target[j]
            == source[(j / dst_stride) * src_stride + j % dst_stride] by {
            assert(dst_stride > 0) by (nonlinear_arith)
                requires
                    0 <= j < dst_stride * rows,
                    0 <= rows,
            ;
            let r = j / dst_stride;
            let c = j % dst_stride;
            assert(j == r * dst_stride + c && 0 <= c < dst_stride && 0 <= r < rows)
                by (nonlinear_arith)
                requires
                    r == j / dst_stride,
                    c == j % dst_stride,
                    dst_stride > 0,
                    0 <= j < dst_stride * rows,
            ;
            lemma_rows_within(r, rows, src_stride, source.len() as int);
            assert(written[j] == head[r * src_stride + c]);
            assert(target.subrange(0, written.len() as int)[j] == target[j]);
        }
    }
}

/// Pixels that agree between a packed copy of a source and a packed image
/// agree between the source and a target that the rows of that image were
/// copied into.
proof fn lemma_same_pixels_through_copies<T>(
    src: Seq<T>,
    src_stride: int,
    blank: Seq<T>,
    produced: Seq<T>,
    base: Seq<T>,
    dst_stride: int,
    n: int,
    rows: int,
)
    requires
        plane_fits(src.len() as int, src_stride, n, rows),
        plane_fits(base.len() as int, dst_stride, n, rows),
        blank.len() == n * rows,
        produced.len() == n * rows,
        same_pixels(rows_copied(blank, src, src_stride, n, n, rows), n, produced, n, n, rows),
    ensures
        same_pixels(
            src,
            src_stride,
            rows_copied(base, produced, n, dst_stride, n, rows),
            dst_stride,
            n,
            rows,
        ),
{
    let packed = rows_copied(blank, src, src_stride, n, n, rows);
    let target = rows_copied(base, produced, n, dst_stride, n, rows);
    assert forall|j: int| in_pixels(j, dst_stride, n, rows) implies #[trigger] target[j] == src[(j
        / dst_stride) * src_stride + j % dst_stride] by {
        assert(dst_stride > 0) by (nonlinear_arith)
            requires
                0 <= j < dst_stride * rows,
                0 <= dst_stride,
        ;
        let r = j / dst_stride;
        let c = j % dst_stride;
        assert(0 <= r < rows && j == r * dst_stride + c) by (nonlinear_arith)
            requires
                r == j / dst_stride,
                c == j % dst_stride,
                dst_stride > 0,
                0 <= j < dst_stride * rows,
        ;
        let k = r * n + c;
        lemma_rows_within(r, rows, n, n * rows);
        lemma_cell(k, n, r);
        assert(in_pixels(k, n, n, rows));
        assert(target[j] == produced[k]);
        assert(produced[k] == packed[k]);
        assert(packed[k] == src[r * src_stride + c]);
    }
}

/// `pic_scale::Scaler::new`: a scaler with the given filter.
#[verifier::external_body]
pub(crate) fn new_scaler(filter: ScaleFilter) -> pic_scale::Scaler {
    pic_scale::Scaler::new(match filter {
        ScaleFilter::Nearest => pic_scale::ResamplingFunction::Nearest,
        ScaleFilter::Bilinear => pic_scale::ResamplingFunction::Bilinear,
        ScaleFilter::Lanczos3 => pic_scale::ResamplingFunction::Lanczos3,
    })
}

/// `pic_scale::Scaling::set_threading_policy` with the adaptive policy,
/// which lets the engine choose its number of threads by the image size.
#[verifier::external_body]
pub(crate) fn adaptive_threads(scaler: pic_scale::Scaler) -> pic_scale::Scaler {
    let mut scaler = scaler;
    pic_scale::Scaling::set_threading_policy(&mut scaler, pic_scale::ThreadingPolicy::Adaptive);
    scaler
}

/// `pic_scale::Scaler::set_workload_strategy` with the strategy that
/// prefers quality to speed.
#[verifier::external_body]
pub(crate) fn prefer_quality(scaler: pic_scale::Scaler) -> pic_scale::Scaler {
    let mut scaler = scaler;
    scaler.set_workload_strategy(pic_scale::WorkloadStrategy::PreferQuality);
    scaler
}

/// `pic_scale::Scaling::resize_rgba` on borrowed 8-bit stores of four
/// channels. The engine refuses an empty image and a store whose buffer is
/// not exactly `stride * height` long, and its nearest-neighbour path walks
/// both buffers as rows that lie back to back, whatever the strides say. So
/// the contract asks for images that are not empty, in buffers that hold
/// their rows without padding and nothing more. Of the pixels written the
/// contract claims one thing, which the engine does before it looks at the
/// filter: where source and target have the same size it copies the rows
/// and succeeds. For any other size it reserves working memory and reports
/// it if there is none, so whether it succeeds then is left open. The
/// target keeps its length.
#[verifier::external_body]
pub(crate) fn resize_rgba8(
    scaler: &pic_scale::Scaler,
    source: &[u8],
    src_stride: usize,
    width: usize,
    height: usize,
    target: &mut [u8],
    dst_stride: usize,
    new_width: usize,
    new_height: usize,
    premultiply_alpha: bool,
) -> (r: Result<(), pic_scale::PicScaleError>)
    requires
        width > 0 && height > 0 && new_width > 0 && new_height > 0,
        src_stride == 4 * width,
        dst_stride == 4 * new_width,
        source@.len() == src_stride * height,
        old(target)@.len() == dst_stride * new_height,
    ensures
        final(target)@.len() == old(target)@.len(),
        width == new_width && height == new_height ==> r is Ok,
        r is Ok && width == new_width && height == new_height ==> same_pixels(
            source@,
            src_stride as int,
            final(target)@,
            dst_stride as int,
            4 * width,
            height as int,
        ),
{
    let buffer = std::borrow::Cow::Borrowed(source);
    let store = pic_scale::ImageStore::<u8, 4> {
        buffer, channels: 4, width, height, stride: src_stride, bit_depth: 8,
    };
    let buffer = pic_scale::BufferStore::Borrowed(target);
    let mut into = pic_scale::ImageStoreMut::<u8, 4> {
        buffer, channels: 4, width: new_width, height: new_height, stride: dst_stride, bit_depth: 8,
    };
    pic_scale::Scaling::resize_rgba(scaler, &store, &mut into, premultiply_alpha)
}

/// `pic_scale::ScalingU16::resize_rgba_u16` on borrowed stores of 16-bit
/// words, four channels. As `resize_rgba8`; the engine is documented to
/// panic on a bit depth outside 1 to 16, so the depth is asked to lie there.
#[verifier::external_body]
pub(crate) fn resize_rgba16(
    scaler: &pic_scale::Scaler,
    source: &[u16],
    src_stride: usize,
    width: usize,
    height: usize,
    target: &mut [u16],
    dst_stride: usize,
    new_width: usize,
    new_height: usize,
    bit_depth: usize,
    premultiply_alpha: bool,
) -> (r: Result<(), pic_scale::PicScaleError>)
    requires
        width > 0 && height > 0 && new_width > 0 && new_height > 0,
        1 <= bit_depth <= 16,
        src_stride == 4 * width,
        dst_stride == 4 * new_width,
        source@.len() == src_stride * height,
        old(target)@.len() == dst_stride * new_height,
    ensures
        final(target)@.len() == old(target)@.len(),
        width == new_width && height == new_height ==> r is Ok,
        r is Ok && width == new_width && height == new_height ==> same_pixels(
            source@,
            src_stride as int,
            final(target)@,
            dst_stride as int,
            4 * width,
            height as int,
        ),
{
    let buffer = std::borrow::Cow::Borrowed(source);
    let store = pic_scale::ImageStore::<u16, 4> {
        buffer, channels: 4, width, height, stride: src_stride, bit_depth,
    };
    let buffer = pic_scale::BufferStore::Borrowed(target);
    let mut into = pic_scale::ImageStoreMut::<u16, 4> {
        buffer, channels: 4, width: new_width, height: new_height, stride: dst_stride, bit_depth,
    };
    pic_scale::ScalingU16::resize_rgba_u16(scaler, &store, &mut into, premultiply_alpha)
}

/// The outcome of the scaling engine as this library reports it.
pub(crate) fn settle_scale(outcome: Result<(), pic_scale::PicScaleError>) -> (r: Result<
    (),
    PixelError,
>)
    ensures
        r is Ok <==> outcome is Ok,
        r is Err ==> r->Err_0 == PixelError::KernelArithmeticFailure,
{
    match outcome {
        Ok(_) => Ok(()),
        Err(_) => Err(PixelError::KernelArithmeticFailure),
    }
}

/// Scales 8-bit RGBA to a new size. `method` selects the filter as
/// `ScaleFilter::of_method` says; with `premultiply_alpha` the colours are
/// multiplied by alpha before the filter runs and divided by it afterwards.
/// The strides count bytes. Scaling an image to its own size always
/// succeeds, and the image arrives unchanged, whatever the filter. For any
/// other size the engine decides whether it succeeds. Only bytes that belong
/// to a pixel of `dst` change. Images whose rows lie back to back are handed
/// to the engine as they are; of an image with padding it gets a packed
/// copy, so that no padding is ever read or written as a pixel.
pub fn weave_scale_u8(
    src: &[u8],
    src_stride: u32,
    width: u32,
    height: u32,
    dst: &mut [u8],
    dst_stride: u32,
    new_width: u32,
    new_height: u32,
    method: u32,
    premultiply_alpha: bool,
) -> (r: Result<(), PixelError>)
    ensures
        final(dst)@.len() == old(dst)@.len(),
        settles(
            r,
            true,
            width == 0 || height == 0 || new_width == 0 || new_height == 0,
            packed_fits(src@.len() as int, src_stride as int, width as int, height as int, 4)
                && packed_fits(
                old(dst)@.len() as int,
                dst_stride as int,
                new_width as int,
                new_height as int,
                4,
            ),
        ),
        !reaches_kernel(
            true,
            width == 0 || height == 0 || new_width == 0 || new_height == 0,
            packed_fits(src@.len() as int, src_stride as int, width as int, height as int, 4)
                && packed_fits(
                old(dst)@.len() as int,
                dst_stride as int,
                new_width as int,
                new_height as int,
                4,
            ),
        ) ==> final(dst)@ == old(dst)@,
        width == new_width && height == new_height && packed_fits(
            src@.len() as int,
            src_stride as int,
            width as int,
            height as int,
            4,
        ) && packed_fits(
            old(dst)@.len() as int,
            dst_stride as int,
            new_width as int,
            new_height as int,
            4,
        ) ==> r is Ok,
        r is Ok && width == new_width && height == new_height ==> same_pixels(
            src@,
            src_stride as int,
            final(dst)@,
            dst_stride as int,
            4 * width,
            height as int,
        ),
        same_padding(old(dst)@, final(dst)@, dst_stride as int, 4 * new_width, new_height as int),
{
    if width == 0 || height == 0 || new_width == 0 || new_height == 0 {
        proof {
            if width == 0 || height == 0 {
                lemma_no_pixels(
                    src@,
                    src_stride as int,
                    dst@,
                    dst_stride as int,
                    4 * width,
                    height as int,
                );
            }
        }
        return Ok(());
    }
    if !check_packed(src.len(), src_stride, width, height, 4) || !check_packed(
        dst.len(),
        dst_stride,
        new_width,
        new_height,
        4,
    ) {
        return Err(PixelError::GeometryViolation);
    }
    let scaler = adaptive_threads(new_scaler(ScaleFilter::from_method(method)));
    let src_len = (src_stride as usize) * (height as usize);
    let dst_len = (dst_stride as usize) * (new_height as usize);
    let ghost base = dst@;
    if src_stride as u64 == 4 * (width as u64) && dst_stride as u64 == 4 * (new_width as u64) {
        let source = vstd::slice::slice_subrange(src, 0, src_len);
        let (target, _) = dst.split_at_mut(dst_len);
        let outcome = resize_rgba8(
            &scaler,
            source,
            src_stride as usize,
            width as usize,
            height as usize,
            target,
            dst_stride as usize,
            new_width as usize,
            new_height as usize,
            premultiply_alpha,
        );
        let ghost written = target@;
        proof {
            assert(dst@.subrange(0, written.len() as int) =~= written);
            lemma_packed_rows_have_no_padding(base, dst@, dst_stride as int, new_height as int);
            if width == new_width && height == new_height {
                lemma_same_pixels_within(
                    src@,
                    src_stride as int,
                    written,
                    dst@,
                    dst_stride as int,
                    4 * width,
                    height as int,
                    new_height as int,
                );
            }
        }
        settle_scale(outcome)
    } else {
        let row: usize = 4 * (width as usize);
        let new_row: usize = 4 * (new_width as usize);
        assert(row * height <= src_stride * height) by (nonlinear_arith)
            requires
                row <= src_stride,
        ;
        assert(new_row * new_height <= dst_stride * new_height) by (nonlinear_arith)
            requires
                new_row <= dst_stride,
        ;
        let mut packed = vec![0u8; row * (height as usize)];
        let ghost blank = packed@;
        copy_rows(src, src_stride as usize, packed.as_mut_slice(), row, row, height as usize);
        let mut produced = vec![0u8; new_row * (new_height as usize)];
        let r = settle_scale(
            resize_rgba8(
                &scaler,
                packed.as_slice(),
                row,
                width as usize,
                height as usize,
                produced.as_mut_slice(),
                new_row,
                new_width as usize,
                new_height as usize,
                premultiply_alpha,
            ),
        );
        if r.is_ok() {
            copy_rows(
                produced.as_slice(),
                new_row,
                dst,
                dst_stride as usize,
                new_row,
                new_height as usize,
            );
        }
        proof {
            lemma_copy_keeps_padding(
                base,
                produced@,
                new_row as int,
                dst_stride as int,
                new_row as int,
                new_height as int,
            );
            if r is Ok && width == new_width && height == new_height {
                lemma_same_pixels_through_copies(
                    src@,
                    src_stride as int,
                    blank,
                    produced@,
                    base,
                    dst_stride as int,
                    row as int,
                    height as int,
                );
            }
        }
        r
    }
}

/// A packed target whose pixels all agree with a packed source of the same
/// size is that source.
proof fn lemma_packed_same_pixels<T>(source: Seq<T>, target: Seq<T>, n: int, rows: int)
    requires
        0 <= n,
        0 <= rows,
        source.len() == n * rows,
        target.len() == n * rows,
        same_pixels(source, n, target, n, n, rows),
    ensures
        target == source,
{
    assert forall|j: int| 0 <= j < target.len() implies target[j] == source[j] by {
        assert(n > 0) by (nonlinear_arith)
            requires
                0 <= j < n * rows,
                0 <= n,
        ;
        assert(j == (j / n) * n + j % n && 0 <= j % n < n) by (nonlinear_arith)
            requires
                n > 0,
        ;
        assert(in_pixels(j, n, n, rows));
    }
    assert(target =~= source);
}

/// The buffers of `weave_scale_u16` hold the images: the source with its
/// stride, the target packed. Lengths and the stride count bytes.
pub open spec fn scale_u16_fits(
    src_len: nat,
    src_stride: usize,
    width: u32,
    height: u32,
    dst_len: nat,
    new_width: u32,
    new_height: u32,
) -> bool {
    &&& plane_fits(src_len as int, src_stride as int, 8 * width, height as int)
    &&& plane_fits(dst_len as int, 8 * new_width, 8 * new_width, new_height as int)
}

/// Scales RGBA of 16-bit words to a new size. Both images are byte memory
/// that holds native-order samples and may start at an odd address; the
/// source has a stride in bytes, the target is packed. The source is read in
/// place where it is packed and word-aligned and through a staged copy
/// otherwise; the target is written in place or staged and written back
/// likewise. `bit_depth` must lie between 1 and 16. Scaling an image to its
/// own size always succeeds, and the image arrives unchanged, whatever the
/// filter. For any other size the engine decides whether it succeeds.
pub fn weave_scale_u16(
    src: &[u8],
    src_stride: usize,
    width: u32,
    height: u32,
    dst: &mut [u8],
    new_width: u32,
    new_height: u32,
    bit_depth: usize,
    method: u32,
    premultiply_alpha: bool,
) -> (r: Result<(), PixelError>)
    ensures
        final(dst)@.len() == old(dst)@.len(),
        settles(
            r,
            1 <= bit_depth <= 16,
            width == 0 || height == 0 || new_width == 0 || new_height == 0,
            scale_u16_fits(
                src@.len(),
                src_stride,
                width,
                height,
                old(dst)@.len(),
                new_width,
                new_height,
            ),
        ),
        !reaches_kernel(
            1 <= bit_depth <= 16,
            width == 0 || height == 0 || new_width == 0 || new_height == 0,
            scale_u16_fits(
                src@.len(),
                src_stride,
                width,
                height,
                old(dst)@.len(),
                new_width,
                new_height,
            ),
        ) ==> final(dst)@ == old(dst)@,
        same_padding(old(dst)@, final(dst)@, 8 * new_width, 8 * new_width, new_height as int),
        width == new_width && height == new_height && 1 <= bit_depth <= 16 && scale_u16_fits(
            src@.len(),
            src_stride,
            width,
            height,
            old(dst)@.len(),
            new_width,
            new_height,
        ) ==> r is Ok,
        r is Ok && width == new_width && height == new_height && width > 0 && height > 0
            ==> unpack_words(final(dst)@, 8 * new_width, 4 * new_width, new_height as int)
            == unpack_words(src@, src_stride as int, 4 * width, height as int),
{
    if bit_depth < 1 || bit_depth > 16 {
        return Err(PixelError::UnsupportedCombination);
    }
    if width == 0 || height == 0 || new_width == 0 || new_height == 0 {
        return Ok(());
    }
    if !check_plane_wide(src.len(), src_stride, 8 * (width as u64), height) {
        return Err(PixelError::GeometryViolation);
    }
    let packed: u64 = 8 * (new_width as u64);
    assert(packed * new_height <= 0x8_0000_0000 * 0xffff_ffff) by (nonlinear_arith)
        requires
            0 <= packed <= 0x8_0000_0000,
            0 <= new_height <= 0xffff_ffff,
    ;
    if (packed as u128) * (new_height as u128) > dst.len() as u128 {
        return Err(PixelError::GeometryViolation);
    }
    assert(packed <= packed * new_height) by (nonlinear_arith)
        requires
            new_height >= 1,
            packed >= 0,
    ;
    let ghost base = dst@;
    let row: usize = 4 * (width as usize);
    let new_row: usize = 4 * (new_width as usize);
    let rows = height as usize;
    let new_rows = new_height as usize;
    let scaler = prefer_quality(adaptive_threads(new_scaler(ScaleFilter::from_method(method))));
    let source = view_words(src, src_stride, row, rows);
    let mut working = SliceStoreMut::working(dst, 2 * new_row, new_row, new_rows);
    let outcome = resize_rgba16(
        &scaler,
        source.borrow(),
        row,
        width as usize,
        rows,
        working.borrow_mut(),
        new_row,
        new_width as usize,
        new_rows,
        bit_depth,
        premultiply_alpha,
    );
    let ghost produced = working@;
    let r = settle_scale(outcome);
    proof {
        if r is Ok && width == new_width && height == new_height {
            lemma_packed_same_pixels(source@, produced, row as int, rows as int);
            lemma_view_of_written_back(
                base,
                produced,
                2 * new_row,
                new_row as int,
                new_rows as int,
            );
        }
    }
    write_back_if_staged(
        working.into_staged(),
        r.is_ok(),
        dst,
        2 * new_row,
        new_row,
        new_rows,
        Ghost(base),
        Ghost(produced),
    );
    r
}

} // verus!
