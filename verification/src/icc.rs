//! ICC colour transforms to sRGB over strided RGBA rows, with an identity
//! copy wherever a profile cannot be read or no transform can be built.

use crate::format::{plane_fits, PackedDepth, PixelError};
use crate::planes::{check_packed, packed_fits, pixel_at};
use crate::support::{
    in_pixels, lemma_cell, lemma_rows_within, same_padding, view_words, write_back_if_staged,
    SliceStoreMut,
};
use vstd::prelude::*;

verus! {

#[verifier::external_type_specification]
#[verifier::external_body]
pub struct ExColorProfile(moxcms::ColorProfile);

#[verifier::external_type_specification]
#[verifier::external_body]
pub struct ExCmsError(moxcms::CmsError);

/// A transform between two profiles for 8-bit RGBA rows. It holds a shared
/// trait object of `moxcms`, a type that cannot be declared to the
/// verifier, so its contents are hidden from it.
#[verifier::external_body]
pub struct Transform8 {
    inner: std::sync::Arc<moxcms::Transform8BitExecutor>,
}

/// A transform between two profiles for RGBA rows of 16-bit words; hidden
/// from the verifier as `Transform8` is.
#[verifier::external_body]
pub struct Transform16 {
    inner: std::sync::Arc<moxcms::Transform16BitExecutor>,
}

/// What a colour operation did to the destination.
#[derive(Copy, Clone, Debug, PartialEq, Eq, Structural)]
pub enum ColorOutcome {
    /// Every row went through the colour transform.
    Transformed,
    /// The profile or the transform was not to be had: the pixels were copied
    /// unchanged.
    PassedThrough,
}

/// Whether `moxcms` reads the bytes `icc` as a colour profile.
pub uninterp spec fn profile_parses(icc: Seq<u8>) -> bool;

/// The profile that `moxcms` reads from the bytes `icc`, where it reads one.
pub uninterp spec fn parsed_profile(icc: Seq<u8>) -> moxcms::ColorProfile;

/// Whether `moxcms` has a transform from `profile` to sRGB for RGBA of
/// `bits` bits, with its default options.
pub uninterp spec fn transform_builds(profile: moxcms::ColorProfile, bits: int) -> bool;

/// Whether `transform` takes the row `source` of 8-bit RGBA, which holds
/// whole pixels, into a row of its length.
pub uninterp spec fn row_transforms8(transform: Transform8, source: Seq<u8>) -> bool;

/// As `row_transforms8`, for a row of 16-bit words.
pub uninterp spec fn row_transforms16(transform: Transform16, source: Seq<u16>) -> bool;

/// Row `k` of a buffer whose rows of `n` units start `stride` units apart.
pub open spec fn row_of<T>(buffer: Seq<T>, stride: int, n: int, k: int) -> Seq<T> {
    buffer.subrange(k * stride, k * stride + n)
}

/// `transform` takes every one of the `rows` rows of `source`.
pub open spec fn rows_transform8(
    transform: Transform8,
    source: Seq<u8>,
    stride: int,
    n: int,
    rows: int,
) -> bool {
    forall|k: int|
        0 <= k < rows ==> row_transforms8(transform, #[trigger] row_of(source, stride, n, k))
}

/// As `rows_transform8`, for rows of 16-bit words.
pub open spec fn rows_transform16(
    transform: Transform16,
    source: Seq<u16>,
    stride: int,
    n: int,
    rows: int,
) -> bool {
    forall|k: int|
        0 <= k < rows ==> row_transforms16(transform, #[trigger] row_of(source, stride, n, k))
}

/// `moxcms::ColorProfile::new_from_slice`: parses an ICC profile. Parsing
/// looks at nothing but the bytes, so its outcome and the profile it gives
/// have names; and it refuses whatever is shorter than the 128 bytes of an
/// ICC header.
#[verifier::external_body]
pub(crate) fn parse_profile(icc: &[u8]) -> (r: Result<moxcms::ColorProfile, moxcms::CmsError>)
    ensures
        r is Ok <==> profile_parses(icc@),
        r is Ok ==> r->Ok_0 == parsed_profile(icc@),
        icc@.len() < 128 ==> r is Err,
{
    moxcms::ColorProfile::new_from_slice(icc)
}

/// `moxcms::ColorProfile::create_transform_8bit` from RGBA to RGBA with
/// the default options, towards sRGB, which
/// `moxcms::ColorProfile::new_srgb` gives. Whether a transform exists is a
/// matter of the source profile alone, and has a name.
#[verifier::external_body]
pub(crate) fn build_transform8(source: &moxcms::ColorProfile) -> (r: Result<
    Transform8,
    moxcms::CmsError,
>)
    ensures
        r is Ok <==> transform_builds(*source, 8),
{
    let (rgba, target) = (moxcms::Layout::Rgba, moxcms::ColorProfile::new_srgb());
    match source.create_transform_8bit(rgba, &target, rgba, moxcms::TransformOptions::default()) {
        Ok(inner) => Ok(Transform8 { inner }),
        Err(e) => Err(e),
    }
}

/// `moxcms::ColorProfile::create_transform_10bit` from RGBA to RGBA with
/// the default options, towards sRGB, which
/// `moxcms::ColorProfile::new_srgb` gives. Whether a transform exists is a
/// matter of the source profile alone, and has a name.
#[verifier::external_body]
pub(crate) fn build_transform10(source: &moxcms::ColorProfile) -> (r: Result<
    Transform16,
    moxcms::CmsError,
>)
    ensures
        r is Ok <==> transform_builds(*source, 10),
{
    let (rgba, target) = (moxcms::Layout::Rgba, moxcms::ColorProfile::new_srgb());
    match source.create_transform_10bit(rgba, &target, rgba, moxcms::TransformOptions::default()) {
        Ok(inner) => Ok(Transform16 { inner }),
        Err(e) => Err(e),
    }
}

/// `moxcms::ColorProfile::create_transform_12bit` from RGBA to RGBA with
/// the default options, towards sRGB, which
/// `moxcms::ColorProfile::new_srgb` gives. Whether a transform exists is a
/// matter of the source profile alone, and has a name.
#[verifier::external_body]
pub(crate) fn build_transform12(source: &moxcms::ColorProfile) -> (r: Result<
    Transform16,
    moxcms::CmsError,
>)
    ensures
        r is Ok <==> transform_builds(*source, 12),
{
    let (rgba, target) = (moxcms::Layout::Rgba, moxcms::ColorProfile::new_srgb());
    match source.create_transform_12bit(rgba, &target, rgba, moxcms::TransformOptions::default()) {
        Ok(inner) => Ok(Transform16 { inner }),
        Err(e) => Err(e),
    }
}

/// `moxcms::ColorProfile::create_transform_16bit` from RGBA to RGBA with
/// the default options, towards sRGB, which
/// `moxcms::ColorProfile::new_srgb` gives. Whether a transform exists is a
/// matter of the source profile alone, and has a name.
#[verifier::external_body]
pub(crate) fn build_transform16(source: &moxcms::ColorProfile) -> (r: Result<
    Transform16,
    moxcms::CmsError,
>)
    ensures
        r is Ok <==> transform_builds(*source, 16),
{
    let (rgba, target) = (moxcms::Layout::Rgba, moxcms::ColorProfile::new_srgb());
    match source.create_transform_16bit(rgba, &target, rgba, moxcms::TransformOptions::default()) {
        Ok(inner) => Ok(Transform16 { inner }),
        Err(e) => Err(e),
    }
}

/// `moxcms::TransformExecutor::transform` on one row of 8-bit RGBA. The
/// executor wants as many samples out as in, whole pixels only; the row
/// written keeps its length. Some executors can fail on such a row too, by
/// what the profile holds; whether this one takes the row is a matter of
/// the transform and the row alone, and has a name.
#[verifier::external_body]
pub(crate) fn transform_row8(transform: &Transform8, source: &[u8], target: &mut [u8]) -> (r: Result<
    (),
    moxcms::CmsError,
>)
    requires
        source@.len() == old(target)@.len(),
        source@.len() % 4 == 0,
    ensures
        final(target)@.len() == old(target)@.len(),
        r is Ok <==> row_transforms8(*transform, source@),
{
    transform.inner.transform(source, target)
}

/// `moxcms::TransformExecutor::transform` on one row of 16-bit RGBA; as
/// `transform_row8`.
#[verifier::external_body]
pub(crate) fn transform_row16(transform: &Transform16, source: &[u16], target: &mut [u16]) -> (r:
    Result<(), moxcms::CmsError>)
    requires
        source@.len() == old(target)@.len(),
        source@.len() % 4 == 0,
    ensures
        final(target)@.len() == old(target)@.len(),
        r is Ok <==> row_transforms16(*transform, source@),
{
    transform.inner.transform(source, target)
}

/// The buffer `base` after the first `n` units of each of `rows` rows of
/// `source` have been copied over the same units of its own rows. Rows of
/// `source` start `src_stride` units apart, rows of `base` `dst_stride`.
pub open spec fn rows_copied<T>(
    base: Seq<T>,
    source: Seq<T>,
    src_stride: int,
    dst_stride: int,
    n: int,
    rows: int,
) -> Seq<T> {
    Seq::new(
        base.len(),
        |j: int|
            if in_pixels(j, dst_stride, n, rows) {
                source[(j / dst_stride) * src_stride + j % dst_stride]
            } else {
                base[j]
            },
    )
}

/// Copies the first `n` units of each of `rows` rows.
pub fn copy_rows<T: Copy>(
    source: &[T],
    src_stride: usize,
    target: &mut [T],
    dst_stride: usize,
    n: usize,
    rows: usize,
)
    requires
        plane_fits(source@.len() as int, src_stride as int, n as int, rows as int),
        plane_fits(old(target)@.len() as int, dst_stride as int, n as int, rows as int),
    ensures
        final(target)@ == rows_copied(
            old(target)@,
            source@,
            src_stride as int,
            dst_stride as int,
            n as int,
            rows as int,
        ),
{
    let src_len = source.len();
    let dst_len = target.len();
    let mut r: usize = 0;
    let mut from: usize = 0;
    let mut to: usize = 0;
    assert(target@ =~= rows_copied(
        old(target)@,
        source@,
        src_stride as int,
        dst_stride as int,
        n as int,
        0,
    )) by {
        assert(dst_stride * 0 == 0);
    }
    while r < rows
        invariant
            plane_fits(src_len as int, src_stride as int, n as int, rows as int),
            plane_fits(dst_len as int, dst_stride as int, n as int, rows as int),
            src_len == source@.len(),
            dst_len == target@.len(),
            dst_len == old(target)@.len(),
            r <= rows,
            from == r * src_stride,
            to == r * dst_stride,
            target@ =~= rows_copied(
                old(target)@,
                source@,
                src_stride as int,
                dst_stride as int,
                n as int,
                r as int,
            ),
        decreases rows - r,
    {
        proof {
            lemma_rows_within(r as int, rows as int, src_stride as int, src_len as int);
            lemma_rows_within(r as int, rows as int, dst_stride as int, dst_len as int);
        }
        let ghost done = target@;
        let mut c: usize = 0;
        while c < n
            invariant
                src_len == source@.len(),
                dst_len == target@.len(),
                n <= src_stride,
                n <= dst_stride,
                c <= n,
                from + src_stride <= src_len,
                to + dst_stride <= dst_len,
                done.len() == dst_len,
                forall|j: int|
                    0 <= j < dst_len ==> #[trigger] target@[j] == (if to <= j < to + c {
                        source@[from + (j - to)]
                    } else {
                        done[j]
                    }),
            decreases n - c,
        {
            target[to + c] = source[from + c];
            c += 1;
        }
        proof {
            let next = rows_copied(
                old(target)@,
                source@,
                src_stride as int,
                dst_stride as int,
                n as int,
                r + 1,
            );
            assert(dst_stride * (r + 1) == r * dst_stride + dst_stride) by (nonlinear_arith);
            assert(dst_stride * r == r * dst_stride) by (nonlinear_arith);
            assert forall|j: int| 0 <= j < dst_len implies target@[j] == next[j] by {
                if to <= j < to + dst_stride {
                    lemma_cell(j, dst_stride as int, r as int);
                }
            }
            assert(target@ =~= next);
        }
        from += src_stride;
        to += dst_stride;
        r += 1;
        proof {
            assert(from == r * src_stride) by (nonlinear_arith)
                requires
                    from == (r - 1) * src_stride + src_stride,
            ;
            assert(to == r * dst_stride) by (nonlinear_arith)
                requires
                    to == (r - 1) * dst_stride + dst_stride,
            ;
        }
    }
}

/// The number of whole rows that both buffers hold.
pub open spec fn common_rows(src_len: int, src_stride: int, dst_len: int, dst_stride: int) -> int {
    if src_len / src_stride <= dst_len / dst_stride {
        src_len / src_stride
    } else {
        dst_len / dst_stride
    }
}

/// Copies `width` pixels of four samples, `pixel_size` bytes each, from
/// every whole row of the source to the same row of the destination, for as
/// many rows as both buffers hold. A stride of zero, or one shorter than the
/// pixels of a row, is not accepted.
pub fn straight_copy(
    src_stride: u32,
    dst_stride: u32,
    width: u32,
    src_image: &[u8],
    dst_image: &mut [u8],
    pixel_size: usize,
)
    requires
        src_stride > 0,
        dst_stride > 0,
        width * 4 * pixel_size <= src_stride,
        width * 4 * pixel_size <= dst_stride,
    ensures
        final(dst_image)@ == rows_copied(
            old(dst_image)@,
            src_image@,
            src_stride as int,
            dst_stride as int,
            width * 4 * pixel_size,
            common_rows(
                src_image@.len() as int,
                src_stride as int,
                old(dst_image)@.len() as int,
                dst_stride as int,
            ),
        ),
{
    let src_rows = src_image.len() / (src_stride as usize);
    let dst_rows = dst_image.len() / (dst_stride as usize);
    let rows = if src_rows <= dst_rows {
        src_rows
    } else {
        dst_rows
    };
    let n: usize = if width == 0 || pixel_size == 0 {
        assert(width * 4 * pixel_size == 0) by (nonlinear_arith)
            requires
                width == 0 || pixel_size == 0,
        ;
        0
    } else {
        assert(width * 4 <= width * 4 * pixel_size) by (nonlinear_arith)
            requires
                width >= 1,
                pixel_size >= 1,
        ;
        (width as usize) * 4 * pixel_size
    };
    proof {
        let s = src_stride as int;
        let d = dst_stride as int;
        assert(s * (src_image@.len() as int / s) <= src_image@.len()) by (nonlinear_arith)
            requires
                s > 0,
                src_image@.len() >= 0,
        ;
        assert(d * (dst_image@.len() as int / d) <= dst_image@.len()) by (nonlinear_arith)
            requires
                d > 0,
                dst_image@.len() >= 0,
        ;
        assert(s * rows <= s * (src_image@.len() as int / s)) by (nonlinear_arith)
            requires
                s > 0,
                rows <= src_image@.len() as int / s,
        ;
        assert(d * rows <= d * (dst_image@.len() as int / d)) by (nonlinear_arith)
            requires
                d > 0,
                rows <= dst_image@.len() as int / d,
        ;
    }
    copy_rows(src_image, src_stride as usize, dst_image, dst_stride as usize, n, rows);
}

/// Copying rows keeps every unit that belongs to no pixel.
pub proof fn lemma_copy_keeps_padding<T>(
    base: Seq<T>,
    source: Seq<T>,
    src_stride: int,
    dst_stride: int,
    n: int,
    rows: int,
)
    ensures
        same_padding(
            base,
            rows_copied(base, source, src_stride, dst_stride, n, rows),
            dst_stride,
            n,
            rows,
        ),
{
}

/// A buffer that differs from `before` only inside the pixels of row `r`
/// has kept its padding if `before` had.
pub(crate) proof fn lemma_row_keeps_padding<T>(
    base: Seq<T>,
    before: Seq<T>,
    after: Seq<T>,
    stride: int,
    n: int,
    r: int,
    rows: int,
)
    requires
        0 <= n <= stride,
        0 <= r < rows,
        stride * rows <= base.len(),
        same_padding(base, before, stride, n, rows),
        after.len() == before.len(),
        forall|j: int|
            0 <= j < after.len() && !(r * stride <= j < r * stride + n) ==> after[j] == before[j],
    ensures
        same_padding(base, after, stride, n, rows),
{
    lemma_rows_within(r, rows, stride, base.len() as int);
    assert forall|j: int| 0 <= j < base.len() && !in_pixels(j, stride, n, rows) implies after[j]
        == base[j] by {
        if r * stride <= j < r * stride + n {
            lemma_cell(j, stride, r);
        }
    }
}

/// Sends `rows` rows of `n` samples each through `transform`, row by row and
/// never beyond the pixels of a row. It stops at the first row that the
/// transform does not take.
pub(crate) fn transform_rows8(
    transform: &Transform8,
    source: &[u8],
    src_stride: usize,
    target: &mut [u8],
    dst_stride: usize,
    n: usize,
    rows: usize,
) -> (r: Result<(), PixelError>)
    requires
        plane_fits(source@.len() as int, src_stride as int, n as int, rows as int),
        plane_fits(old(target)@.len() as int, dst_stride as int, n as int, rows as int),
        n % 4 == 0,
    ensures
        same_padding(old(target)@, final(target)@, dst_stride as int, n as int, rows as int),
        r is Ok <==> rows_transform8(*transform, source@, src_stride as int, n as int, rows as int),
        r is Err ==> r->Err_0 == PixelError::KernelArithmeticFailure,
{
    let src_len = source.len();
    let dst_len = target.len();
    let mut r: usize = 0;
    let mut from: usize = 0;
    let mut to: usize = 0;
    while r < rows
        invariant
            plane_fits(src_len as int, src_stride as int, n as int, rows as int),
            plane_fits(dst_len as int, dst_stride as int, n as int, rows as int),
            n % 4 == 0,
            src_len == source@.len(),
            dst_len == target@.len(),
            dst_len == old(target)@.len(),
            r <= rows,
            from == r * src_stride,
            to == r * dst_stride,
            same_padding(old(target)@, target@, dst_stride as int, n as int, rows as int),
            forall|k: int|
                0 <= k < r ==> row_transforms8(
                    *transform,
                    #[trigger] row_of(source@, src_stride as int, n as int, k),
                ),
        decreases rows - r,
    {
        proof {
            lemma_rows_within(r as int, rows as int, src_stride as int, src_len as int);
            lemma_rows_within(r as int, rows as int, dst_stride as int, dst_len as int);
        }
        let ghost before = target@;
        let source_row = vstd::slice::slice_subrange(source, from, from + n);
        let (_, rest) = target.split_at_mut(to);
        let (target_row, _) = rest.split_at_mut(n);
        let outcome = transform_row8(transform, source_row, target_row);
        assert(source_row@ == row_of(source@, src_stride as int, n as int, r as int));
        proof {
            lemma_row_keeps_padding(
                old(target)@,
                before,
                target@,
                dst_stride as int,
                n as int,
                r as int,
                rows as int,
            );
        }
        if outcome.is_err() {
            return Err(PixelError::KernelArithmeticFailure);
        }
        from += src_stride;
        to += dst_stride;
        r += 1;
        proof {
            assert(from == r * src_stride) by (nonlinear_arith)
                requires
                    from == (r - 1) * src_stride + src_stride,
            ;
            assert(to == r * dst_stride) by (nonlinear_arith)
                requires
                    to == (r - 1) * dst_stride + dst_stride,
            ;
        }
    }
    Ok(())
}

/// Sends `rows` rows of `n` samples each through `transform`, row by row and
/// never beyond the pixels of a row. It stops at the first row that the
/// transform does not take.
pub(crate) fn transform_rows16(
    transform: &Transform16,
    source: &[u16],
    src_stride: usize,
    target: &mut [u16],
    dst_stride: usize,
    n: usize,
    rows: usize,
) -> (r: Result<(), PixelError>)
    requires
        plane_fits(source@.len() as int, src_stride as int, n as int, rows as int),
        plane_fits(old(target)@.len() as int, dst_stride as int, n as int, rows as int),
        n % 4 == 0,
    ensures
        same_padding(old(target)@, final(target)@, dst_stride as int, n as int, rows as int),
        r is Ok <==> rows_transform16(*transform, source@, src_stride as int, n as int, rows as int),
        r is Err ==> r->Err_0 == PixelError::KernelArithmeticFailure,
{
    let src_len = source.len();
    let dst_len = target.len();
    let mut r: usize = 0;
    let mut from: usize = 0;
    let mut to: usize = 0;
    while r < rows
        invariant
            plane_fits(src_len as int, src_stride as int, n as int, rows as int),
            plane_fits(dst_len as int, dst_stride as int, n as int, rows as int),
            n % 4 == 0,
            src_len == source@.len(),
            dst_len == target@.len(),
            dst_len == old(target)@.len(),
            r <= rows,
            from == r * src_stride,
            to == r * dst_stride,
            same_padding(old(target)@, target@, dst_stride as int, n as int, rows as int),
            forall|k: int|
                0 <= k < r ==> row_transforms16(
                    *transform,
                    #[trigger] row_of(source@, src_stride as int, n as int, k),
                ),
        decreases rows - r,
    {
        proof {
            lemma_rows_within(r as int, rows as int, src_stride as int, src_len as int);
            lemma_rows_within(r as int, rows as int, dst_stride as int, dst_len as int);
        }
        let ghost before = target@;
        let source_row = vstd::slice::slice_subrange(source, from, from + n);
        let (_, rest) = target.split_at_mut(to);
        let (target_row, _) = rest.split_at_mut(n);
        let outcome = transform_row16(transform, source_row, target_row);
        assert(source_row@ == row_of(source@, src_stride as int, n as int, r as int));
        proof {
            lemma_row_keeps_padding(
                old(target)@,
                before,
                target@,
                dst_stride as int,
                n as int,
                r as int,
                rows as int,
            );
        }
        if outcome.is_err() {
            return Err(PixelError::KernelArithmeticFailure);
        }
        from += src_stride;
        to += dst_stride;
        r += 1;
        proof {
            assert(from == r * src_stride) by (nonlinear_arith)
                requires
                    from == (r - 1) * src_stride + src_stride,
            ;
            assert(to == r * dst_stride) by (nonlinear_arith)
                requires
                    to == (r - 1) * dst_stride + dst_stride,
            ;
        }
    }
    Ok(())
}

/// After a copy every pixel of the destination is the pixel of the source,
/// whatever the two strides.
pub proof fn lemma_copied_pixels_are_source<T>(
    base: Seq<T>,
    source: Seq<T>,
    src_stride: int,
    dst_stride: int,
    n: int,
    rows: int,
)
    ensures
        forall|j: int|
            0 <= j < base.len() && in_pixels(j, dst_stride, n, rows) ==> #[trigger] rows_copied(
                base,
                source,
                src_stride,
                dst_stride,
                n,
                rows,
            )[j] == source[(j / dst_stride) * src_stride + j % dst_stride],
{
}

/// After a copy the sample in row `row` and column `col` of the destination
/// is the sample of the source there.
pub proof fn lemma_copied_sample<T>(
    base: Seq<T>,
    source: Seq<T>,
    src_stride: int,
    dst_stride: int,
    n: int,
    rows: int,
    row: int,
    col: int,
)
    requires
        plane_fits(base.len() as int, dst_stride, n, rows),
        0 <= row < rows,
        0 <= col < n,
    ensures
        rows_copied(base, source, src_stride, dst_stride, n, rows)[row * dst_stride + col]
            == source[row * src_stride + col],
{
    lemma_rows_within(row, rows, dst_stride, base.len() as int);
    lemma_cell(row * dst_stride + col, dst_stride, row);
}

/// After a copy of rows of pixels, four samples each, every pixel of the
/// destination is the pixel of the source, whatever the two strides.
pub proof fn lemma_pixel_of_copied_rows<T>(
    base: Seq<T>,
    source: Seq<T>,
    src_stride: int,
    dst_stride: int,
    width: int,
    height: int,
)
    requires
        plane_fits(base.len() as int, dst_stride, 4 * width, height),
    ensures
        forall|row: int, col: int|
            0 <= row < height && 0 <= col < width ==> #[trigger] pixel_at(
                rows_copied(base, source, src_stride, dst_stride, 4 * width, height),
                dst_stride,
                row,
                col,
            ) == pixel_at(source, src_stride, row, col),
{
    let after = rows_copied(base, source, src_stride, dst_stride, 4 * width, height);
    assert forall|row: int, col: int| 0 <= row < height && 0 <= col < width implies #[trigger] pixel_at(
        after,
        dst_stride,
        row,
        col,
    ) == pixel_at(source, src_stride, row, col) by {
        lemma_copied_sample(base, source, src_stride, dst_stride, 4 * width, height, row, 4 * col);
        lemma_copied_sample(base, source, src_stride, dst_stride, 4 * width, height, row, 4 * col + 1);
        lemma_copied_sample(base, source, src_stride, dst_stride, 4 * width, height, row, 4 * col + 2);
        lemma_copied_sample(base, source, src_stride, dst_stride, 4 * width, height, row, 4 * col + 3);
    }
}

/// Copying no rows, or rows without pixels, changes nothing.
pub proof fn lemma_copy_of_nothing<T>(
    base: Seq<T>,
    source: Seq<T>,
    src_stride: int,
    dst_stride: int,
    n: int,
    rows: int,
)
    requires
        n == 0 || rows == 0,
        0 <= dst_stride,
    ensures
        rows_copied(base, source, src_stride, dst_stride, n, rows) == base,
{
    assert(rows == 0 ==> dst_stride * rows == 0);
    assert forall|j: int| 0 <= j < base.len() implies !in_pixels(j, dst_stride, n, rows) by {
        if rows != 0 && 0 <= j < dst_stride * rows {
            assert(dst_stride > 0) by (nonlinear_arith)
                requires
                    0 <= j < dst_stride * rows,
                    0 <= dst_stride,
            ;
        }
    }
    assert(rows_copied(base, source, src_stride, dst_stride, n, rows) =~= base);
}

/// Transforms 8-bit RGBA rows from `profile` to sRGB. Where no transform
/// can be built, the pixels are copied unchanged. Whether one can be built
/// is a matter of the profile alone (`transform_builds`);
/// `transform_or_copy8` says what follows once a transform is there.
pub fn apply_icc_rgba8_impl(
    src_image: &[u8],
    src_stride: u32,
    dst_image: &mut [u8],
    dst_stride: u32,
    width: u32,
    height: u32,
    profile: moxcms::ColorProfile,
) -> (r: Result<ColorOutcome, PixelError>)
    requires
        packed_fits(src_image@.len() as int, src_stride as int, width as int, height as int, 4),
        packed_fits(
            old(dst_image)@.len() as int,
            dst_stride as int,
            width as int,
            height as int,
            4,
        ),
    ensures
        same_padding(
            old(dst_image)@,
            final(dst_image)@,
            dst_stride as int,
            4 * width,
            height as int,
        ),
        r is Err ==> r->Err_0 == PixelError::KernelArithmeticFailure,
        r == Ok::<ColorOutcome, PixelError>(ColorOutcome::PassedThrough) <==> !transform_builds(
            profile,
            8,
        ),
        transform_builds(profile, 8) ==> r == Ok::<ColorOutcome, PixelError>(
            ColorOutcome::Transformed,
        ) || r == Err::<ColorOutcome, PixelError>(PixelError::KernelArithmeticFailure),
        r == Ok::<ColorOutcome, PixelError>(ColorOutcome::PassedThrough) ==> final(dst_image)@
            == rows_copied(
            old(dst_image)@,
            src_image@,
            src_stride as int,
            dst_stride as int,
            4 * width,
            height as int,
        ),
{
    let built = build_transform8(&profile);
    transform_or_copy8(built, src_image, src_stride, dst_image, dst_stride, width, height)
}

/// The second half of an ICC operation on 8-bit RGBA rows: what is done
/// once it is known whether a transform could be built. With a transform
/// every row goes through it, and the operation fails if the transform does
/// not take one of them; without a transform the pixels are copied
/// unchanged. The result tells the three apart.
pub fn transform_or_copy8(
    built: Result<Transform8, moxcms::CmsError>,
    src_image: &[u8],
    src_stride: u32,
    dst_image: &mut [u8],
    dst_stride: u32,
    width: u32,
    height: u32,
) -> (r: Result<ColorOutcome, PixelError>)
    requires
        packed_fits(src_image@.len() as int, src_stride as int, width as int, height as int, 4),
        packed_fits(
            old(dst_image)@.len() as int,
            dst_stride as int,
            width as int,
            height as int,
            4,
        ),
    ensures
        same_padding(
            old(dst_image)@,
            final(dst_image)@,
            dst_stride as int,
            4 * width,
            height as int,
        ),
        built is Err ==> r == Ok::<ColorOutcome, PixelError>(ColorOutcome::PassedThrough),
        built matches Ok(transform) ==> r == (if rows_transform8(
            transform,
            src_image@,
            src_stride as int,
            4 * width,
            height as int,
        ) {
            Ok::<ColorOutcome, PixelError>(ColorOutcome::Transformed)
        } else {
            Err::<ColorOutcome, PixelError>(PixelError::KernelArithmeticFailure)
        }),
        r == Ok::<ColorOutcome, PixelError>(ColorOutcome::PassedThrough) ==> final(dst_image)@
            == rows_copied(
            old(dst_image)@,
            src_image@,
            src_stride as int,
            dst_stride as int,
            4 * width,
            height as int,
        ),
{
    let n: usize = 4 * (width as usize);
    match built {
        Ok(transform) => {
            match transform_rows8(
                &transform,
                src_image,
                src_stride as usize,
                dst_image,
                dst_stride as usize,
                n,
                height as usize,
            ) {
                Ok(_) => Ok(ColorOutcome::Transformed),
                Err(e) => Err(e),
            }
        },
        Err(_) => {
            proof {
                lemma_copy_keeps_padding(
                    dst_image@,
                    src_image@,
                    src_stride as int,
                    dst_stride as int,
                    n as int,
                    height as int,
                );
            }
            copy_rows(
                src_image,
                src_stride as usize,
                dst_image,
                dst_stride as usize,
                n,
                height as usize,
            );
            Ok(ColorOutcome::PassedThrough)
        },
    }
}

/// How an ICC entry point settles. A depth that no transform serves is
/// refused. An empty image is passed through untouched. Buffers that do not
/// hold the image are refused. Otherwise a profile that does not parse, or
/// one for which no transform builds, makes the operation pass the pixels
/// through. With a transform the rows go through it; a row that it does not
/// take makes the operation fail.
pub open spec fn icc_settles(
    r: Result<ColorOutcome, PixelError>,
    supported: bool,
    empty: bool,
    fits: bool,
    parses: bool,
    builds: bool,
) -> bool {
    if !supported {
        r == Err::<ColorOutcome, PixelError>(PixelError::UnsupportedCombination)
    } else if empty {
        r == Ok::<ColorOutcome, PixelError>(ColorOutcome::PassedThrough)
    } else if !fits {
        r == Err::<ColorOutcome, PixelError>(PixelError::GeometryViolation)
    } else if !parses || !builds {
        r == Ok::<ColorOutcome, PixelError>(ColorOutcome::PassedThrough)
    } else {
        r == Ok::<ColorOutcome, PixelError>(ColorOutcome::Transformed) || r == Err::<
            ColorOutcome,
            PixelError,
        >(PixelError::KernelArithmeticFailure)
    }
}

/// Applies the ICC profile `icc_profile` to 8-bit RGBA, towards sRGB. The
/// strides count bytes. A profile that cannot be read, or for which no
/// transform exists, is no error: the pixels are then copied unchanged, and
/// the result says so. Nothing shorter than an ICC header of 128 bytes is
/// read as a profile. With a transform the rows go through it; a transform
/// may refuse a row, by what its profile holds, and the operation then
/// fails.
pub fn apply_icc_rgba8(
    src_image: &[u8],
    src_stride: u32,
    dst_image: &mut [u8],
    dst_stride: u32,
    width: u32,
    height: u32,
    icc_profile: &[u8],
) -> (r: Result<ColorOutcome, PixelError>)
    ensures
        icc_settles(
            r,
            true,
            width == 0 || height == 0,
            packed_fits(src_image@.len() as int, src_stride as int, width as int, height as int, 4)
                && packed_fits(
                old(dst_image)@.len() as int,
                dst_stride as int,
                width as int,
                height as int,
                4,
            ),
            profile_parses(icc_profile@),
            transform_builds(parsed_profile(icc_profile@), 8),
        ),
        icc_profile@.len() < 128 && width > 0 && height > 0 && packed_fits(
            src_image@.len() as int,
            src_stride as int,
            width as int,
            height as int,
            4,
        ) && packed_fits(
            old(dst_image)@.len() as int,
            dst_stride as int,
            width as int,
            height as int,
            4,
        ) ==> r == Ok::<ColorOutcome, PixelError>(ColorOutcome::PassedThrough),
        r is Err && r->Err_0 != PixelError::KernelArithmeticFailure ==> final(dst_image)@ == old(
            dst_image,
        )@,
        r == Ok::<ColorOutcome, PixelError>(ColorOutcome::PassedThrough) ==> final(dst_image)@
            == rows_copied(
            old(dst_image)@,
            src_image@,
            src_stride as int,
            dst_stride as int,
            4 * width,
            height as int,
        ),
        same_padding(
            old(dst_image)@,
            final(dst_image)@,
            dst_stride as int,
            4 * width,
            height as int,
        ),
{
    if width == 0 || height == 0 {
        proof {
            lemma_copy_of_nothing(
                dst_image@,
                src_image@,
                src_stride as int,
                dst_stride as int,
                4 * width,
                height as int,
            );
        }
        return Ok(ColorOutcome::PassedThrough);
    }
    if !check_packed(src_image.len(), src_stride, width, height, 4) || !check_packed(
        dst_image.len(),
        dst_stride,
        width,
        height,
        4,
    ) {
        return Err(PixelError::GeometryViolation);
    }
    match parse_profile(icc_profile) {
        Ok(profile) => apply_icc_rgba8_impl(
            src_image,
            src_stride,
            dst_image,
            dst_stride,
            width,
            height,
            profile,
        ),
        Err(_) => {
            proof {
                lemma_copy_keeps_padding(
                    dst_image@,
                    src_image@,
                    src_stride as int,
                    dst_stride as int,
                    4 * width,
                    height as int,
                );
            }
            copy_rows(
                src_image,
                src_stride as usize,
                dst_image,
                dst_stride as usize,
                4 * (width as usize),
                height as usize,
            );
            Ok(ColorOutcome::PassedThrough)
        },
    }
}

/// Builds the transform for RGBA of the given depth in 16-bit words.
pub(crate) fn build_transform_wide(depth: PackedDepth, source: &moxcms::ColorProfile) -> (r: Result<
    Transform16,
    moxcms::CmsError,
>)
    ensures
        r is Ok <==> transform_builds(*source, depth.bits()),
{
    match depth {
        PackedDepth::Ten => build_transform10(source),
        PackedDepth::Twelve => build_transform12(source),
        PackedDepth::Sixteen => build_transform16(source),
    }
}

/// Transforms RGBA rows of 16-bit words from `profile` to sRGB. The strides
/// count words. Where no transform can be built, the pixels are copied
/// unchanged. Whether one can be built is a matter of the profile and the
/// depth alone (`transform_builds`); `transform_or_copy16` says what follows
/// once a transform is there.
pub fn apply_icc_rgba16_impl(
    src_image: &[u16],
    src_stride: u32,
    dst_image: &mut [u16],
    dst_stride: u32,
    width: u32,
    height: u32,
    depth: PackedDepth,
    profile: &moxcms::ColorProfile,
) -> (r: Result<ColorOutcome, PixelError>)
    requires
        packed_fits(src_image@.len() as int, src_stride as int, width as int, height as int, 4),
        packed_fits(
            old(dst_image)@.len() as int,
            dst_stride as int,
            width as int,
            height as int,
            4,
        ),
    ensures
        same_padding(
            old(dst_image)@,
            final(dst_image)@,
            dst_stride as int,
            4 * width,
            height as int,
        ),
        r is Err ==> r->Err_0 == PixelError::KernelArithmeticFailure,
        r == Ok::<ColorOutcome, PixelError>(ColorOutcome::PassedThrough) <==> !transform_builds(
            *profile,
            depth.bits(),
        ),
        transform_builds(*profile, depth.bits()) ==> r == Ok::<ColorOutcome, PixelError>(
            ColorOutcome::Transformed,
        ) || r == Err::<ColorOutcome, PixelError>(PixelError::KernelArithmeticFailure),
        r == Ok::<ColorOutcome, PixelError>(ColorOutcome::PassedThrough) ==> final(dst_image)@
            == rows_copied(
            old(dst_image)@,
            src_image@,
            src_stride as int,
            dst_stride as int,
            4 * width,
            height as int,
        ),
{
    let built = build_transform_wide(depth, profile);
    transform_or_copy16(built, src_image, src_stride, dst_image, dst_stride, width, height)
}

/// The second half of an ICC operation on RGBA rows of 16-bit words: what is done
/// once it is known whether a transform could be built. With a transform
/// every row goes through it, and the operation fails if the transform does
/// not take one of them; without a transform the pixels are copied
/// unchanged. The result tells the three apart.
pub fn transform_or_copy16(
    built: Result<Transform16, moxcms::CmsError>,
    src_image: &[u16],
    src_stride: u32,
    dst_image: &mut [u16],
    dst_stride: u32,
    width: u32,
    height: u32,
) -> (r: Result<ColorOutcome, PixelError>)
    requires
        packed_fits(src_image@.len() as int, src_stride as int, width as int, height as int, 4),
        packed_fits(
            old(dst_image)@.len() as int,
            dst_stride as int,
            width as int,
            height as int,
            4,
        ),
    ensures
        same_padding(
            old(dst_image)@,
            final(dst_image)@,
            dst_stride as int,
            4 * width,
            height as int,
        ),
        built is Err ==> r == Ok::<ColorOutcome, PixelError>(ColorOutcome::PassedThrough),
        built matches Ok(transform) ==> r == (if rows_transform16(
            transform,
            src_image@,
            src_stride as int,
            4 * width,
            height as int,
        ) {
            Ok::<ColorOutcome, PixelError>(ColorOutcome::Transformed)
        } else {
            Err::<ColorOutcome, PixelError>(PixelError::KernelArithmeticFailure)
        }),
        r == Ok::<ColorOutcome, PixelError>(ColorOutcome::PassedThrough) ==> final(dst_image)@
            == rows_copied(
            old(dst_image)@,
            src_image@,
            src_stride as int,
            dst_stride as int,
            4 * width,
            height as int,
        ),
{
    let n: usize = 4 * (width as usize);
    match built {
        Ok(transform) => {
            match transform_rows16(
                &transform,
                src_image,
                src_stride as usize,
                dst_image,
                dst_stride as usize,
                n,
                height as usize,
            ) {
                Ok(_) => Ok(ColorOutcome::Transformed),
                Err(e) => Err(e),
            }
        },
        Err(_) => {
            proof {
                lemma_copy_keeps_padding(
                    dst_image@,
                    src_image@,
                    src_stride as int,
                    dst_stride as int,
                    n as int,
                    height as int,
                );
            }
            copy_rows(
                src_image,
                src_stride as usize,
                dst_image,
                dst_stride as usize,
                n,
                height as usize,
            );
            Ok(ColorOutcome::PassedThrough)
        },
    }
}

/// Applies the ICC profile `icc_profile` to RGBA of 10, 12 or 16 bits,
/// towards sRGB. Both images are byte memory that holds native-order 16-bit
/// samples and may start at an odd address; the strides count bytes. No
/// other depth is served. A profile that cannot be read, or one for which
/// no transform exists, is no error: the bytes of the pixels are then
/// copied unchanged, and the result says so. Nothing shorter than an ICC
/// header of 128 bytes is read as a profile. With a transform the rows go
/// through it; a transform may refuse a row, by what its profile holds, and
/// the operation then fails. Only bytes that belong to a pixel of the
/// destination change.
pub fn apply_icc_rgba16(
    src_image: &[u8],
    src_stride: u32,
    dst_image: &mut [u8],
    dst_stride: u32,
    bit_depth: u32,
    width: u32,
    height: u32,
    icc_profile: &[u8],
) -> (r: Result<ColorOutcome, PixelError>)
    ensures
        icc_settles(
            r,
            PackedDepth::of_bits(bit_depth as int) is Some,
            width == 0 || height == 0,
            packed_fits(src_image@.len() as int, src_stride as int, width as int, height as int, 8)
                && packed_fits(
                old(dst_image)@.len() as int,
                dst_stride as int,
                width as int,
                height as int,
                8,
            ),
            profile_parses(icc_profile@),
            transform_builds(parsed_profile(icc_profile@), bit_depth as int),
        ),
        icc_profile@.len() < 128 && PackedDepth::of_bits(bit_depth as int) is Some && width > 0
            && height > 0 && packed_fits(
            src_image@.len() as int,
            src_stride as int,
            width as int,
            height as int,
            8,
        ) && packed_fits(
            old(dst_image)@.len() as int,
            dst_stride as int,
            width as int,
            height as int,
            8,
        ) ==> r == Ok::<ColorOutcome, PixelError>(ColorOutcome::PassedThrough),
        r is Err && r->Err_0 != PixelError::KernelArithmeticFailure ==> final(dst_image)@ == old(
            dst_image,
        )@,
        r == Ok::<ColorOutcome, PixelError>(ColorOutcome::PassedThrough) ==> final(dst_image)@
            == rows_copied(
            old(dst_image)@,
            src_image@,
            src_stride as int,
            dst_stride as int,
            8 * width,
            height as int,
        ),
        same_padding(
            old(dst_image)@,
            final(dst_image)@,
            dst_stride as int,
            8 * width,
            height as int,
        ),
{
    let depth = match PackedDepth::from_bits(bit_depth) {
        Some(depth) => depth,
        None => {
            return Err(PixelError::UnsupportedCombination);
        },
    };
    if width == 0 || height == 0 {
        proof {
            lemma_copy_of_nothing(
                dst_image@,
                src_image@,
                src_stride as int,
                dst_stride as int,
                8 * width,
                height as int,
            );
        }
        return Ok(ColorOutcome::PassedThrough);
    }
    if !check_packed(src_image.len(), src_stride, width, height, 8) || !check_packed(
        dst_image.len(),
        dst_stride,
        width,
        height,
        8,
    ) {
        return Err(PixelError::GeometryViolation);
    }
    let ghost base = dst_image@;
    proof {
        lemma_copy_keeps_padding(
            base,
            src_image@,
            src_stride as int,
            dst_stride as int,
            8 * width,
            height as int,
        );
    }
    let row_bytes: usize = 8 * (width as usize);
    let transform = match parse_profile(icc_profile) {
        Ok(profile) => build_transform_wide(depth, &profile).ok(),
        Err(_) => None,
    };
    match transform {
        None => {
            copy_rows(
                src_image,
                src_stride as usize,
                dst_image,
                dst_stride as usize,
                row_bytes,
                height as usize,
            );
            Ok(ColorOutcome::PassedThrough)
        },
        Some(transform) => {
            let row: usize = 4 * (width as usize);
            let source = view_words(src_image, src_stride as usize, row, height as usize);
            let mut working = SliceStoreMut::working(
                dst_image,
                dst_stride as usize,
                row,
                height as usize,
            );
            let outcome = transform_rows16(
                &transform,
                source.borrow(),
                row,
                working.borrow_mut(),
                row,
                row,
                height as usize,
            );
            let ghost produced = working@;
            write_back_if_staged(
                working.into_staged(),
                outcome.is_ok(),
                dst_image,
                dst_stride as usize,
                row,
                height as usize,
                Ghost(base),
                Ghost(produced),
            );
            match outcome {
                Ok(_) => Ok(ColorOutcome::Transformed),
                Err(e) => Err(e),
            }
        },
    }
}

/// An encoded colour profile as it is handed across the library's boundary:
/// the bytes, their count and the capacity that holds them.
pub struct FfiProfileData {
    pub data: Vec<u8>,
    pub size: usize,
    pub capacity: usize,
}

impl FfiProfileData {
    /// `size` counts the bytes and `capacity` is enough for them.
    pub open spec fn wf(&self) -> bool {
        &&& self.size == self.data@.len()
        &&& self.size <= self.capacity
    }

    /// The value that stands for a profile that could not be encoded.
    pub open spec fn is_empty(&self) -> bool {
        self.data@.len() == 0 && self.size == 0 && self.capacity == 0
    }

    /// Wraps the outcome of an encoding: the bytes where there are any, the
    /// empty value for a failure.
    pub fn from_encoded(encoded: Result<Vec<u8>, moxcms::CmsError>) -> (data: FfiProfileData)
        ensures
            data.wf(),
            encoded matches Ok(bytes) ==> data.data == bytes,
            encoded is Err ==> data.is_empty(),
    {
        match encoded {
            Ok(bytes) => {
                let size = bytes.len();
                let capacity = capacity_of(&bytes);
                FfiProfileData { data: bytes, size, capacity }
            },
            Err(_) => FfiProfileData { data: Vec::new(), size: 0, capacity: 0 },
        }
    }
}

/// `Vec::capacity`: never less than the length.
#[verifier::external_body]
pub(crate) fn capacity_of(bytes: &Vec<u8>) -> (capacity: usize)
    ensures
        capacity >= bytes@.len(),
{
    bytes.capacity()
}

/// The profiles that the library hands out encoded.
#[derive(Copy, Clone, Debug, PartialEq, Eq, Structural)]
pub enum BuiltinProfile {
    /// DCI-P3.
    DciP3,
    /// Adobe RGB (1998).
    AdobeRgb,
}

/// `moxcms::ColorProfile::new_dci_p3` and `moxcms::ColorProfile::encode` on
/// what it gives: the DCI-P3 profile as ICC bytes. The writer stamps the
/// time of encoding into the header, so nothing is claimed of the bytes, nor
/// of whether encoding succeeds.
#[verifier::external_body]
pub(crate) fn encode_dci_p3() -> (r: Result<Vec<u8>, moxcms::CmsError>) {
    moxcms::ColorProfile::new_dci_p3().encode()
}

/// `moxcms::ColorProfile::new_adobe_rgb` and `moxcms::ColorProfile::encode`
/// on what it gives: the Adobe RGB profile as ICC bytes. As with
/// `encode_dci_p3`, nothing is claimed of the outcome.
#[verifier::external_body]
pub(crate) fn encode_adobe_rgb() -> (r: Result<Vec<u8>, moxcms::CmsError>) {
    moxcms::ColorProfile::new_adobe_rgb().encode()
}

/// Encodes one of the library's profiles for the boundary; the empty value
/// if it cannot be encoded. The writer is handed no profile but these: it
/// does not take every profile that a caller could put together.
pub fn wrap_profile(profile: BuiltinProfile) -> (data: FfiProfileData)
    ensures
        data.wf(),
{
    FfiProfileData::from_encoded(
        match profile {
            BuiltinProfile::DciP3 => encode_dci_p3(),
            BuiltinProfile::AdobeRgb => encode_adobe_rgb(),
        },
    )
}

/// Releases an encoded profile and the buffer that holds it.
pub fn free_profile(wrapper: FfiProfileData) {
}

/// The encoded DCI-P3 profile.
pub fn new_dci_p3_profile() -> (data: FfiProfileData)
    ensures
        data.wf(),
{
    wrap_profile(BuiltinProfile::DciP3)
}

/// The encoded Adobe RGB profile.
pub fn new_adobe_rgb_profile() -> (data: FfiProfileData)
    ensures
        data.wf(),
{
    wrap_profile(BuiltinProfile::AdobeRgb)
}

} // verus!
