//! Planar YUV (and G, B, R) images of 8, 10 and 12 bits to packed RGBA.
//!
//! Every entry point settles in the same order: a descriptor without a
//! routine is refused, an empty image is accepted untouched, buffers that do
//! not hold the image are refused, and only then does the numeric routine
//! run, which then succeeds. The routines for 10 and 12 bits that compute in
//! 16 signed bits, those of the luma planes and of the identity and YCgCo
//! matrices, cannot take a sample of 0x8000 or more where they take a bias
//! off it: an image with one is refused before they run, and no other is.
//! What the arithmetic of a routine writes is left open; where
//! it does none, on a full-range image under the identity matrix and on a
//! full-range luma plane, the pixels are stated. A luma plane gives grey
//! pixels in either range, and the alpha of every pixel is stated: opaque, or
//! the sample of the alpha plane. The one exception is the 8-bit YCgCo
//! routine without an alpha plane, which does not store an opaque alpha on
//! every processor.
//!
//! Only the pixels of the destination change: the padding behind a row and
//! what follows the last row keep their bytes. An 8-bit destination whose
//! rows lie back to back is written in place. For one with padding the
//! routine writes a packed image of its own, and the rows are copied from
//! there.
//!
//! In a 4:2:0 image the chroma planes have half the rows and half the
//! samples per row, both rounded up; in a 4:2:2 image they have all rows and
//! half the samples per row.

use crate::dispatch::{
    run_gray16, run_gray16_alpha, run_planar16, run_planar16_alpha, run_planar8,
    run_planar8_alpha, settle,
};
use crate::format::{
    check_plane, converts, converts_samples, kernel_for, plane_fits, reaches_kernel,
    select_kernel, Kernel,
    KernelFamily, PixelError, SampleDepth, StandardMatrix, YuvMatrix, YuvRange, YuvType,
};
use crate::icc::{copy_rows, lemma_copy_keeps_padding, lemma_pixel_of_copied_rows};
use crate::kernels::decode8;
use crate::planes::{
    alpha_from, check_packed, check_planes, grey, grey_with_alpha, leading_rows,
    lemma_alpha_of_leading_rows, lemma_grey_of_leading_rows, lemma_grey_with_alpha_of_leading_rows,
    lemma_opaque_of_leading_rows, luma_admits, luma_admitted, opaque, planes_admit, planes_admitted,
    lemma_spread_of_leading_rows, lemma_spread_with_alpha_of_leading_rows,
    lemma_swapped_of_leading_rows, lemma_swapped_with_alpha_of_leading_rows, packed_fits,
    planes_fit, spread, spread_with_alpha, swapped,
    swapped_with_alpha, Gray, GrayAlpha, Planar, PlanarAlpha,
};
use crate::support::{
    lemma_packed_rows_have_no_padding, lemma_view_of_written_back, same_padding, unpack_words,
    view_words, write_back_if_staged, SliceStore, SliceStoreMut,
};
use vstd::prelude::*;

verus! {

/// The three planes and the destination hold the image. Lengths and strides
/// count bytes; a sample takes `unit` bytes, a pixel of the destination four
/// samples.
pub open spec fn planar_fits(
    y_len: nat,
    y_stride: u32,
    u_len: nat,
    u_stride: u32,
    v_len: nat,
    v_stride: u32,
    rgba_len: nat,
    rgba_stride: u32,
    width: u32,
    height: u32,
    layout: YuvType,
    unit: int,
) -> bool {
    &&& planes_fit(
        y_len as int,
        y_stride as int,
        u_len as int,
        u_stride as int,
        v_len as int,
        v_stride as int,
        width as int,
        height as int,
        layout,
        unit,
    )
    &&& packed_fits(rgba_len as int, rgba_stride as int, width as int, height as int, 4 * unit)
}

/// The luma plane and the destination hold the image. Lengths and strides
/// count bytes; a sample takes `unit` bytes, a pixel of the destination four
/// samples.
pub open spec fn gray_fits(
    y_len: nat,
    y_stride: u32,
    rgba_len: nat,
    rgba_stride: u32,
    width: u32,
    height: u32,
    unit: int,
) -> bool {
    &&& plane_fits(y_len as int, y_stride as int, unit * width, height as int)
    &&& packed_fits(rgba_len as int, rgba_stride as int, width as int, height as int, 4 * unit)
}

/// The three planes and the alpha plane and the destination hold the image.
/// Lengths and strides count bytes; a sample takes `unit` bytes, a pixel of
/// the destination four samples.
pub open spec fn planar_alpha_fits(
    y_len: nat,
    y_stride: u32,
    u_len: nat,
    u_stride: u32,
    v_len: nat,
    v_stride: u32,
    a_len: nat,
    a_stride: u32,
    rgba_len: nat,
    rgba_stride: u32,
    width: u32,
    height: u32,
    layout: YuvType,
    unit: int,
) -> bool {
    &&& planes_fit(
        y_len as int,
        y_stride as int,
        u_len as int,
        u_stride as int,
        v_len as int,
        v_stride as int,
        width as int,
        height as int,
        layout,
        unit,
    )
    &&& plane_fits(a_len as int, a_stride as int, unit * width, height as int)
    &&& packed_fits(rgba_len as int, rgba_stride as int, width as int, height as int, 4 * unit)
}

/// The luma plane and the alpha plane and the destination hold the image.
/// Lengths and strides count bytes; a sample takes `unit` bytes, a pixel of
/// the destination four samples.
pub open spec fn gray_alpha_fits(
    y_len: nat,
    y_stride: u32,
    a_len: nat,
    a_stride: u32,
    rgba_len: nat,
    rgba_stride: u32,
    width: u32,
    height: u32,
    unit: int,
) -> bool {
    &&& plane_fits(y_len as int, y_stride as int, unit * width, height as int)
    &&& plane_fits(a_len as int, a_stride as int, unit * width, height as int)
    &&& packed_fits(rgba_len as int, rgba_stride as int, width as int, height as int, 4 * unit)
}

/// The planes of a 10- or 12-bit image as a conversion routine takes them,
/// with the routine that the descriptor resolved to. Each plane is packed:
/// its stride is its width.
pub struct StagedPlanes<'a> {
    pub kernel: Kernel,
    pub y: SliceStore<'a, u16>,
    pub u: SliceStore<'a, u16>,
    pub v: SliceStore<'a, u16>,
    pub chroma_width: u32,
    pub chroma_height: u32,
}

/// The routine for `matrix` takes the samples of the three planes of a 10-
/// or 12-bit image in range `range`, as `planes_admitted` says. The planes
/// are byte memory; their strides count bytes.
pub open spec fn samples_admitted(
    matrix: YuvMatrix,
    range: YuvRange,
    y_plane: Seq<u8>,
    y_stride: u32,
    u_plane: Seq<u8>,
    u_stride: u32,
    v_plane: Seq<u8>,
    v_stride: u32,
    width: u32,
    height: u32,
    layout: YuvType,
) -> bool {
    planes_admitted(
        matrix.family_of(),
        range,
        unpack_words(y_plane, y_stride as int, width as int, height as int),
        unpack_words(
            u_plane,
            u_stride as int,
            layout.chroma_width_of(width as int),
            layout.chroma_height_of(height as int),
        ),
        unpack_words(
            v_plane,
            v_stride as int,
            layout.chroma_width_of(width as int),
            layout.chroma_height_of(height as int),
        ),
    )
}

/// The first half of every conversion from 10- or 12-bit planes: resolves
/// the descriptor, accepts an empty image with nothing to do, validates the
/// planes and gives a view of each, in place where its memory is packed
/// and word-aligned, staged otherwise. It then refuses an image that holds
/// a sample which its routine cannot take (`planes_admitted`): the routines
/// of the identity and the YCgCo matrix compute in 16 signed bits. The planes
/// are byte memory; their strides count bytes.
pub fn stage_planar16<'a>(
    y_plane: &'a [u8],
    y_stride: u32,
    u_plane: &'a [u8],
    u_stride: u32,
    v_plane: &'a [u8],
    v_stride: u32,
    bit_depth: u32,
    width: u32,
    height: u32,
    range: YuvRange,
    yuv_matrix: YuvMatrix,
    yuv_type: YuvType,
    alpha: bool,
) -> (r: Result<Option<StagedPlanes<'a>>, PixelError>)
    ensures
        !(yuv_matrix.admits(yuv_type) && (bit_depth == 10 || bit_depth == 12)) ==> r is Err
            && r->Err_0 == PixelError::UnsupportedCombination,
        yuv_matrix.admits(yuv_type) && (bit_depth == 10 || bit_depth == 12) ==> {
            if width == 0 || height == 0 {
                r is Ok && r->Ok_0 is None
            } else if !planes_fit(
                y_plane@.len() as int,
                y_stride as int,
                u_plane@.len() as int,
                u_stride as int,
                v_plane@.len() as int,
                v_stride as int,
                width as int,
                height as int,
                yuv_type,
                2,
            ) {
                r is Err && r->Err_0 == PixelError::GeometryViolation
            } else if !samples_admitted(
                yuv_matrix,
                range,
                y_plane@,
                y_stride,
                u_plane@,
                u_stride,
                v_plane@,
                v_stride,
                width,
                height,
                yuv_type,
            ) {
                r is Err && r->Err_0 == PixelError::SampleOutOfRange
            } else {
                &&& r is Ok
                &&& r->Ok_0 matches Some(staged)
                &&& Some(staged.kernel) == kernel_for(yuv_type, yuv_matrix, bit_depth as int, alpha)
                &&& staged.chroma_width == yuv_type.chroma_width_of(width as int)
                &&& staged.chroma_height == yuv_type.chroma_height_of(height as int)
                &&& staged.y@ == unpack_words(
                    y_plane@,
                    y_stride as int,
                    width as int,
                    height as int,
                )
                &&& staged.u@ == unpack_words(
                    u_plane@,
                    u_stride as int,
                    staged.chroma_width as int,
                    staged.chroma_height as int,
                )
                &&& staged.v@ == unpack_words(
                    v_plane@,
                    v_stride as int,
                    staged.chroma_width as int,
                    staged.chroma_height as int,
                )
            }
        },
{
    if bit_depth != 10 && bit_depth != 12 {
        return Err(PixelError::UnsupportedCombination);
    }
    let kernel = match select_kernel(yuv_type, yuv_matrix, bit_depth, alpha) {
        Ok(kernel) => kernel,
        Err(e) => {
            return Err(e);
        },
    };
    if width == 0 || height == 0 {
        return Ok(None);
    }
    if !check_planes(
        y_plane.len(),
        y_stride,
        u_plane.len(),
        u_stride,
        v_plane.len(),
        v_stride,
        width,
        height,
        yuv_type,
        2,
    ) {
        return Err(PixelError::GeometryViolation);
    }
    let chroma_width = yuv_type.chroma_width(width);
    let chroma_height = yuv_type.chroma_height(height);
    let y = view_words(y_plane, y_stride as usize, width as usize, height as usize);
    let u = view_words(u_plane, u_stride as usize, chroma_width as usize, chroma_height as usize);
    let v = view_words(v_plane, v_stride as usize, chroma_width as usize, chroma_height as usize);
    if !planes_admit(kernel.family, range, y.borrow(), u.borrow(), v.borrow()) {
        return Err(PixelError::SampleOutOfRange);
    }
    Ok(Some(StagedPlanes { kernel, y, u, v, chroma_width, chroma_height }))
}

/// Converts an 8-bit planar image to packed RGBA with opaque alpha. The
/// strides count bytes. Only bytes that belong to a pixel of `rgba` change.
pub fn weave_yuv8_to_rgba8(
    y_plane: &[u8],
    y_stride: u32,
    u_plane: &[u8],
    u_stride: u32,
    v_plane: &[u8],
    v_stride: u32,
    rgba: &mut [u8],
    rgba_stride: u32,
    width: u32,
    height: u32,
    range: YuvRange,
    yuv_matrix: YuvMatrix,
    yuv_type: YuvType,
) -> (r: Result<(), PixelError>)
    ensures
        final(rgba)@.len() == old(rgba)@.len(),
        converts(
            r,
            yuv_matrix.admits(yuv_type),
            width == 0 || height == 0,
            planar_fits(
                y_plane@.len(),
                y_stride,
                u_plane@.len(),
                u_stride,
                v_plane@.len(),
                v_stride,
                old(rgba)@.len(),
                rgba_stride,
                width,
                height,
                yuv_type,
                1,
            ),
        ),
        !reaches_kernel(
            yuv_matrix.admits(yuv_type),
            width == 0 || height == 0,
            planar_fits(
                y_plane@.len(),
                y_stride,
                u_plane@.len(),
                u_stride,
                v_plane@.len(),
                v_stride,
                old(rgba)@.len(),
                rgba_stride,
                width,
                height,
                yuv_type,
                1,
            ),
        ) ==> final(rgba)@ == old(rgba)@,
        same_padding(old(rgba)@, final(rgba)@, rgba_stride as int, 4 * width, height as int),
        r is Ok && yuv_matrix != YuvMatrix::YCgCo ==> opaque(
            final(rgba)@,
            rgba_stride as int,
            width as int,
            height as int,
            255u8,
        ),
        r is Ok && yuv_matrix == YuvMatrix::Identity && range == YuvRange::Pc ==> swapped(
            y_plane@,
            y_stride as int,
            u_plane@,
            u_stride as int,
            v_plane@,
            v_stride as int,
            final(rgba)@,
            rgba_stride as int,
            width as int,
            height as int,
            255u8,
        ),
{
    let kernel = match select_kernel(yuv_type, yuv_matrix, 8, false) {
        Ok(kernel) => kernel,
        Err(e) => {
            return Err(e);
        },
    };
    if width == 0 || height == 0 {
        return Ok(());
    }
    let fits = check_planes(
        y_plane.len(),
        y_stride,
        u_plane.len(),
        u_stride,
        v_plane.len(),
        v_stride,
        width,
        height,
        yuv_type,
        1,
    ) && check_packed(rgba.len(), rgba_stride, width, height, 4);
    if !fits {
        return Err(PixelError::GeometryViolation);
    }
    let chroma_width = yuv_type.chroma_width(width) as u64;
    let chroma_height = yuv_type.chroma_height(height);
    let image = Planar {
        y: leading_rows(y_plane, y_stride, width as u64, height),
        y_stride,
        u: leading_rows(u_plane, u_stride, chroma_width, chroma_height),
        u_stride,
        v: leading_rows(v_plane, v_stride, chroma_width, chroma_height),
        v_stride,
        width,
        height,
    };
    let ghost base = rgba@;
    if rgba_stride as u64 == 4 * (width as u64) {
        let (target, _) = rgba.split_at_mut((rgba_stride as usize) * (height as usize));
        let r = run_planar8(kernel, &image, target, rgba_stride, range);
        let ghost written = target@;
        proof {
            assert(rgba@.subrange(0, rgba_stride * height) =~= written);
            lemma_packed_rows_have_no_padding(base, rgba@, rgba_stride as int, height as int);
            if yuv_matrix != YuvMatrix::YCgCo {
                lemma_opaque_of_leading_rows(
                    rgba@,
                    rgba_stride as int,
                    width as int,
                    height as int,
                    255u8,
                );
            }
            if yuv_matrix == YuvMatrix::Identity && range == YuvRange::Pc {
                lemma_swapped_of_leading_rows(
                    y_plane@,
                    y_stride as int,
                    u_plane@,
                    u_stride as int,
                    v_plane@,
                    v_stride as int,
                    rgba@,
                    rgba_stride as int,
                    width as int,
                    height as int,
                    255u8,
                );
            }
        }
        r
    } else {
        let row: u32 = 4 * width;
        assert(row * height <= rgba_stride * height) by (nonlinear_arith)
            requires
                row <= rgba_stride,
        ;
        let mut scratch = vec![0u8; (row as usize) * (height as usize)];
        let r = run_planar8(kernel, &image, scratch.as_mut_slice(), row, range);
        if r.is_ok() {
            copy_rows(
                scratch.as_slice(),
                row as usize,
                rgba,
                rgba_stride as usize,
                row as usize,
                height as usize,
            );
        }
        proof {
            assert(scratch@.subrange(0, row * height) =~= scratch@);
            lemma_copy_keeps_padding(
                base,
                scratch@,
                row as int,
                rgba_stride as int,
                row as int,
                height as int,
            );
            lemma_pixel_of_copied_rows(
                base,
                scratch@,
                row as int,
                rgba_stride as int,
                width as int,
                height as int,
            );
            if yuv_matrix != YuvMatrix::YCgCo {
                lemma_opaque_of_leading_rows(
                    scratch@,
                    row as int,
                    width as int,
                    height as int,
                    255u8,
                );
            }
            if yuv_matrix == YuvMatrix::Identity && range == YuvRange::Pc {
                lemma_swapped_of_leading_rows(
                    y_plane@,
                    y_stride as int,
                    u_plane@,
                    u_stride as int,
                    v_plane@,
                    v_stride as int,
                    scratch@,
                    row as int,
                    width as int,
                    height as int,
                    255u8,
                );
            }
        }
        r
    }
}

/// Expands an 8-bit luma plane to packed RGBA with opaque alpha. Only a Kr/Kb
/// matrix defines this conversion. Every pixel arrives grey; in a full-range
/// image the grey is the luma sample. Only bytes that belong to a pixel of
/// `rgba` change.
pub fn weave_yuv400_to_rgba8(
    y_plane: &[u8],
    y_stride: u32,
    rgba: &mut [u8],
    rgba_stride: u32,
    width: u32,
    height: u32,
    range: YuvRange,
    yuv_matrix: YuvMatrix,
) -> (r: Result<(), PixelError>)
    ensures
        final(rgba)@.len() == old(rgba)@.len(),
        converts(
            r,
            yuv_matrix.is_standard(),
            width == 0 || height == 0,
            gray_fits(
                y_plane@.len(),
                y_stride,
                old(rgba)@.len(),
                rgba_stride,
                width,
                height,
                1,
            ),
        ),
        !reaches_kernel(
            yuv_matrix.is_standard(),
            width == 0 || height == 0,
            gray_fits(
                y_plane@.len(),
                y_stride,
                old(rgba)@.len(),
                rgba_stride,
                width,
                height,
                1,
            ),
        ) ==> final(rgba)@ == old(rgba)@,
        same_padding(old(rgba)@, final(rgba)@, rgba_stride as int, 4 * width, height as int),
        r is Ok ==> grey(
            final(rgba)@,
            rgba_stride as int,
            width as int,
            height as int,
            255u8,
        ),
        r is Ok && range == YuvRange::Pc ==> spread(
            y_plane@,
            y_stride as int,
            final(rgba)@,
            rgba_stride as int,
            width as int,
            height as int,
            255u8,
        ),
{
    let matrix = match yuv_matrix.standard() {
        Ok(matrix) => matrix,
        Err(e) => {
            return Err(e);
        },
    };
    if width == 0 || height == 0 {
        return Ok(());
    }
    let fits = check_plane(y_plane.len(), y_stride, width as u64, height)
        && check_packed(rgba.len(), rgba_stride, width, height, 4);
    if !fits {
        return Err(PixelError::GeometryViolation);
    }
    let image = Gray {
        y: leading_rows(y_plane, y_stride, width as u64, height),
        y_stride,
        width,
        height,
    };
    let ghost base = rgba@;
    if rgba_stride as u64 == 4 * (width as u64) {
        let (target, _) = rgba.split_at_mut((rgba_stride as usize) * (height as usize));
        let r = settle(decode8::yuv400_to_rgba(&image, target, rgba_stride, range, matrix));
        let ghost written = target@;
        proof {
            assert(rgba@.subrange(0, rgba_stride * height) =~= written);
            lemma_packed_rows_have_no_padding(base, rgba@, rgba_stride as int, height as int);
            lemma_grey_of_leading_rows(
                rgba@,
                rgba_stride as int,
                width as int,
                height as int,
                255u8,
            );
            if range == YuvRange::Pc {
                lemma_spread_of_leading_rows(
                    y_plane@,
                    y_stride as int,
                    rgba@,
                    rgba_stride as int,
                    width as int,
                    height as int,
                    255u8,
                );
            }
        }
        r
    } else {
        let row: u32 = 4 * width;
        assert(row * height <= rgba_stride * height) by (nonlinear_arith)
            requires
                row <= rgba_stride,
        ;
        let mut scratch = vec![0u8; (row as usize) * (height as usize)];
        let r = settle(decode8::yuv400_to_rgba(&image, scratch.as_mut_slice(), row, range, matrix));
        if r.is_ok() {
            copy_rows(
                scratch.as_slice(),
                row as usize,
                rgba,
                rgba_stride as usize,
                row as usize,
                height as usize,
            );
        }
        proof {
            assert(scratch@.subrange(0, row * height) =~= scratch@);
            lemma_copy_keeps_padding(
                base,
                scratch@,
                row as int,
                rgba_stride as int,
                row as int,
                height as int,
            );
            lemma_pixel_of_copied_rows(
                base,
                scratch@,
                row as int,
                rgba_stride as int,
                width as int,
                height as int,
            );
            lemma_grey_of_leading_rows(
                scratch@,
                row as int,
                width as int,
                height as int,
                255u8,
            );
            if range == YuvRange::Pc {
                lemma_spread_of_leading_rows(
                    y_plane@,
                    y_stride as int,
                    scratch@,
                    row as int,
                    width as int,
                    height as int,
                    255u8,
                );
            }
        }
        r
    }
}

/// Expands 8-bit luma and alpha planes to packed RGBA. Only a Kr/Kb matrix
/// defines this conversion. Every pixel arrives grey, with the alpha of its
/// alpha plane; in a full-range image the grey is the luma sample. Only bytes
/// that belong to a pixel of `rgba` change.
pub fn weave_yuv400_with_alpha_to_rgba8(
    y_plane: &[u8],
    y_stride: u32,
    a_plane: &[u8],
    a_stride: u32,
    rgba: &mut [u8],
    rgba_stride: u32,
    width: u32,
    height: u32,
    range: YuvRange,
    yuv_matrix: YuvMatrix,
) -> (r: Result<(), PixelError>)
    ensures
        final(rgba)@.len() == old(rgba)@.len(),
        converts(
            r,
            yuv_matrix.is_standard(),
            width == 0 || height == 0,
            gray_alpha_fits(
                y_plane@.len(),
                y_stride,
                a_plane@.len(),
                a_stride,
                old(rgba)@.len(),
                rgba_stride,
                width,
                height,
                1,
            ),
        ),
        !reaches_kernel(
            yuv_matrix.is_standard(),
            width == 0 || height == 0,
            gray_alpha_fits(
                y_plane@.len(),
                y_stride,
                a_plane@.len(),
                a_stride,
                old(rgba)@.len(),
                rgba_stride,
                width,
                height,
                1,
            ),
        ) ==> final(rgba)@ == old(rgba)@,
        same_padding(old(rgba)@, final(rgba)@, rgba_stride as int, 4 * width, height as int),
        r is Ok ==> grey_with_alpha(
            a_plane@,
            a_stride as int,
            final(rgba)@,
            rgba_stride as int,
            width as int,
            height as int,
        ),
        r is Ok && range == YuvRange::Pc ==> spread_with_alpha(
            y_plane@,
            y_stride as int,
            a_plane@,
            a_stride as int,
            final(rgba)@,
            rgba_stride as int,
            width as int,
            height as int,
        ),
{
    let matrix = match yuv_matrix.standard() {
        Ok(matrix) => matrix,
        Err(e) => {
            return Err(e);
        },
    };
    if width == 0 || height == 0 {
        return Ok(());
    }
    let fits = check_plane(y_plane.len(), y_stride, width as u64, height)
        && check_plane(a_plane.len(), a_stride, width as u64, height)
        && check_packed(rgba.len(), rgba_stride, width, height, 4);
    if !fits {
        return Err(PixelError::GeometryViolation);
    }
    let image = GrayAlpha {
        y: leading_rows(y_plane, y_stride, width as u64, height),
        y_stride,
        a: leading_rows(a_plane, a_stride, width as u64, height),
        a_stride,
        width,
        height,
    };
    let ghost base = rgba@;
    if rgba_stride as u64 == 4 * (width as u64) {
        let (target, _) = rgba.split_at_mut((rgba_stride as usize) * (height as usize));
        let r = settle(decode8::yuv400_alpha_to_rgba(&image, target, rgba_stride, range, matrix));
        let ghost written = target@;
        proof {
            assert(rgba@.subrange(0, rgba_stride * height) =~= written);
            lemma_packed_rows_have_no_padding(base, rgba@, rgba_stride as int, height as int);
            lemma_grey_with_alpha_of_leading_rows(
                a_plane@,
                a_stride as int,
                rgba@,
                rgba_stride as int,
                width as int,
                height as int,
            );
            if range == YuvRange::Pc {
                lemma_spread_with_alpha_of_leading_rows(
                    y_plane@,
                    y_stride as int,
                    a_plane@,
                    a_stride as int,
                    rgba@,
                    rgba_stride as int,
                    width as int,
                    height as int,
                );
            }
        }
        r
    } else {
        let row: u32 = 4 * width;
        assert(row * height <= rgba_stride * height) by (nonlinear_arith)
            requires
                row <= rgba_stride,
        ;
        let mut scratch = vec![0u8; (row as usize) * (height as usize)];
        let r = settle(decode8::yuv400_alpha_to_rgba(&image, scratch.as_mut_slice(), row, range, matrix));
        if r.is_ok() {
            copy_rows(
                scratch.as_slice(),
                row as usize,
                rgba,
                rgba_stride as usize,
                row as usize,
                height as usize,
            );
        }
        proof {
            assert(scratch@.subrange(0, row * height) =~= scratch@);
            lemma_copy_keeps_padding(
                base,
                scratch@,
                row as int,
                rgba_stride as int,
                row as int,
                height as int,
            );
            lemma_pixel_of_copied_rows(
                base,
                scratch@,
                row as int,
                rgba_stride as int,
                width as int,
                height as int,
            );
            lemma_grey_with_alpha_of_leading_rows(
                a_plane@,
                a_stride as int,
                scratch@,
                row as int,
                width as int,
                height as int,
            );
            if range == YuvRange::Pc {
                lemma_spread_with_alpha_of_leading_rows(
                    y_plane@,
                    y_stride as int,
                    a_plane@,
                    a_stride as int,
                    scratch@,
                    row as int,
                    width as int,
                    height as int,
                );
            }
        }
        r
    }
}

/// Expands a 10- or 12-bit luma plane to packed RGBA of the same depth. Every
/// pixel arrives grey, with opaque alpha; in a full-range image the grey is
/// the luma sample. A limited-range plane with a sample of 0x8000 or more is
/// refused. Every buffer is byte memory that holds native-order 16-bit samples
/// and may start at an odd address; the strides count bytes. A plane is read
/// in place where its memory is packed and word-aligned and through a staged
/// copy otherwise; the result is written in place or staged and written back
/// likewise. Only bytes that belong to a pixel of `rgba` change.
pub fn weave_yuv400_p16_to_rgba16(
    y_plane: &[u8],
    y_stride: u32,
    rgba: &mut [u8],
    rgba_stride: u32,
    bit_depth: u32,
    width: u32,
    height: u32,
    range: YuvRange,
    yuv_matrix: YuvMatrix,
) -> (r: Result<(), PixelError>)
    ensures
        final(rgba)@.len() == old(rgba)@.len(),
        converts_samples(
            r,
            yuv_matrix.is_standard() && (bit_depth == 10 || bit_depth == 12),
            width == 0 || height == 0,
            gray_fits(
                y_plane@.len(),
                y_stride,
                old(rgba)@.len(),
                rgba_stride,
                width,
                height,
                2,
            ),
            luma_admitted(
                range,
                unpack_words(y_plane@, y_stride as int, width as int, height as int),
            ),
        ),
        r is Err ==> final(rgba)@ == old(rgba)@,
        !reaches_kernel(
            yuv_matrix.is_standard() && (bit_depth == 10 || bit_depth == 12),
            width == 0 || height == 0,
            gray_fits(
                y_plane@.len(),
                y_stride,
                old(rgba)@.len(),
                rgba_stride,
                width,
                height,
                2,
            ),
        ) ==> final(rgba)@ == old(rgba)@,
        same_padding(old(rgba)@, final(rgba)@, rgba_stride as int, 8 * width, height as int),
        r is Ok ==> grey(
            unpack_words(final(rgba)@, rgba_stride as int, 4 * width, height as int),
            4 * width,
            width as int,
            height as int,
            if bit_depth == 10 {
                1023u16
            } else {
                4095u16
            },
        ),
        r is Ok && range == YuvRange::Pc ==> spread(
            unpack_words(y_plane@, y_stride as int, width as int, height as int),
            width as int,
            unpack_words(final(rgba)@, rgba_stride as int, 4 * width, height as int),
            4 * width,
            width as int,
            height as int,
            if bit_depth == 10 {
                1023u16
            } else {
                4095u16
            },
        ),
{
    let depth = match SampleDepth::from_bits(bit_depth) {
        Some(depth) => depth,
        None => {
            return Err(PixelError::UnsupportedCombination);
        },
    };
    if bit_depth == 8 {
        return Err(PixelError::UnsupportedCombination);
    }
    let matrix = match yuv_matrix.standard() {
        Ok(matrix) => matrix,
        Err(e) => {
            return Err(e);
        },
    };
    if width == 0 || height == 0 {
        return Ok(());
    }
    let fits = check_plane(y_plane.len(), y_stride, 2 * (width as u64), height)
        && check_packed(rgba.len(), rgba_stride, width, height, 8);
    if !fits {
        return Err(PixelError::GeometryViolation);
    }
    let y_view = view_words(y_plane, y_stride as usize, width as usize, height as usize);
    if !luma_admits(range, y_view.borrow()) {
        return Err(PixelError::SampleOutOfRange);
    }
    let image = Gray {
        y: y_view.borrow(),
        y_stride: width,
        width,
        height,
    };
    let row: u32 = 4 * width;
    let ghost base = rgba@;
    let mut working = SliceStoreMut::working(
        rgba,
        rgba_stride as usize,
        row as usize,
        height as usize,
    );
    let r = run_gray16(depth, &image, working.borrow_mut(), row, range, matrix);
    let ghost produced = working@;
    write_back_if_staged(
        working.into_staged(),
        r.is_ok(),
        rgba,
        rgba_stride as usize,
        row as usize,
        height as usize,
        Ghost(base),
        Ghost(produced),
    );
    proof {
        if r is Ok {
            lemma_view_of_written_back(
                base,
                produced,
                rgba_stride as int,
                row as int,
                height as int,
            );
        }
    }
    r
}

/// Expands 10- or 12-bit luma and alpha planes to packed RGBA of the same
/// depth. Every pixel arrives grey, with the alpha of its alpha plane; in a
/// full-range image the grey is the luma sample. A limited-range plane with a
/// sample of 0x8000 or more is refused. Every buffer is byte memory that holds
/// native-order 16-bit samples and may start at an odd address; the strides
/// count bytes. A plane is read in place where its memory is packed and
/// word-aligned and through a staged copy otherwise; the result is written in
/// place or staged and written back likewise. Only bytes that belong to a
/// pixel of `rgba` change.
pub fn weave_yuv400_p16_with_alpha_to_rgba16(
    y_plane: &[u8],
    y_stride: u32,
    a_plane: &[u8],
    a_stride: u32,
    rgba: &mut [u8],
    rgba_stride: u32,
    bit_depth: u32,
    width: u32,
    height: u32,
    range: YuvRange,
    yuv_matrix: YuvMatrix,
) -> (r: Result<(), PixelError>)
    ensures
        final(rgba)@.len() == old(rgba)@.len(),
        converts_samples(
            r,
            yuv_matrix.is_standard() && (bit_depth == 10 || bit_depth == 12),
            width == 0 || height == 0,
            gray_alpha_fits(
                y_plane@.len(),
                y_stride,
                a_plane@.len(),
                a_stride,
                old(rgba)@.len(),
                rgba_stride,
                width,
                height,
                2,
            ),
            luma_admitted(
                range,
                unpack_words(y_plane@, y_stride as int, width as int, height as int),
            ),
        ),
        r is Err ==> final(rgba)@ == old(rgba)@,
        !reaches_kernel(
            yuv_matrix.is_standard() && (bit_depth == 10 || bit_depth == 12),
            width == 0 || height == 0,
            gray_alpha_fits(
                y_plane@.len(),
                y_stride,
                a_plane@.len(),
                a_stride,
                old(rgba)@.len(),
                rgba_stride,
                width,
                height,
                2,
            ),
        ) ==> final(rgba)@ == old(rgba)@,
        same_padding(old(rgba)@, final(rgba)@, rgba_stride as int, 8 * width, height as int),
        r is Ok ==> grey_with_alpha(
            unpack_words(a_plane@, a_stride as int, width as int, height as int),
            width as int,
            unpack_words(final(rgba)@, rgba_stride as int, 4 * width, height as int),
            4 * width,
            width as int,
            height as int,
        ),
        r is Ok && range == YuvRange::Pc ==> spread_with_alpha(
            unpack_words(y_plane@, y_stride as int, width as int, height as int),
            width as int,
            unpack_words(a_plane@, a_stride as int, width as int, height as int),
            width as int,
            unpack_words(final(rgba)@, rgba_stride as int, 4 * width, height as int),
            4 * width,
            width as int,
            height as int,
        ),
{
    let depth = match SampleDepth::from_bits(bit_depth) {
        Some(depth) => depth,
        None => {
            return Err(PixelError::UnsupportedCombination);
        },
    };
    if bit_depth == 8 {
        return Err(PixelError::UnsupportedCombination);
    }
    let matrix = match yuv_matrix.standard() {
        Ok(matrix) => matrix,
        Err(e) => {
            return Err(e);
        },
    };
    if width == 0 || height == 0 {
        return Ok(());
    }
    let fits = check_plane(y_plane.len(), y_stride, 2 * (width as u64), height)
        && check_plane(a_plane.len(), a_stride, 2 * (width as u64), height)
        && check_packed(rgba.len(), rgba_stride, width, height, 8);
    if !fits {
        return Err(PixelError::GeometryViolation);
    }
    let y_view = view_words(y_plane, y_stride as usize, width as usize, height as usize);
    let a_view = view_words(a_plane, a_stride as usize, width as usize, height as usize);
    if !luma_admits(range, y_view.borrow()) {
        return Err(PixelError::SampleOutOfRange);
    }
    let image = GrayAlpha {
        y: y_view.borrow(),
        y_stride: width,
        a: a_view.borrow(),
        a_stride: width,
        width,
        height,
    };
    let row: u32 = 4 * width;
    let ghost base = rgba@;
    let mut working = SliceStoreMut::working(
        rgba,
        rgba_stride as usize,
        row as usize,
        height as usize,
    );
    let r = run_gray16_alpha(depth, &image, working.borrow_mut(), row, range, matrix);
    let ghost produced = working@;
    write_back_if_staged(
        working.into_staged(),
        r.is_ok(),
        rgba,
        rgba_stride as usize,
        row as usize,
        height as usize,
        Ghost(base),
        Ghost(produced),
    );
    proof {
        if r is Ok {
            lemma_view_of_written_back(
                base,
                produced,
                rgba_stride as int,
                row as int,
                height as int,
            );
        }
    }
    r
}

/// Converts an 8-bit planar image with an alpha plane to packed RGBA with
/// straight alpha. The strides count bytes. Only bytes that belong to a pixel
/// of `rgba` change.
pub fn weave_yuv8_with_alpha_to_rgba8(
    y_plane: &[u8],
    y_stride: u32,
    u_plane: &[u8],
    u_stride: u32,
    v_plane: &[u8],
    v_stride: u32,
    a_plane: &[u8],
    a_stride: u32,
    rgba: &mut [u8],
    rgba_stride: u32,
    width: u32,
    height: u32,
    range: YuvRange,
    yuv_matrix: YuvMatrix,
    yuv_type: YuvType,
) -> (r: Result<(), PixelError>)
    ensures
        final(rgba)@.len() == old(rgba)@.len(),
        converts(
            r,
            yuv_matrix.admits(yuv_type),
            width == 0 || height == 0,
            planar_alpha_fits(
                y_plane@.len(),
                y_stride,
                u_plane@.len(),
                u_stride,
                v_plane@.len(),
                v_stride,
                a_plane@.len(),
                a_stride,
                old(rgba)@.len(),
                rgba_stride,
                width,
                height,
                yuv_type,
                1,
            ),
        ),
        !reaches_kernel(
            yuv_matrix.admits(yuv_type),
            width == 0 || height == 0,
            planar_alpha_fits(
                y_plane@.len(),
                y_stride,
                u_plane@.len(),
                u_stride,
                v_plane@.len(),
                v_stride,
                a_plane@.len(),
                a_stride,
                old(rgba)@.len(),
                rgba_stride,
                width,
                height,
                yuv_type,
                1,
            ),
        ) ==> final(rgba)@ == old(rgba)@,
        same_padding(old(rgba)@, final(rgba)@, rgba_stride as int, 4 * width, height as int),
        r is Ok ==> alpha_from(
            a_plane@,
            a_stride as int,
            final(rgba)@,
            rgba_stride as int,
            width as int,
            height as int,
        ),
        r is Ok && yuv_matrix == YuvMatrix::Identity && range == YuvRange::Pc ==> swapped_with_alpha(
            y_plane@,
            y_stride as int,
            u_plane@,
            u_stride as int,
            v_plane@,
            v_stride as int,
            a_plane@,
            a_stride as int,
            final(rgba)@,
            rgba_stride as int,
            width as int,
            height as int,
        ),
{
    let kernel = match select_kernel(yuv_type, yuv_matrix, 8, true) {
        Ok(kernel) => kernel,
        Err(e) => {
            return Err(e);
        },
    };
    if width == 0 || height == 0 {
        return Ok(());
    }
    let fits = check_planes(
        y_plane.len(),
        y_stride,
        u_plane.len(),
        u_stride,
        v_plane.len(),
        v_stride,
        width,
        height,
        yuv_type,
        1,
    ) && check_plane(a_plane.len(), a_stride, width as u64, height)
        && check_packed(rgba.len(), rgba_stride, width, height, 4);
    if !fits {
        return Err(PixelError::GeometryViolation);
    }
    let chroma_width = yuv_type.chroma_width(width) as u64;
    let chroma_height = yuv_type.chroma_height(height);
    let image = PlanarAlpha {
        y: leading_rows(y_plane, y_stride, width as u64, height),
        y_stride,
        u: leading_rows(u_plane, u_stride, chroma_width, chroma_height),
        u_stride,
        v: leading_rows(v_plane, v_stride, chroma_width, chroma_height),
        v_stride,
        a: leading_rows(a_plane, a_stride, width as u64, height),
        a_stride,
        width,
        height,
    };
    let ghost base = rgba@;
    if rgba_stride as u64 == 4 * (width as u64) {
        let (target, _) = rgba.split_at_mut((rgba_stride as usize) * (height as usize));
        let r = run_planar8_alpha(kernel, &image, target, rgba_stride, range);
        let ghost written = target@;
        proof {
            assert(rgba@.subrange(0, rgba_stride * height) =~= written);
            lemma_packed_rows_have_no_padding(base, rgba@, rgba_stride as int, height as int);
            lemma_alpha_of_leading_rows(
                a_plane@,
                a_stride as int,
                rgba@,
                rgba_stride as int,
                width as int,
                height as int,
            );
            if yuv_matrix == YuvMatrix::Identity && range == YuvRange::Pc {
                lemma_swapped_with_alpha_of_leading_rows(
                    y_plane@,
                    y_stride as int,
                    u_plane@,
                    u_stride as int,
                    v_plane@,
                    v_stride as int,
                    a_plane@,
                    a_stride as int,
                    rgba@,
                    rgba_stride as int,
                    width as int,
                    height as int,
                );
            }
        }
        r
    } else {
        let row: u32 = 4 * width;
        assert(row * height <= rgba_stride * height) by (nonlinear_arith)
            requires
                row <= rgba_stride,
        ;
        let mut scratch = vec![0u8; (row as usize) * (height as usize)];
        let r = run_planar8_alpha(kernel, &image, scratch.as_mut_slice(), row, range);
        if r.is_ok() {
            copy_rows(
                scratch.as_slice(),
                row as usize,
                rgba,
                rgba_stride as usize,
                row as usize,
                height as usize,
            );
        }
        proof {
            assert(scratch@.subrange(0, row * height) =~= scratch@);
            lemma_copy_keeps_padding(
                base,
                scratch@,
                row as int,
                rgba_stride as int,
                row as int,
                height as int,
            );
            lemma_pixel_of_copied_rows(
                base,
                scratch@,
                row as int,
                rgba_stride as int,
                width as int,
                height as int,
            );
            lemma_alpha_of_leading_rows(
                a_plane@,
                a_stride as int,
                scratch@,
                row as int,
                width as int,
                height as int,
            );
            if yuv_matrix == YuvMatrix::Identity && range == YuvRange::Pc {
                lemma_swapped_with_alpha_of_leading_rows(
                    y_plane@,
                    y_stride as int,
                    u_plane@,
                    u_stride as int,
                    v_plane@,
                    v_stride as int,
                    a_plane@,
                    a_stride as int,
                    scratch@,
                    row as int,
                    width as int,
                    height as int,
                );
            }
        }
        r
    }
}

/// Converts a 10- or 12-bit planar image to packed RGBA of the same depth with
/// opaque alpha. Under the identity and the YCgCo matrix an image with a
/// sample that the routine cannot take is refused (`planes_admitted`). Every
/// buffer is byte memory that holds native-order 16-bit samples and may start
/// at an odd address; the strides count bytes. A plane is read in place where
/// its memory is packed and word-aligned and through a staged copy otherwise;
/// the result is written in place or staged and written back likewise. Only
/// bytes that belong to a pixel of `rgba` change.
pub fn weave_yuv16_to_rgba16(
    y_plane: &[u8],
    y_stride: u32,
    u_plane: &[u8],
    u_stride: u32,
    v_plane: &[u8],
    v_stride: u32,
    rgba: &mut [u8],
    rgba_stride: u32,
    bit_depth: u32,
    width: u32,
    height: u32,
    range: YuvRange,
    yuv_matrix: YuvMatrix,
    yuv_type: YuvType,
) -> (r: Result<(), PixelError>)
    ensures
        final(rgba)@.len() == old(rgba)@.len(),
        converts_samples(
            r,
            yuv_matrix.admits(yuv_type) && (bit_depth == 10 || bit_depth == 12),
            width == 0 || height == 0,
            planar_fits(
                y_plane@.len(),
                y_stride,
                u_plane@.len(),
                u_stride,
                v_plane@.len(),
                v_stride,
                old(rgba)@.len(),
                rgba_stride,
                width,
                height,
                yuv_type,
                2,
            ),
            samples_admitted(
                yuv_matrix,
                range,
                y_plane@,
                y_stride,
                u_plane@,
                u_stride,
                v_plane@,
                v_stride,
                width,
                height,
                yuv_type,
            ),
        ),
        r is Err ==> final(rgba)@ == old(rgba)@,
        !reaches_kernel(
            yuv_matrix.admits(yuv_type) && (bit_depth == 10 || bit_depth == 12),
            width == 0 || height == 0,
            planar_fits(
                y_plane@.len(),
                y_stride,
                u_plane@.len(),
                u_stride,
                v_plane@.len(),
                v_stride,
                old(rgba)@.len(),
                rgba_stride,
                width,
                height,
                yuv_type,
                2,
            ),
        ) ==> final(rgba)@ == old(rgba)@,
        same_padding(old(rgba)@, final(rgba)@, rgba_stride as int, 8 * width, height as int),
        r is Ok ==> opaque(
            unpack_words(final(rgba)@, rgba_stride as int, 4 * width, height as int),
            4 * width,
            width as int,
            height as int,
            if bit_depth == 10 {
                1023u16
            } else {
                4095u16
            },
        ),
        r is Ok && yuv_matrix == YuvMatrix::Identity && range == YuvRange::Pc ==> swapped(
            unpack_words(y_plane@, y_stride as int, width as int, height as int),
            width as int,
            unpack_words(u_plane@, u_stride as int, width as int, height as int),
            width as int,
            unpack_words(v_plane@, v_stride as int, width as int, height as int),
            width as int,
            unpack_words(final(rgba)@, rgba_stride as int, 4 * width, height as int),
            4 * width,
            width as int,
            height as int,
            if bit_depth == 10 {
                1023u16
            } else {
                4095u16
            },
        ),
{
    let staged = match stage_planar16(
        y_plane,
        y_stride,
        u_plane,
        u_stride,
        v_plane,
        v_stride,
        bit_depth,
        width,
        height,
        range,
        yuv_matrix,
        yuv_type,
        false,
    ) {
        Ok(Some(staged)) => staged,
        Ok(None) => {
            return Ok(());
        },
        Err(e) => {
            if e == PixelError::SampleOutOfRange && !(check_packed(rgba.len(), rgba_stride, width, height, 8)) {
                return Err(PixelError::GeometryViolation);
            }
            return Err(e);
        },
    };
    let fits = check_packed(rgba.len(), rgba_stride, width, height, 8);
    if !fits {
        return Err(PixelError::GeometryViolation);
    }
    let kernel = staged.kernel;
    let image = Planar {
        y: staged.y.borrow(),
        y_stride: width,
        u: staged.u.borrow(),
        u_stride: staged.chroma_width,
        v: staged.v.borrow(),
        v_stride: staged.chroma_width,
        width,
        height,
    };
    let row: u32 = 4 * width;
    let ghost base = rgba@;
    let mut working = SliceStoreMut::working(
        rgba,
        rgba_stride as usize,
        row as usize,
        height as usize,
    );
    let r = run_planar16(kernel, &image, working.borrow_mut(), row, range);
    let ghost produced = working@;
    write_back_if_staged(
        working.into_staged(),
        r.is_ok(),
        rgba,
        rgba_stride as usize,
        row as usize,
        height as usize,
        Ghost(base),
        Ghost(produced),
    );
    proof {
        if r is Ok {
            lemma_view_of_written_back(
                base,
                produced,
                rgba_stride as int,
                row as int,
                height as int,
            );
        }
    }
    r
}

/// Converts a 10- or 12-bit planar image with an alpha plane to packed RGBA of
/// the same depth. Under the identity and the YCgCo matrix an image with a
/// sample that the routine cannot take is refused (`planes_admitted`). Every
/// buffer is byte memory that holds native-order 16-bit samples and may start
/// at an odd address; the strides count bytes. A plane is read in place where
/// its memory is packed and word-aligned and through a staged copy otherwise;
/// the result is written in place or staged and written back likewise. Only
/// bytes that belong to a pixel of `rgba` change.
pub fn weave_yuv16_with_alpha_to_rgba16(
    y_plane: &[u8],
    y_stride: u32,
    u_plane: &[u8],
    u_stride: u32,
    v_plane: &[u8],
    v_stride: u32,
    a_plane: &[u8],
    a_stride: u32,
    rgba: &mut [u8],
    rgba_stride: u32,
    bit_depth: u32,
    width: u32,
    height: u32,
    range: YuvRange,
    yuv_matrix: YuvMatrix,
    yuv_type: YuvType,
) -> (r: Result<(), PixelError>)
    ensures
        final(rgba)@.len() == old(rgba)@.len(),
        converts_samples(
            r,
            yuv_matrix.admits(yuv_type) && (bit_depth == 10 || bit_depth == 12),
            width == 0 || height == 0,
            planar_alpha_fits(
                y_plane@.len(),
                y_stride,
                u_plane@.len(),
                u_stride,
                v_plane@.len(),
                v_stride,
                a_plane@.len(),
                a_stride,
                old(rgba)@.len(),
                rgba_stride,
                width,
                height,
                yuv_type,
                2,
            ),
            samples_admitted(
                yuv_matrix,
                range,
                y_plane@,
                y_stride,
                u_plane@,
                u_stride,
                v_plane@,
                v_stride,
                width,
                height,
                yuv_type,
            ),
        ),
        r is Err ==> final(rgba)@ == old(rgba)@,
        !reaches_kernel(
            yuv_matrix.admits(yuv_type) && (bit_depth == 10 || bit_depth == 12),
            width == 0 || height == 0,
            planar_alpha_fits(
                y_plane@.len(),
                y_stride,
                u_plane@.len(),
                u_stride,
                v_plane@.len(),
                v_stride,
                a_plane@.len(),
                a_stride,
                old(rgba)@.len(),
                rgba_stride,
                width,
                height,
                yuv_type,
                2,
            ),
        ) ==> final(rgba)@ == old(rgba)@,
        same_padding(old(rgba)@, final(rgba)@, rgba_stride as int, 8 * width, height as int),
        r is Ok ==> alpha_from(
            unpack_words(a_plane@, a_stride as int, width as int, height as int),
            width as int,
            unpack_words(final(rgba)@, rgba_stride as int, 4 * width, height as int),
            4 * width,
            width as int,
            height as int,
        ),
        r is Ok && yuv_matrix == YuvMatrix::Identity && range == YuvRange::Pc ==> swapped_with_alpha(
            unpack_words(y_plane@, y_stride as int, width as int, height as int),
            width as int,
            unpack_words(u_plane@, u_stride as int, width as int, height as int),
            width as int,
            unpack_words(v_plane@, v_stride as int, width as int, height as int),
            width as int,
            unpack_words(a_plane@, a_stride as int, width as int, height as int),
            width as int,
            unpack_words(final(rgba)@, rgba_stride as int, 4 * width, height as int),
            4 * width,
            width as int,
            height as int,
        ),
{
    let staged = match stage_planar16(
        y_plane,
        y_stride,
        u_plane,
        u_stride,
        v_plane,
        v_stride,
        bit_depth,
        width,
        height,
        range,
        yuv_matrix,
        yuv_type,
        true,
    ) {
        Ok(Some(staged)) => staged,
        Ok(None) => {
            return Ok(());
        },
        Err(e) => {
            if e == PixelError::SampleOutOfRange && !(check_plane(a_plane.len(), a_stride, 2 * (width as u64), height) && check_packed(rgba.len(), rgba_stride, width, height, 8)) {
                return Err(PixelError::GeometryViolation);
            }
            return Err(e);
        },
    };
    let fits = check_plane(a_plane.len(), a_stride, 2 * (width as u64), height)
        && check_packed(rgba.len(), rgba_stride, width, height, 8);
    if !fits {
        return Err(PixelError::GeometryViolation);
    }
    let a_view = view_words(a_plane, a_stride as usize, width as usize, height as usize);
    let kernel = staged.kernel;
    let image = PlanarAlpha {
        y: staged.y.borrow(),
        y_stride: width,
        u: staged.u.borrow(),
        u_stride: staged.chroma_width,
        v: staged.v.borrow(),
        v_stride: staged.chroma_width,
        a: a_view.borrow(),
        a_stride: width,
        width,
        height,
    };
    let row: u32 = 4 * width;
    let ghost base = rgba@;
    let mut working = SliceStoreMut::working(
        rgba,
        rgba_stride as usize,
        row as usize,
        height as usize,
    );
    let r = run_planar16_alpha(kernel, &image, working.borrow_mut(), row, range);
    let ghost produced = working@;
    write_back_if_staged(
        working.into_staged(),
        r.is_ok(),
        rgba,
        rgba_stride as usize,
        row as usize,
        height as usize,
        Ghost(base),
        Ghost(produced),
    );
    proof {
        if r is Ok {
            lemma_view_of_written_back(
                base,
                produced,
                rgba_stride as int,
                row as int,
                height as int,
            );
        }
    }
    r
}

/// The routines that turn 10- and 12-bit planes into half-float RGBA, by
/// name. They work on floating-point samples and are called by the caller
/// of `stage_yuv16_to_rgba_f16`.
#[derive(Copy, Clone, Debug, PartialEq, Eq, Structural)]
pub enum HalfRoutine {
    /// G, B, R planes straight to half floats.
    Gbr(SampleDepth),
    /// YUV planes with a Kr/Kb matrix straight to half floats.
    Yuv(YuvType, SampleDepth, StandardMatrix),
    /// YCgCo has no routine of its own: the planes go through the integer
    /// routine that the kernel names, and its RGBA is converted to half
    /// floats.
    ViaIntegers(Kernel),
}

impl HalfRoutine {
    /// The half-float routine that stands for a routine of the dispatch
    /// table.
    pub open spec fn of_kernel(kernel: Kernel) -> HalfRoutine {
        match kernel.family {
            KernelFamily::Gbr => HalfRoutine::Gbr(kernel.depth),
            KernelFamily::YCgCo => HalfRoutine::ViaIntegers(kernel),
            KernelFamily::Standard(matrix) => HalfRoutine::Yuv(kernel.layout, kernel.depth, matrix),
        }
    }

    pub fn for_kernel(kernel: Kernel) -> (routine: HalfRoutine)
        ensures
            routine == Self::of_kernel(kernel),
    {
        match kernel.family {
            KernelFamily::Gbr => HalfRoutine::Gbr(kernel.depth),
            KernelFamily::YCgCo => HalfRoutine::ViaIntegers(kernel),
            KernelFamily::Standard(matrix) => HalfRoutine::Yuv(kernel.layout, kernel.depth, matrix),
        }
    }
}

/// The first half of the conversion from 10- or 12-bit planes to
/// half-float RGBA: everything before the floating-point routine runs. It
/// settles as the integer conversions do: a descriptor without a routine is
/// refused, an empty image is accepted with nothing to do (`None`), planes
/// or a destination that do not hold the image are refused, the destination
/// taking eight bytes a pixel, and so is an image with a sample that its
/// routine cannot take (`planes_admitted`). For an image to convert it
/// gives the staged planes and names the routine to run on them. The result of
/// that routine goes into a working store of the destination
/// (`SliceStoreMut::working`) and, where that store is a staging buffer,
/// back through `write_back_words`.
pub fn stage_yuv16_to_rgba_f16<'a>(
    y_plane: &'a [u8],
    y_stride: u32,
    u_plane: &'a [u8],
    u_stride: u32,
    v_plane: &'a [u8],
    v_stride: u32,
    rgba_len: usize,
    rgba_stride: u32,
    bit_depth: u32,
    width: u32,
    height: u32,
    range: YuvRange,
    yuv_matrix: YuvMatrix,
    yuv_type: YuvType,
) -> (r: Result<Option<(StagedPlanes<'a>, HalfRoutine)>, PixelError>)
    ensures
        !(yuv_matrix.admits(yuv_type) && (bit_depth == 10 || bit_depth == 12)) ==> r is Err
            && r->Err_0 == PixelError::UnsupportedCombination,
        yuv_matrix.admits(yuv_type) && (bit_depth == 10 || bit_depth == 12) ==> {
            if width == 0 || height == 0 {
                r is Ok && r->Ok_0 is None
            } else if !planar_fits(
                y_plane@.len(),
                y_stride,
                u_plane@.len(),
                u_stride,
                v_plane@.len(),
                v_stride,
                rgba_len as nat,
                rgba_stride,
                width,
                height,
                yuv_type,
                2,
            ) {
                r is Err && r->Err_0 == PixelError::GeometryViolation
            } else if !samples_admitted(
                yuv_matrix,
                range,
                y_plane@,
                y_stride,
                u_plane@,
                u_stride,
                v_plane@,
                v_stride,
                width,
                height,
                yuv_type,
            ) {
                r is Err && r->Err_0 == PixelError::SampleOutOfRange
            } else {
                &&& r is Ok
                &&& r->Ok_0 matches Some(job)
                &&& Some(job.0.kernel) == kernel_for(yuv_type, yuv_matrix, bit_depth as int, false)
                &&& job.1 == HalfRoutine::of_kernel(job.0.kernel)
                &&& job.0.chroma_width == yuv_type.chroma_width_of(width as int)
                &&& job.0.chroma_height == yuv_type.chroma_height_of(height as int)
                &&& job.0.y@ == unpack_words(
                    y_plane@,
                    y_stride as int,
                    width as int,
                    height as int,
                )
                &&& job.0.u@ == unpack_words(
                    u_plane@,
                    u_stride as int,
                    job.0.chroma_width as int,
                    job.0.chroma_height as int,
                )
                &&& job.0.v@ == unpack_words(
                    v_plane@,
                    v_stride as int,
                    job.0.chroma_width as int,
                    job.0.chroma_height as int,
                )
            }
        },
{
    let staged = match stage_planar16(
        y_plane,
        y_stride,
        u_plane,
        u_stride,
        v_plane,
        v_stride,
        bit_depth,
        width,
        height,
        range,
        yuv_matrix,
        yuv_type,
        false,
    ) {
        Ok(Some(staged)) => staged,
        Ok(None) => {
            return Ok(None);
        },
        Err(e) => {
            if e == PixelError::SampleOutOfRange && !check_packed(
                rgba_len,
                rgba_stride,
                width,
                height,
                8,
            ) {
                return Err(PixelError::GeometryViolation);
            }
            return Err(e);
        },
    };
    if !check_packed(rgba_len, rgba_stride, width, height, 8) {
        return Err(PixelError::GeometryViolation);
    }
    let routine = HalfRoutine::for_kernel(staged.kernel);
    Ok(Some((staged, routine)))
}

} // verus!
