//! Packed 8-bit RGBA to planar YUV (and G, B, R) images.
//!
//! The entry points settle as the decoders do: a descriptor without a
//! routine is refused, an empty image is accepted untouched, buffers that do
//! not hold the image are refused, and only then does the numeric routine
//! run, which then succeeds. What its arithmetic writes is left open; where
//! it does none, on a full-range image under the identity matrix, the planes
//! are stated. Two libraries offer these routines; each pair of entry points
//! keeps to one of them.
//!
//! Only the samples of a plane change: the padding behind a row and what
//! follows the last row keep their bytes. Planes whose rows lie back to back
//! are written in place. For planes with padding the routine writes packed
//! planes of its own, and the rows are copied from there.

use crate::dispatch::{run_encode, run_encode_yuv, settle, settle_encoder};
use crate::format::{
    check_plane, converts, plane_fits, reaches_kernel, select_kernel, PixelError, YuvMatrix,
    YuvRange, YuvType,
};
use crate::icc::{copy_rows, lemma_copied_sample, lemma_copy_keeps_padding, rows_copied};
use crate::kernels::{encode, encode_yuv};
use crate::planes::{
    check_packed, check_planes, leading_rows, lemma_split_of_leading_rows, packed_fits,
    pixel_at, planes_fit, split_from,
};
use crate::support::{lemma_packed_rows_have_no_padding, same_padding};
use vstd::prelude::*;

verus! {

/// Planes that the rows of split planes were copied into are split planes.
pub proof fn lemma_split_of_copied_rows<T>(
    y_base: Seq<T>,
    y: Seq<T>,
    y_stride: int,
    u_base: Seq<T>,
    u: Seq<T>,
    u_stride: int,
    v_base: Seq<T>,
    v: Seq<T>,
    v_stride: int,
    rgba: Seq<T>,
    rgba_stride: int,
    width: int,
    height: int,
)
    requires
        plane_fits(y_base.len() as int, y_stride, width, height),
        plane_fits(u_base.len() as int, u_stride, width, height),
        plane_fits(v_base.len() as int, v_stride, width, height),
        split_from(y, width, u, width, v, width, rgba, rgba_stride, width, height),
    ensures
        split_from(
            rows_copied(y_base, y, width, y_stride, width, height),
            y_stride,
            rows_copied(u_base, u, width, u_stride, width, height),
            u_stride,
            rows_copied(v_base, v, width, v_stride, width, height),
            v_stride,
            rgba,
            rgba_stride,
            width,
            height,
        ),
{
    let y_after = rows_copied(y_base, y, width, y_stride, width, height);
    let u_after = rows_copied(u_base, u, width, u_stride, width, height);
    let v_after = rows_copied(v_base, v, width, v_stride, width, height);
    assert forall|row: int, col: int| 0 <= row < height && 0 <= col < width implies {
        &&& y_after[row * y_stride + col] == (#[trigger] pixel_at(rgba, rgba_stride, row, col)).1
        &&& u_after[row * u_stride + col] == pixel_at(rgba, rgba_stride, row, col).2
        &&& v_after[row * v_stride + col] == pixel_at(rgba, rgba_stride, row, col).0
    } by {
        lemma_copied_sample(y_base, y, width, y_stride, width, height, row, col);
        lemma_copied_sample(u_base, u, width, u_stride, width, height, row, col);
        lemma_copied_sample(v_base, v, width, v_stride, width, height, row, col);
    }
}

/// The three planes to be written and the RGBA source hold the image.
/// Lengths and strides count bytes.
pub open spec fn planar_target_fits(
    y_len: nat,
    y_stride: u32,
    u_len: nat,
    u_stride: u32,
    v_len: nat,
    v_stride: u32,
    rgba_len: nat,
    rgba_stride: u32,
    width: u32,
    height: u32,
    layout: YuvType,
) -> bool {
    &&& planes_fit(
        y_len as int,
        y_stride as int,
        u_len as int,
        u_stride as int,
        v_len as int,
        v_stride as int,
        width as int,
        height as int,
        layout,
        1,
    )
    &&& packed_fits(rgba_len as int, rgba_stride as int, width as int, height as int, 4)
}

/// The luma plane to be written and the RGBA source hold the image.
pub open spec fn luma_target_fits(
    y_len: nat,
    y_stride: u32,
    rgba_len: nat,
    rgba_stride: u32,
    width: u32,
    height: u32,
) -> bool {
    &&& plane_fits(y_len as int, y_stride as int, width as int, height as int)
    &&& packed_fits(rgba_len as int, rgba_stride as int, width as int, height as int, 4)
}

/// Converts packed RGBA to an 8-bit planar image with the routines of
/// `yuv`. The strides count bytes. Only bytes that belong to a sample of a
/// plane change.
pub fn weave_rgba8_to_yuv8(
    y_plane: &mut [u8],
    y_stride: u32,
    u_plane: &mut [u8],
    u_stride: u32,
    v_plane: &mut [u8],
    v_stride: u32,
    rgba: &[u8],
    rgba_stride: u32,
    width: u32,
    height: u32,
    range: YuvRange,
    yuv_matrix: YuvMatrix,
    yuv_type: YuvType,
) -> (r: Result<(), PixelError>)
    ensures
        same_padding(old(y_plane)@, final(y_plane)@, y_stride as int, width as int, height as int),
        same_padding(
            old(u_plane)@,
            final(u_plane)@,
            u_stride as int,
            yuv_type.chroma_width_of(width as int),
            yuv_type.chroma_height_of(height as int),
        ),
        same_padding(
            old(v_plane)@,
            final(v_plane)@,
            v_stride as int,
            yuv_type.chroma_width_of(width as int),
            yuv_type.chroma_height_of(height as int),
        ),
        r is Ok && yuv_matrix == YuvMatrix::Identity && range == YuvRange::Pc ==> split_from(
            final(y_plane)@,
            y_stride as int,
            final(u_plane)@,
            u_stride as int,
            final(v_plane)@,
            v_stride as int,
            rgba@,
            rgba_stride as int,
            width as int,
            height as int,
        ),
        converts(
            r,
            yuv_matrix.admits(yuv_type),
            width == 0 || height == 0,
            planar_target_fits(
                old(y_plane)@.len(),
                y_stride,
                old(u_plane)@.len(),
                u_stride,
                old(v_plane)@.len(),
                v_stride,
                rgba@.len(),
                rgba_stride,
                width,
                height,
                yuv_type,
            ),
        ),
        !reaches_kernel(
            yuv_matrix.admits(yuv_type),
            width == 0 || height == 0,
            planar_target_fits(
                old(y_plane)@.len(),
                y_stride,
                old(u_plane)@.len(),
                u_stride,
                old(v_plane)@.len(),
                v_stride,
                rgba@.len(),
                rgba_stride,
                width,
                height,
                yuv_type,
            ),
        ) ==> final(y_plane)@ == old(y_plane)@
            && final(u_plane)@ == old(u_plane)@ && final(v_plane)@ == old(v_plane)@,
{
    let kernel = match select_kernel(yuv_type, yuv_matrix, 8, false) {
        Ok(kernel) => kernel,
        Err(e) => {
            return Err(e);
        },
    };
    if width == 0 || height == 0 {
        return Ok(());
    }
    if !check_planes(
        y_plane.len(),
        y_stride,
        u_plane.len(),
        u_stride,
        v_plane.len(),
        v_stride,
        width,
        height,
        yuv_type,
        1,
    ) || !check_packed(rgba.len(), rgba_stride, width, height, 4) {
        return Err(PixelError::GeometryViolation);
    }
    let chroma_width = yuv_type.chroma_width(width);
    let chroma_height = yuv_type.chroma_height(height);
    let source = leading_rows(rgba, rgba_stride, 4 * (width as u64), height);
    let ghost y_base = y_plane@;
    let ghost u_base = u_plane@;
    let ghost v_base = v_plane@;
    if y_stride == width && u_stride == chroma_width && v_stride == chroma_width {
        let (y, _) = y_plane.split_at_mut((y_stride as usize) * (height as usize));
        let (u, _) = u_plane.split_at_mut((u_stride as usize) * (chroma_height as usize));
        let (v, _) = v_plane.split_at_mut((v_stride as usize) * (chroma_height as usize));
        let r = run_encode_yuv(
            kernel,
            y,
            y_stride,
            u,
            u_stride,
            v,
            v_stride,
            width,
            height,
            source,
            rgba_stride,
            range,
        );
        let ghost y_written = y@;
        let ghost u_written = u@;
        let ghost v_written = v@;
        proof {
            assert(y_plane@.subrange(0, y_stride * height) =~= y_written);
            assert(u_plane@.subrange(0, u_stride * chroma_height) =~= u_written);
            assert(v_plane@.subrange(0, v_stride * chroma_height) =~= v_written);
            lemma_packed_rows_have_no_padding(y_base, y_plane@, y_stride as int, height as int);
            lemma_packed_rows_have_no_padding(u_base, u_plane@, u_stride as int, chroma_height as int);
            lemma_packed_rows_have_no_padding(v_base, v_plane@, v_stride as int, chroma_height as int);
            if yuv_matrix == YuvMatrix::Identity && range == YuvRange::Pc {
                lemma_split_of_leading_rows(
                    y_plane@,
                    y_stride as int,
                    u_plane@,
                    u_stride as int,
                    v_plane@,
                    v_stride as int,
                    rgba@,
                    rgba_stride as int,
                    width as int,
                    height as int,
                );
            }
        }
        r
    } else {
        assert(width * height <= y_stride * height) by (nonlinear_arith)
            requires
                width <= y_stride,
        ;
        assert(chroma_width * chroma_height <= u_stride * chroma_height) by (nonlinear_arith)
            requires
                chroma_width <= u_stride,
        ;
        let mut y = vec![0u8; (width as usize) * (height as usize)];
        let mut u = vec![0u8; (chroma_width as usize) * (chroma_height as usize)];
        let mut v = vec![0u8; (chroma_width as usize) * (chroma_height as usize)];
        let r = run_encode_yuv(
            kernel,
            y.as_mut_slice(),
            width,
            u.as_mut_slice(),
            chroma_width,
            v.as_mut_slice(),
            chroma_width,
            width,
            height,
            source,
            rgba_stride,
            range,
        );
        if r.is_ok() {
            copy_rows(
                y.as_slice(),
                width as usize,
                y_plane,
                y_stride as usize,
                width as usize,
                height as usize,
            );
            copy_rows(
                u.as_slice(),
                chroma_width as usize,
                u_plane,
                u_stride as usize,
                chroma_width as usize,
                chroma_height as usize,
            );
            copy_rows(
                v.as_slice(),
                chroma_width as usize,
                v_plane,
                v_stride as usize,
                chroma_width as usize,
                chroma_height as usize,
            );
        }
        proof {
            lemma_copy_keeps_padding(
                y_base,
                y@,
                width as int,
                y_stride as int,
                width as int,
                height as int,
            );
            lemma_copy_keeps_padding(
                u_base,
                u@,
                chroma_width as int,
                u_stride as int,
                chroma_width as int,
                chroma_height as int,
            );
            lemma_copy_keeps_padding(
                v_base,
                v@,
                chroma_width as int,
                v_stride as int,
                chroma_width as int,
                chroma_height as int,
            );
            if yuv_matrix == YuvMatrix::Identity && range == YuvRange::Pc {
                assert(y@.subrange(0, width * height) =~= y@);
                assert(u@.subrange(0, width * height) =~= u@);
                assert(v@.subrange(0, width * height) =~= v@);
                lemma_split_of_leading_rows(
                    y@,
                    width as int,
                    u@,
                    width as int,
                    v@,
                    width as int,
                    rgba@,
                    rgba_stride as int,
                    width as int,
                    height as int,
                );
                lemma_split_of_copied_rows(
                    y_base,
                    y@,
                    y_stride as int,
                    u_base,
                    u@,
                    u_stride as int,
                    v_base,
                    v@,
                    v_stride as int,
                    rgba@,
                    rgba_stride as int,
                    width as int,
                    height as int,
                );
            }
        }
        r
    }
}

/// Converts packed RGBA to an 8-bit luma plane with the routine of `yuv`.
/// Only a Kr/Kb matrix defines this conversion. Only bytes that belong to a
/// sample of the plane change. The routine rounds in one way on processors
/// with vector instructions and in another without, so the samples it
/// writes are not stated.
pub fn weave_rgba8_to_y08(
    y_plane: &mut [u8],
    y_stride: u32,
    rgba: &[u8],
    rgba_stride: u32,
    width: u32,
    height: u32,
    range: YuvRange,
    yuv_matrix: YuvMatrix,
) -> (r: Result<(), PixelError>)
    ensures
        same_padding(old(y_plane)@, final(y_plane)@, y_stride as int, width as int, height as int),
        converts(
            r,
            yuv_matrix.is_standard(),
            width == 0 || height == 0,
            luma_target_fits(
                old(y_plane)@.len(),
                y_stride,
                rgba@.len(),
                rgba_stride,
                width,
                height,
            ),
        ),
        !reaches_kernel(
            yuv_matrix.is_standard(),
            width == 0 || height == 0,
            luma_target_fits(
                old(y_plane)@.len(),
                y_stride,
                rgba@.len(),
                rgba_stride,
                width,
                height,
            ),
        ) ==> final(y_plane)@ == old(y_plane)@,
{
    let matrix = match yuv_matrix.standard() {
        Ok(matrix) => matrix,
        Err(e) => {
            return Err(e);
        },
    };
    if width == 0 || height == 0 {
        return Ok(());
    }
    if !check_plane(y_plane.len(), y_stride, width as u64, height) || !check_packed(
        rgba.len(),
        rgba_stride,
        width,
        height,
        4,
    ) {
        return Err(PixelError::GeometryViolation);
    }
    let source = leading_rows(rgba, rgba_stride, 4 * (width as u64), height);
    let ghost base = y_plane@;
    if y_stride == width {
        let (y, _) = y_plane.split_at_mut((y_stride as usize) * (height as usize));
        let r = settle_encoder(encode_yuv::rgba_to_yuv400(
            y,
            y_stride,
            width,
            height,
            source,
            rgba_stride,
            range,
            matrix,
        ));
        proof {
            lemma_packed_rows_have_no_padding(base, y_plane@, y_stride as int, height as int);
        }
        r
    } else {
        assert(width * height <= y_stride * height) by (nonlinear_arith)
            requires
                width <= y_stride,
        ;
        let mut scratch = vec![0u8; (width as usize) * (height as usize)];
        let r = settle_encoder(encode_yuv::rgba_to_yuv400(
            scratch.as_mut_slice(),
            width,
            width,
            height,
            source,
            rgba_stride,
            range,
            matrix,
        ));
        if r.is_ok() {
            copy_rows(
                scratch.as_slice(),
                width as usize,
                y_plane,
                y_stride as usize,
                width as usize,
                height as usize,
            );
        }
        proof {
            lemma_copy_keeps_padding(
                base,
                scratch@,
                width as int,
                y_stride as int,
                width as int,
                height as int,
            );
        }
        r
    }
}

/// Converts packed RGBA to an 8-bit planar image with the routines of
/// `yuvutils_rs`. The strides count bytes. Only bytes that belong to a sample
/// of a plane change.
pub fn weave_rgba_to_yuv(
    rgba: &[u8],
    rgba_stride: u32,
    y_plane: &mut [u8],
    y_stride: u32,
    u_plane: &mut [u8],
    u_stride: u32,
    v_plane: &mut [u8],
    v_stride: u32,
    width: u32,
    height: u32,
    range: YuvRange,
    matrix: YuvMatrix,
    yuv_type: YuvType,
) -> (r: Result<(), PixelError>)
    ensures
        same_padding(old(y_plane)@, final(y_plane)@, y_stride as int, width as int, height as int),
        same_padding(
            old(u_plane)@,
            final(u_plane)@,
            u_stride as int,
            yuv_type.chroma_width_of(width as int),
            yuv_type.chroma_height_of(height as int),
        ),
        same_padding(
            old(v_plane)@,
            final(v_plane)@,
            v_stride as int,
            yuv_type.chroma_width_of(width as int),
            yuv_type.chroma_height_of(height as int),
        ),
        r is Ok && matrix == YuvMatrix::Identity && range == YuvRange::Pc ==> split_from(
            final(y_plane)@,
            y_stride as int,
            final(u_plane)@,
            u_stride as int,
            final(v_plane)@,
            v_stride as int,
            rgba@,
            rgba_stride as int,
            width as int,
            height as int,
        ),
        converts(
            r,
            matrix.admits(yuv_type),
            width == 0 || height == 0,
            planar_target_fits(
                old(y_plane)@.len(),
                y_stride,
                old(u_plane)@.len(),
                u_stride,
                old(v_plane)@.len(),
                v_stride,
                rgba@.len(),
                rgba_stride,
                width,
                height,
                yuv_type,
            ),
        ),
        !reaches_kernel(
            matrix.admits(yuv_type),
            width == 0 || height == 0,
            planar_target_fits(
                old(y_plane)@.len(),
                y_stride,
                old(u_plane)@.len(),
                u_stride,
                old(v_plane)@.len(),
                v_stride,
                rgba@.len(),
                rgba_stride,
                width,
                height,
                yuv_type,
            ),
        ) ==> final(y_plane)@ == old(y_plane)@
            && final(u_plane)@ == old(u_plane)@ && final(v_plane)@ == old(v_plane)@,
{
    let kernel = match select_kernel(yuv_type, matrix, 8, false) {
        Ok(kernel) => kernel,
        Err(e) => {
            return Err(e);
        },
    };
    if width == 0 || height == 0 {
        return Ok(());
    }
    if !check_planes(
        y_plane.len(),
        y_stride,
        u_plane.len(),
        u_stride,
        v_plane.len(),
        v_stride,
        width,
        height,
        yuv_type,
        1,
    ) || !check_packed(rgba.len(), rgba_stride, width, height, 4) {
        return Err(PixelError::GeometryViolation);
    }
    let chroma_width = yuv_type.chroma_width(width);
    let chroma_height = yuv_type.chroma_height(height);
    let source = leading_rows(rgba, rgba_stride, 4 * (width as u64), height);
    let ghost y_base = y_plane@;
    let ghost u_base = u_plane@;
    let ghost v_base = v_plane@;
    if y_stride == width && u_stride == chroma_width && v_stride == chroma_width {
        let (y, _) = y_plane.split_at_mut((y_stride as usize) * (height as usize));
        let (u, _) = u_plane.split_at_mut((u_stride as usize) * (chroma_height as usize));
        let (v, _) = v_plane.split_at_mut((v_stride as usize) * (chroma_height as usize));
        let r = run_encode(
            kernel,
            y,
            y_stride,
            u,
            u_stride,
            v,
            v_stride,
            width,
            height,
            source,
            rgba_stride,
            range,
        );
        let ghost y_written = y@;
        let ghost u_written = u@;
        let ghost v_written = v@;
        proof {
            assert(y_plane@.subrange(0, y_stride * height) =~= y_written);
            assert(u_plane@.subrange(0, u_stride * chroma_height) =~= u_written);
            assert(v_plane@.subrange(0, v_stride * chroma_height) =~= v_written);
            lemma_packed_rows_have_no_padding(y_base, y_plane@, y_stride as int, height as int);
            lemma_packed_rows_have_no_padding(u_base, u_plane@, u_stride as int, chroma_height as int);
            lemma_packed_rows_have_no_padding(v_base, v_plane@, v_stride as int, chroma_height as int);
            if matrix == YuvMatrix::Identity && range == YuvRange::Pc {
                lemma_split_of_leading_rows(
                    y_plane@,
                    y_stride as int,
                    u_plane@,
                    u_stride as int,
                    v_plane@,
                    v_stride as int,
                    rgba@,
                    rgba_stride as int,
                    width as int,
                    height as int,
                );
            }
        }
        r
    } else {
        assert(width * height <= y_stride * height) by (nonlinear_arith)
            requires
                width <= y_stride,
        ;
        assert(chroma_width * chroma_height <= u_stride * chroma_height) by (nonlinear_arith)
            requires
                chroma_width <= u_stride,
        ;
        let mut y = vec![0u8; (width as usize) * (height as usize)];
        let mut u = vec![0u8; (chroma_width as usize) * (chroma_height as usize)];
        let mut v = vec![0u8; (chroma_width as usize) * (chroma_height as usize)];
        let r = run_encode(
            kernel,
            y.as_mut_slice(),
            width,
            u.as_mut_slice(),
            chroma_width,
            v.as_mut_slice(),
            chroma_width,
            width,
            height,
            source,
            rgba_stride,
            range,
        );
        if r.is_ok() {
            copy_rows(
                y.as_slice(),
                width as usize,
                y_plane,
                y_stride as usize,
                width as usize,
                height as usize,
            );
            copy_rows(
                u.as_slice(),
                chroma_width as usize,
                u_plane,
                u_stride as usize,
                chroma_width as usize,
                chroma_height as usize,
            );
            copy_rows(
                v.as_slice(),
                chroma_width as usize,
                v_plane,
                v_stride as usize,
                chroma_width as usize,
                chroma_height as usize,
            );
        }
        proof {
            lemma_copy_keeps_padding(
                y_base,
                y@,
                width as int,
                y_stride as int,
                width as int,
                height as int,
            );
            lemma_copy_keeps_padding(
                u_base,
                u@,
                chroma_width as int,
                u_stride as int,
                chroma_width as int,
                chroma_height as int,
            );
            lemma_copy_keeps_padding(
                v_base,
                v@,
                chroma_width as int,
                v_stride as int,
                chroma_width as int,
                chroma_height as int,
            );
            if matrix == YuvMatrix::Identity && range == YuvRange::Pc {
                assert(y@.subrange(0, width * height) =~= y@);
                assert(u@.subrange(0, width * height) =~= u@);
                assert(v@.subrange(0, width * height) =~= v@);
                lemma_split_of_leading_rows(
                    y@,
                    width as int,
                    u@,
                    width as int,
                    v@,
                    width as int,
                    rgba@,
                    rgba_stride as int,
                    width as int,
                    height as int,
                );
                lemma_split_of_copied_rows(
                    y_base,
                    y@,
                    y_stride as int,
                    u_base,
                    u@,
                    u_stride as int,
                    v_base,
                    v@,
                    v_stride as int,
                    rgba@,
                    rgba_stride as int,
                    width as int,
                    height as int,
                );
            }
        }
        r
    }
}

/// Converts packed RGBA to an 8-bit luma plane with the routine of
/// `yuvutils_rs`. Only a Kr/Kb matrix defines this conversion. Only bytes that
/// belong to a sample of the plane change. The routine rounds in one way on
/// processors with vector instructions and in another without, so the
/// samples it writes are not stated.
pub fn weave_rgba_to_yuv400(
    rgba: &[u8],
    rgba_stride: u32,
    y_plane: &mut [u8],
    y_stride: u32,
    width: u32,
    height: u32,
    range: YuvRange,
    yuv_matrix: YuvMatrix,
) -> (r: Result<(), PixelError>)
    ensures
        same_padding(old(y_plane)@, final(y_plane)@, y_stride as int, width as int, height as int),
        converts(
            r,
            yuv_matrix.is_standard(),
            width == 0 || height == 0,
            luma_target_fits(
                old(y_plane)@.len(),
                y_stride,
                rgba@.len(),
                rgba_stride,
                width,
                height,
            ),
        ),
        !reaches_kernel(
            yuv_matrix.is_standard(),
            width == 0 || height == 0,
            luma_target_fits(
                old(y_plane)@.len(),
                y_stride,
                rgba@.len(),
                rgba_stride,
                width,
                height,
            ),
        ) ==> final(y_plane)@ == old(y_plane)@,
{
    let matrix = match yuv_matrix.standard() {
        Ok(matrix) => matrix,
        Err(e) => {
            return Err(e);
        },
    };
    if width == 0 || height == 0 {
        return Ok(());
    }
    if !check_plane(y_plane.len(), y_stride, width as u64, height) || !check_packed(
        rgba.len(),
        rgba_stride,
        width,
        height,
        4,
    ) {
        return Err(PixelError::GeometryViolation);
    }
    let source = leading_rows(rgba, rgba_stride, 4 * (width as u64), height);
    let ghost base = y_plane@;
    if y_stride == width {
        let (y, _) = y_plane.split_at_mut((y_stride as usize) * (height as usize));
        let r = settle(encode::rgba_to_yuv400(
            y,
            y_stride,
            width,
            height,
            source,
            rgba_stride,
            range,
            matrix,
        ));
        proof {
            lemma_packed_rows_have_no_padding(base, y_plane@, y_stride as int, height as int);
        }
        r
    } else {
        assert(width * height <= y_stride * height) by (nonlinear_arith)
            requires
                width <= y_stride,
        ;
        let mut scratch = vec![0u8; (width as usize) * (height as usize)];
        let r = settle(encode::rgba_to_yuv400(
            scratch.as_mut_slice(),
            width,
            width,
            height,
            source,
            rgba_stride,
            range,
            matrix,
        ));
        if r.is_ok() {
            copy_rows(
                scratch.as_slice(),
                width as usize,
                y_plane,
                y_stride as usize,
                width as usize,
                height as usize,
            );
        }
        proof {
            lemma_copy_keeps_padding(
                base,
                scratch@,
                width as int,
                y_stride as int,
                width as int,
                height as int,
            );
        }
        r
    }
}

} // verus!
