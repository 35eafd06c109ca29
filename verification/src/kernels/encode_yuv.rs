//! The RGBA to 8-bit planar routines of `yuv`, each behind its contract.

use crate::format::{StandardMatrix, YuvRange, YuvType};
use crate::planes::{chroma_exact, packed_exact, plane_exact, split_from};
use vstd::prelude::*;
use yuv::YuvConversionMode;

verus! {

/// `yuv::rgba_to_gbr`: splits packed RGBA into 8-bit G, B, R planes.
///
/// The routine fails on nothing but its checks of the geometry, which it
/// makes before it touches a sample, and it works on as many rows as its
/// buffers hold. So the contract asks for an image that is not empty in
/// buffers that hold its rows and nothing more, on which every check
/// passes, and claims that the routine then succeeds and that the planes
/// keep their lengths. What its arithmetic writes is left
/// open.
///
/// On a full-range image the routine does no arithmetic: it copies the
/// green of each pixel to the first plane, its blue to the second and its
/// red to the third, and the contract says so.
#[verifier::external_body]
pub(crate) fn rgba_to_gbr(
    y: &mut [u8],
    y_stride: u32,
    u: &mut [u8],
    u_stride: u32,
    v: &mut [u8],
    v_stride: u32,
    width: u32,
    height: u32,
    rgba: &[u8],
    rgba_stride: u32,
    range: YuvRange,
) -> (r: Result<(), yuv::YuvError>)
    requires
        width > 0,
        height > 0,
        plane_exact(old(y)@.len() as int, y_stride as int, width as int, height as int),
        chroma_exact(
            old(u)@.len() as int,
            u_stride as int,
            width as int,
            height as int,
            YuvType::Yuv444,
        ),
        chroma_exact(
            old(v)@.len() as int,
            v_stride as int,
            width as int,
            height as int,
            YuvType::Yuv444,
        ),
        packed_exact(rgba@.len() as int, rgba_stride as int, width as int, height as int, 4),
    ensures
        r is Ok,
        final(y)@.len() == old(y)@.len(),
        final(u)@.len() == old(u)@.len(),
        final(v)@.len() == old(v)@.len(),
        range == YuvRange::Pc ==> split_from(
            final(y)@,
            y_stride as int,
            final(u)@,
            u_stride as int,
            final(v)@,
            v_stride as int,
            rgba@,
            rgba_stride as int,
            width as int,
            height as int,
        ),
{
    let range = match range {
        YuvRange::Tv => yuv::YuvRange::Limited,
        YuvRange::Pc => yuv::YuvRange::Full,
    };
    let mut planes = yuv::YuvPlanarImageMut {
        y_plane: yuv::BufferStoreMut::Borrowed(y), y_stride,
        u_plane: yuv::BufferStoreMut::Borrowed(u), u_stride,
        v_plane: yuv::BufferStoreMut::Borrowed(v), v_stride, width, height,
    };
    yuv::rgba_to_gbr(&mut planes, rgba, rgba_stride, range)
}

/// `yuv::rgba_to_ycgco420`: converts packed RGBA to 8-bit 4:2:0 YCgCo planes.
///
/// The routine fails on nothing but its checks of the geometry, which it
/// makes before it touches a sample, and it works on as many rows as its
/// buffers hold. So the contract asks for an image that is not empty in
/// buffers that hold its rows and nothing more, on which every check
/// passes, and claims that the routine then succeeds and that the planes
/// keep their lengths. What is written is left open.
#[verifier::external_body]
pub(crate) fn rgba_to_ycgco420(
    y: &mut [u8],
    y_stride: u32,
    u: &mut [u8],
    u_stride: u32,
    v: &mut [u8],
    v_stride: u32,
    width: u32,
    height: u32,
    rgba: &[u8],
    rgba_stride: u32,
    range: YuvRange,
) -> (r: Result<(), yuv::YuvError>)
    requires
        width > 0,
        height > 0,
        plane_exact(old(y)@.len() as int, y_stride as int, width as int, height as int),
        chroma_exact(
            old(u)@.len() as int,
            u_stride as int,
            width as int,
            height as int,
            YuvType::Yuv420,
        ),
        chroma_exact(
            old(v)@.len() as int,
            v_stride as int,
            width as int,
            height as int,
            YuvType::Yuv420,
        ),
        packed_exact(rgba@.len() as int, rgba_stride as int, width as int, height as int, 4),
    ensures
        r is Ok,
        final(y)@.len() == old(y)@.len(),
        final(u)@.len() == old(u)@.len(),
        final(v)@.len() == old(v)@.len(),
{
    let range = match range {
        YuvRange::Tv => yuv::YuvRange::Limited,
        YuvRange::Pc => yuv::YuvRange::Full,
    };
    let mut planes = yuv::YuvPlanarImageMut {
        y_plane: yuv::BufferStoreMut::Borrowed(y), y_stride,
        u_plane: yuv::BufferStoreMut::Borrowed(u), u_stride,
        v_plane: yuv::BufferStoreMut::Borrowed(v), v_stride, width, height,
    };
    yuv::rgba_to_ycgco420(&mut planes, rgba, rgba_stride, range)
}

/// `yuv::rgba_to_ycgco422`: converts packed RGBA to 8-bit 4:2:2 YCgCo planes.
///
/// The routine fails on nothing but its checks of the geometry, which it
/// makes before it touches a sample, and it works on as many rows as its
/// buffers hold. So the contract asks for an image that is not empty in
/// buffers that hold its rows and nothing more, on which every check
/// passes, and claims that the routine then succeeds and that the planes
/// keep their lengths. What is written is left open.
#[verifier::external_body]
pub(crate) fn rgba_to_ycgco422(
    y: &mut [u8],
    y_stride: u32,
    u: &mut [u8],
    u_stride: u32,
    v: &mut [u8],
    v_stride: u32,
    width: u32,
    height: u32,
    rgba: &[u8],
    rgba_stride: u32,
    range: YuvRange,
) -> (r: Result<(), yuv::YuvError>)
    requires
        width > 0,
        height > 0,
        plane_exact(old(y)@.len() as int, y_stride as int, width as int, height as int),
        chroma_exact(
            old(u)@.len() as int,
            u_stride as int,
            width as int,
            height as int,
            YuvType::Yuv422,
        ),
        chroma_exact(
            old(v)@.len() as int,
            v_stride as int,
            width as int,
            height as int,
            YuvType::Yuv422,
        ),
        packed_exact(rgba@.len() as int, rgba_stride as int, width as int, height as int, 4),
    ensures
        r is Ok,
        final(y)@.len() == old(y)@.len(),
        final(u)@.len() == old(u)@.len(),
        final(v)@.len() == old(v)@.len(),
{
    let range = match range {
        YuvRange::Tv => yuv::YuvRange::Limited,
        YuvRange::Pc => yuv::YuvRange::Full,
    };
    let mut planes = yuv::YuvPlanarImageMut {
        y_plane: yuv::BufferStoreMut::Borrowed(y), y_stride,
        u_plane: yuv::BufferStoreMut::Borrowed(u), u_stride,
        v_plane: yuv::BufferStoreMut::Borrowed(v), v_stride, width, height,
    };
    yuv::rgba_to_ycgco422(&mut planes, rgba, rgba_stride, range)
}

/// `yuv::rgba_to_ycgco444`: converts packed RGBA to 8-bit 4:4:4 YCgCo planes.
///
/// The routine fails on nothing but its checks of the geometry, which it
/// makes before it touches a sample, and it works on as many rows as its
/// buffers hold. So the contract asks for an image that is not empty in
/// buffers that hold its rows and nothing more, on which every check
/// passes, and claims that the routine then succeeds and that the planes
/// keep their lengths. What is written is left open.
#[verifier::external_body]
pub(crate) fn rgba_to_ycgco444(
    y: &mut [u8],
    y_stride: u32,
    u: &mut [u8],
    u_stride: u32,
    v: &mut [u8],
    v_stride: u32,
    width: u32,
    height: u32,
    rgba: &[u8],
    rgba_stride: u32,
    range: YuvRange,
) -> (r: Result<(), yuv::YuvError>)
    requires
        width > 0,
        height > 0,
        plane_exact(old(y)@.len() as int, y_stride as int, width as int, height as int),
        chroma_exact(
            old(u)@.len() as int,
            u_stride as int,
            width as int,
            height as int,
            YuvType::Yuv444,
        ),
        chroma_exact(
            old(v)@.len() as int,
            v_stride as int,
            width as int,
            height as int,
            YuvType::Yuv444,
        ),
        packed_exact(rgba@.len() as int, rgba_stride as int, width as int, height as int, 4),
    ensures
        r is Ok,
        final(y)@.len() == old(y)@.len(),
        final(u)@.len() == old(u)@.len(),
        final(v)@.len() == old(v)@.len(),
{
    let range = match range {
        YuvRange::Tv => yuv::YuvRange::Limited,
        YuvRange::Pc => yuv::YuvRange::Full,
    };
    let mut planes = yuv::YuvPlanarImageMut {
        y_plane: yuv::BufferStoreMut::Borrowed(y), y_stride,
        u_plane: yuv::BufferStoreMut::Borrowed(u), u_stride,
        v_plane: yuv::BufferStoreMut::Borrowed(v), v_stride, width, height,
    };
    yuv::rgba_to_ycgco444(&mut planes, rgba, rgba_stride, range)
}

/// `yuv::rgba_to_yuv420`: converts packed RGBA to 8-bit 4:2:0 YUV planes
/// with a Kr/Kb matrix.
/// The balanced conversion mode is asked for.
///
/// The routine fails on nothing but its checks of the geometry, which it
/// makes before it touches a sample, and it works on as many rows as its
/// buffers hold. So the contract asks for an image that is not empty in
/// buffers that hold its rows and nothing more, on which every check
/// passes, and claims that the routine then succeeds and that the planes
/// keep their lengths. What is written is left open.
#[verifier::external_body]
pub(crate) fn rgba_to_yuv420(
    y: &mut [u8],
    y_stride: u32,
    u: &mut [u8],
    u_stride: u32,
    v: &mut [u8],
    v_stride: u32,
    width: u32,
    height: u32,
    rgba: &[u8],
    rgba_stride: u32,
    range: YuvRange,
    matrix: StandardMatrix,
) -> (r: Result<(), yuv::YuvError>)
    requires
        width > 0,
        height > 0,
        plane_exact(old(y)@.len() as int, y_stride as int, width as int, height as int),
        chroma_exact(
            old(u)@.len() as int,
            u_stride as int,
            width as int,
            height as int,
            YuvType::Yuv420,
        ),
        chroma_exact(
            old(v)@.len() as int,
            v_stride as int,
            width as int,
            height as int,
            YuvType::Yuv420,
        ),
        packed_exact(rgba@.len() as int, rgba_stride as int, width as int, height as int, 4),
    ensures
        r is Ok,
        final(y)@.len() == old(y)@.len(),
        final(u)@.len() == old(u)@.len(),
        final(v)@.len() == old(v)@.len(),
{
    let range = match range {
        YuvRange::Tv => yuv::YuvRange::Limited,
        YuvRange::Pc => yuv::YuvRange::Full,
    };
    let matrix = match matrix {
        StandardMatrix::Bt601 => yuv::YuvStandardMatrix::Bt601,
        StandardMatrix::Bt709 => yuv::YuvStandardMatrix::Bt709,
        StandardMatrix::Bt2020 => yuv::YuvStandardMatrix::Bt2020,
    };
    let mut planes = yuv::YuvPlanarImageMut {
        y_plane: yuv::BufferStoreMut::Borrowed(y), y_stride,
        u_plane: yuv::BufferStoreMut::Borrowed(u), u_stride,
        v_plane: yuv::BufferStoreMut::Borrowed(v), v_stride, width, height,
    };
    yuv::rgba_to_yuv420(&mut planes, rgba, rgba_stride, range, matrix, YuvConversionMode::Balanced)
}

/// `yuv::rgba_to_yuv422`: converts packed RGBA to 8-bit 4:2:2 YUV planes
/// with a Kr/Kb matrix.
/// The balanced conversion mode is asked for.
///
/// The routine fails on nothing but its checks of the geometry, which it
/// makes before it touches a sample, and it works on as many rows as its
/// buffers hold. So the contract asks for an image that is not empty in
/// buffers that hold its rows and nothing more, on which every check
/// passes, and claims that the routine then succeeds and that the planes
/// keep their lengths. What is written is left open.
#[verifier::external_body]
pub(crate) fn rgba_to_yuv422(
    y: &mut [u8],
    y_stride: u32,
    u: &mut [u8],
    u_stride: u32,
    v: &mut [u8],
    v_stride: u32,
    width: u32,
    height: u32,
    rgba: &[u8],
    rgba_stride: u32,
    range: YuvRange,
    matrix: StandardMatrix,
) -> (r: Result<(), yuv::YuvError>)
    requires
        width > 0,
        height > 0,
        plane_exact(old(y)@.len() as int, y_stride as int, width as int, height as int),
        chroma_exact(
            old(u)@.len() as int,
            u_stride as int,
            width as int,
            height as int,
            YuvType::Yuv422,
        ),
        chroma_exact(
            old(v)@.len() as int,
            v_stride as int,
            width as int,
            height as int,
            YuvType::Yuv422,
        ),
        packed_exact(rgba@.len() as int, rgba_stride as int, width as int, height as int, 4),
    ensures
        r is Ok,
        final(y)@.len() == old(y)@.len(),
        final(u)@.len() == old(u)@.len(),
        final(v)@.len() == old(v)@.len(),
{
    let range = match range {
        YuvRange::Tv => yuv::YuvRange::Limited,
        YuvRange::Pc => yuv::YuvRange::Full,
    };
    let matrix = match matrix {
        StandardMatrix::Bt601 => yuv::YuvStandardMatrix::Bt601,
        StandardMatrix::Bt709 => yuv::YuvStandardMatrix::Bt709,
        StandardMatrix::Bt2020 => yuv::YuvStandardMatrix::Bt2020,
    };
    let mut planes = yuv::YuvPlanarImageMut {
        y_plane: yuv::BufferStoreMut::Borrowed(y), y_stride,
        u_plane: yuv::BufferStoreMut::Borrowed(u), u_stride,
        v_plane: yuv::BufferStoreMut::Borrowed(v), v_stride, width, height,
    };
    yuv::rgba_to_yuv422(&mut planes, rgba, rgba_stride, range, matrix, YuvConversionMode::Balanced)
}

/// `yuv::rgba_to_yuv444`: converts packed RGBA to 8-bit 4:4:4 YUV planes
/// with a Kr/Kb matrix.
/// The balanced conversion mode is asked for.
///
/// The routine fails on nothing but its checks of the geometry, which it
/// makes before it touches a sample, and it works on as many rows as its
/// buffers hold. So the contract asks for an image that is not empty in
/// buffers that hold its rows and nothing more, on which every check
/// passes, and claims that the routine then succeeds and that the planes
/// keep their lengths. What is written is left open.
#[verifier::external_body]
pub(crate) fn rgba_to_yuv444(
    y: &mut [u8],
    y_stride: u32,
    u: &mut [u8],
    u_stride: u32,
    v: &mut [u8],
    v_stride: u32,
    width: u32,
    height: u32,
    rgba: &[u8],
    rgba_stride: u32,
    range: YuvRange,
    matrix: StandardMatrix,
) -> (r: Result<(), yuv::YuvError>)
    requires
        width > 0,
        height > 0,
        plane_exact(old(y)@.len() as int, y_stride as int, width as int, height as int),
        chroma_exact(
            old(u)@.len() as int,
            u_stride as int,
            width as int,
            height as int,
            YuvType::Yuv444,
        ),
        chroma_exact(
            old(v)@.len() as int,
            v_stride as int,
            width as int,
            height as int,
            YuvType::Yuv444,
        ),
        packed_exact(rgba@.len() as int, rgba_stride as int, width as int, height as int, 4),
    ensures
        r is Ok,
        final(y)@.len() == old(y)@.len(),
        final(u)@.len() == old(u)@.len(),
        final(v)@.len() == old(v)@.len(),
{
    let range = match range {
        YuvRange::Tv => yuv::YuvRange::Limited,
        YuvRange::Pc => yuv::YuvRange::Full,
    };
    let matrix = match matrix {
        StandardMatrix::Bt601 => yuv::YuvStandardMatrix::Bt601,
        StandardMatrix::Bt709 => yuv::YuvStandardMatrix::Bt709,
        StandardMatrix::Bt2020 => yuv::YuvStandardMatrix::Bt2020,
    };
    let mut planes = yuv::YuvPlanarImageMut {
        y_plane: yuv::BufferStoreMut::Borrowed(y), y_stride,
        u_plane: yuv::BufferStoreMut::Borrowed(u), u_stride,
        v_plane: yuv::BufferStoreMut::Borrowed(v), v_stride, width, height,
    };
    yuv::rgba_to_yuv444(&mut planes, rgba, rgba_stride, range, matrix, YuvConversionMode::Balanced)
}

/// `yuv::rgba_to_yuv400`: converts packed RGBA to an 8-bit luma plane.
///
/// The routine fails on nothing but its checks of the geometry, which it
/// makes before it touches a sample, and it works on as many rows as its
/// buffers hold. So the contract asks for an image that is not empty in
/// buffers that hold its rows and nothing more, on which every check
/// passes, and claims that the routine then succeeds and that the plane
/// keeps its length. What is written is left open.
#[verifier::external_body]
pub(crate) fn rgba_to_yuv400(
    y: &mut [u8],
    y_stride: u32,
    width: u32,
    height: u32,
    rgba: &[u8],
    rgba_stride: u32,
    range: YuvRange,
    matrix: StandardMatrix,
) -> (r: Result<(), yuv::YuvError>)
    requires
        width > 0,
        height > 0,
        plane_exact(old(y)@.len() as int, y_stride as int, width as int, height as int),
        packed_exact(rgba@.len() as int, rgba_stride as int, width as int, height as int, 4),
    ensures
        r is Ok,
        final(y)@.len() == old(y)@.len(),
{
    let range = match range {
        YuvRange::Tv => yuv::YuvRange::Limited,
        YuvRange::Pc => yuv::YuvRange::Full,
    };
    let matrix = match matrix {
        StandardMatrix::Bt601 => yuv::YuvStandardMatrix::Bt601,
        StandardMatrix::Bt709 => yuv::YuvStandardMatrix::Bt709,
        StandardMatrix::Bt2020 => yuv::YuvStandardMatrix::Bt2020,
    };
    let mut plane = yuv::YuvGrayImageMut {
        y_plane: yuv::BufferStoreMut::Borrowed(y), y_stride, width, height,
    };
    yuv::rgba_to_yuv400(&mut plane, rgba, rgba_stride, range, matrix)
}

} // verus!
