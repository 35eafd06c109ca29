//! The 8-bit planar to RGBA routines of `yuvutils_rs`, each behind its contract.

use crate::format::{StandardMatrix, YuvRange, YuvType};
use crate::planes::{packed_exact, Gray, GrayAlpha, Planar, PlanarAlpha};
use vstd::prelude::*;

verus! {

/// `yuvutils_rs::gbr_to_rgba`: copies 8-bit G, B, R planes into packed RGBA.
///
/// The routine fails on nothing but its checks of the geometry, which it
/// makes before it touches a sample, and it works on as many rows as its
/// buffers hold. So the contract asks for an image that is not empty in
/// buffers that hold its rows and nothing more, on which every check
/// passes, and claims that the routine then succeeds and that the
/// destination keeps its length. What its arithmetic writes
/// is left open.
///
/// On a full-range image the routine does no arithmetic: it copies each
/// sample to its place in the pixel, red from the third plane, green from
/// the first, blue from the second, and the contract says so.
///
/// Every path of the routine stores the greatest sample as the alpha of a
/// pixel, and the contract says so.
#[verifier::external_body]
pub(crate) fn gbr_to_rgba(
    image: &Planar<u8>,
    rgba: &mut [u8],
    rgba_stride: u32,
    range: YuvRange,
) -> (r: Result<(), yuvutils_rs::YuvError>)
    requires
        image.fits(YuvType::Yuv444),
        packed_exact(
            old(rgba)@.len() as int,
            rgba_stride as int,
            image.width as int,
            image.height as int,
            4,
        ),
    ensures
        r is Ok,
        final(rgba)@.len() == old(rgba)@.len(),
        image.opaque_into(final(rgba)@, rgba_stride as int, 255),
        range == YuvRange::Pc ==> image.swapped_into(final(rgba)@, rgba_stride as int, 255),
{
    let range = match range {
        YuvRange::Tv => yuvutils_rs::YuvRange::Limited,
        YuvRange::Pc => yuvutils_rs::YuvRange::Full,
    };
    let planes = yuvutils_rs::YuvPlanarImage {
        y_plane: image.y, y_stride: image.y_stride, u_plane: image.u, u_stride: image.u_stride,
        v_plane: image.v, v_stride: image.v_stride, width: image.width, height: image.height,
    };
    yuvutils_rs::gbr_to_rgba(&planes, rgba, rgba_stride, range)
}

/// `yuvutils_rs::ycgco420_to_rgba`: converts 8-bit 4:2:0 YCgCo planes to packed RGBA.
///
/// The routine fails on nothing but its checks of the geometry, which it
/// makes before it touches a sample, and it works on as many rows as its
/// buffers hold. So the contract asks for an image that is not empty in
/// buffers that hold its rows and nothing more, on which every check
/// passes, and claims that the routine then succeeds and that the
/// destination keeps its length. What is written is left open.
///
/// Not even the alpha is claimed: the row for full-range images on ARM
/// processors stores zero where the others store 255.
#[verifier::external_body]
pub(crate) fn ycgco420_to_rgba(
    image: &Planar<u8>,
    rgba: &mut [u8],
    rgba_stride: u32,
    range: YuvRange,
) -> (r: Result<(), yuvutils_rs::YuvError>)
    requires
        image.fits(YuvType::Yuv420),
        packed_exact(
            old(rgba)@.len() as int,
            rgba_stride as int,
            image.width as int,
            image.height as int,
            4,
        ),
    ensures
        r is Ok,
        final(rgba)@.len() == old(rgba)@.len(),
{
    let range = match range {
        YuvRange::Tv => yuvutils_rs::YuvRange::Limited,
        YuvRange::Pc => yuvutils_rs::YuvRange::Full,
    };
    let planes = yuvutils_rs::YuvPlanarImage {
        y_plane: image.y, y_stride: image.y_stride, u_plane: image.u, u_stride: image.u_stride,
        v_plane: image.v, v_stride: image.v_stride, width: image.width, height: image.height,
    };
    yuvutils_rs::ycgco420_to_rgba(&planes, rgba, rgba_stride, range)
}

/// `yuvutils_rs::ycgco422_to_rgba`: converts 8-bit 4:2:2 YCgCo planes to packed RGBA.
///
/// The routine fails on nothing but its checks of the geometry, which it
/// makes before it touches a sample, and it works on as many rows as its
/// buffers hold. So the contract asks for an image that is not empty in
/// buffers that hold its rows and nothing more, on which every check
/// passes, and claims that the routine then succeeds and that the
/// destination keeps its length. What is written is left open.
///
/// Not even the alpha is claimed: the row for full-range images on ARM
/// processors stores zero where the others store 255.
#[verifier::external_body]
pub(crate) fn ycgco422_to_rgba(
    image: &Planar<u8>,
    rgba: &mut [u8],
    rgba_stride: u32,
    range: YuvRange,
) -> (r: Result<(), yuvutils_rs::YuvError>)
    requires
        image.fits(YuvType::Yuv422),
        packed_exact(
            old(rgba)@.len() as int,
            rgba_stride as int,
            image.width as int,
            image.height as int,
            4,
        ),
    ensures
        r is Ok,
        final(rgba)@.len() == old(rgba)@.len(),
{
    let range = match range {
        YuvRange::Tv => yuvutils_rs::YuvRange::Limited,
        YuvRange::Pc => yuvutils_rs::YuvRange::Full,
    };
    let planes = yuvutils_rs::YuvPlanarImage {
        y_plane: image.y, y_stride: image.y_stride, u_plane: image.u, u_stride: image.u_stride,
        v_plane: image.v, v_stride: image.v_stride, width: image.width, height: image.height,
    };
    yuvutils_rs::ycgco422_to_rgba(&planes, rgba, rgba_stride, range)
}

/// `yuvutils_rs::ycgco444_to_rgba`: converts 8-bit 4:4:4 YCgCo planes to packed RGBA.
///
/// The routine fails on nothing but its checks of the geometry, which it
/// makes before it touches a sample, and it works on as many rows as its
/// buffers hold. So the contract asks for an image that is not empty in
/// buffers that hold its rows and nothing more, on which every check
/// passes, and claims that the routine then succeeds and that the
/// destination keeps its length. What is written is left open.
///
/// Not even the alpha is claimed: the row for full-range images on ARM
/// processors stores zero where the others store 255.
#[verifier::external_body]
pub(crate) fn ycgco444_to_rgba(
    image: &Planar<u8>,
    rgba: &mut [u8],
    rgba_stride: u32,
    range: YuvRange,
) -> (r: Result<(), yuvutils_rs::YuvError>)
    requires
        image.fits(YuvType::Yuv444),
        packed_exact(
            old(rgba)@.len() as int,
            rgba_stride as int,
            image.width as int,
            image.height as int,
            4,
        ),
    ensures
        r is Ok,
        final(rgba)@.len() == old(rgba)@.len(),
{
    let range = match range {
        YuvRange::Tv => yuvutils_rs::YuvRange::Limited,
        YuvRange::Pc => yuvutils_rs::YuvRange::Full,
    };
    let planes = yuvutils_rs::YuvPlanarImage {
        y_plane: image.y, y_stride: image.y_stride, u_plane: image.u, u_stride: image.u_stride,
        v_plane: image.v, v_stride: image.v_stride, width: image.width, height: image.height,
    };
    yuvutils_rs::ycgco444_to_rgba(&planes, rgba, rgba_stride, range)
}

/// `yuvutils_rs::yuv420_to_rgba`: converts 8-bit 4:2:0 YUV planes to packed RGBA
/// with a Kr/Kb matrix.
///
/// The routine fails on nothing but its checks of the geometry, which it
/// makes before it touches a sample, and it works on as many rows as its
/// buffers hold. So the contract asks for an image that is not empty in
/// buffers that hold its rows and nothing more, on which every check
/// passes, and claims that the routine then succeeds and that the
/// destination keeps its length. What its arithmetic writes
/// is left open.
///
/// Every path of the routine stores the greatest sample as the alpha of a
/// pixel, and the contract says so.
#[verifier::external_body]
pub(crate) fn yuv420_to_rgba(
    image: &Planar<u8>,
    rgba: &mut [u8],
    rgba_stride: u32,
    range: YuvRange,
    matrix: StandardMatrix,
) -> (r: Result<(), yuvutils_rs::YuvError>)
    requires
        image.fits(YuvType::Yuv420),
        packed_exact(
            old(rgba)@.len() as int,
            rgba_stride as int,
            image.width as int,
            image.height as int,
            4,
        ),
    ensures
        r is Ok,
        final(rgba)@.len() == old(rgba)@.len(),
        image.opaque_into(final(rgba)@, rgba_stride as int, 255),
{
    let range = match range {
        YuvRange::Tv => yuvutils_rs::YuvRange::Limited,
        YuvRange::Pc => yuvutils_rs::YuvRange::Full,
    };
    let matrix = match matrix {
        StandardMatrix::Bt601 => yuvutils_rs::YuvStandardMatrix::Bt601,
        StandardMatrix::Bt709 => yuvutils_rs::YuvStandardMatrix::Bt709,
        StandardMatrix::Bt2020 => yuvutils_rs::YuvStandardMatrix::Bt2020,
    };
    let planes = yuvutils_rs::YuvPlanarImage {
        y_plane: image.y, y_stride: image.y_stride, u_plane: image.u, u_stride: image.u_stride,
        v_plane: image.v, v_stride: image.v_stride, width: image.width, height: image.height,
    };
    yuvutils_rs::yuv420_to_rgba(&planes, rgba, rgba_stride, range, matrix)
}

/// `yuvutils_rs::yuv422_to_rgba`: converts 8-bit 4:2:2 YUV planes to packed RGBA
/// with a Kr/Kb matrix.
///
/// The routine fails on nothing but its checks of the geometry, which it
/// makes before it touches a sample, and it works on as many rows as its
/// buffers hold. So the contract asks for an image that is not empty in
/// buffers that hold its rows and nothing more, on which every check
/// passes, and claims that the routine then succeeds and that the
/// destination keeps its length. What its arithmetic writes
/// is left open.
///
/// Every path of the routine stores the greatest sample as the alpha of a
/// pixel, and the contract says so.
#[verifier::external_body]
pub(crate) fn yuv422_to_rgba(
    image: &Planar<u8>,
    rgba: &mut [u8],
    rgba_stride: u32,
    range: YuvRange,
    matrix: StandardMatrix,
) -> (r: Result<(), yuvutils_rs::YuvError>)
    requires
        image.fits(YuvType::Yuv422),
        packed_exact(
            old(rgba)@.len() as int,
            rgba_stride as int,
            image.width as int,
            image.height as int,
            4,
        ),
    ensures
        r is Ok,
        final(rgba)@.len() == old(rgba)@.len(),
        image.opaque_into(final(rgba)@, rgba_stride as int, 255),
{
    let range = match range {
        YuvRange::Tv => yuvutils_rs::YuvRange::Limited,
        YuvRange::Pc => yuvutils_rs::YuvRange::Full,
    };
    let matrix = match matrix {
        StandardMatrix::Bt601 => yuvutils_rs::YuvStandardMatrix::Bt601,
        StandardMatrix::Bt709 => yuvutils_rs::YuvStandardMatrix::Bt709,
        StandardMatrix::Bt2020 => yuvutils_rs::YuvStandardMatrix::Bt2020,
    };
    let planes = yuvutils_rs::YuvPlanarImage {
        y_plane: image.y, y_stride: image.y_stride, u_plane: image.u, u_stride: image.u_stride,
        v_plane: image.v, v_stride: image.v_stride, width: image.width, height: image.height,
    };
    yuvutils_rs::yuv422_to_rgba(&planes, rgba, rgba_stride, range, matrix)
}

/// `yuvutils_rs::yuv444_to_rgba`: converts 8-bit 4:4:4 YUV planes to packed RGBA
/// with a Kr/Kb matrix.
///
/// The routine fails on nothing but its checks of the geometry, which it
/// makes before it touches a sample, and it works on as many rows as its
/// buffers hold. So the contract asks for an image that is not empty in
/// buffers that hold its rows and nothing more, on which every check
/// passes, and claims that the routine then succeeds and that the
/// destination keeps its length. What its arithmetic writes
/// is left open.
///
/// Every path of the routine stores the greatest sample as the alpha of a
/// pixel, and the contract says so.
#[verifier::external_body]
pub(crate) fn yuv444_to_rgba(
    image: &Planar<u8>,
    rgba: &mut [u8],
    rgba_stride: u32,
    range: YuvRange,
    matrix: StandardMatrix,
) -> (r: Result<(), yuvutils_rs::YuvError>)
    requires
        image.fits(YuvType::Yuv444),
        packed_exact(
            old(rgba)@.len() as int,
            rgba_stride as int,
            image.width as int,
            image.height as int,
            4,
        ),
    ensures
        r is Ok,
        final(rgba)@.len() == old(rgba)@.len(),
        image.opaque_into(final(rgba)@, rgba_stride as int, 255),
{
    let range = match range {
        YuvRange::Tv => yuvutils_rs::YuvRange::Limited,
        YuvRange::Pc => yuvutils_rs::YuvRange::Full,
    };
    let matrix = match matrix {
        StandardMatrix::Bt601 => yuvutils_rs::YuvStandardMatrix::Bt601,
        StandardMatrix::Bt709 => yuvutils_rs::YuvStandardMatrix::Bt709,
        StandardMatrix::Bt2020 => yuvutils_rs::YuvStandardMatrix::Bt2020,
    };
    let planes = yuvutils_rs::YuvPlanarImage {
        y_plane: image.y, y_stride: image.y_stride, u_plane: image.u, u_stride: image.u_stride,
        v_plane: image.v, v_stride: image.v_stride, width: image.width, height: image.height,
    };
    yuvutils_rs::yuv444_to_rgba(&planes, rgba, rgba_stride, range, matrix)
}

/// `yuvutils_rs::gbr_with_alpha_to_rgba`: copies 8-bit G, B, R and alpha planes into packed RGBA.
///
/// The routine fails on nothing but its checks of the geometry, which it
/// makes before it touches a sample, and it works on as many rows as its
/// buffers hold. So the contract asks for an image that is not empty in
/// buffers that hold its rows and nothing more, on which every check
/// passes, and claims that the routine then succeeds and that the
/// destination keeps its length. What its arithmetic writes
/// is left open.
///
/// On a full-range image the routine does no arithmetic: it copies each
/// sample to its place in the pixel, red from the third plane, green from
/// the first, blue from the second, and the contract says so.
///
/// Every path of the routine stores the sample of the alpha plane as the
/// alpha of a pixel, and the contract says so.
#[verifier::external_body]
pub(crate) fn gbr_with_alpha_to_rgba(
    image: &PlanarAlpha<u8>,
    rgba: &mut [u8],
    rgba_stride: u32,
    range: YuvRange,
) -> (r: Result<(), yuvutils_rs::YuvError>)
    requires
        image.fits(YuvType::Yuv444),
        packed_exact(
            old(rgba)@.len() as int,
            rgba_stride as int,
            image.width as int,
            image.height as int,
            4,
        ),
    ensures
        r is Ok,
        final(rgba)@.len() == old(rgba)@.len(),
        image.alpha_into(final(rgba)@, rgba_stride as int),
        range == YuvRange::Pc ==> image.swapped_into(final(rgba)@, rgba_stride as int),
{
    let range = match range {
        YuvRange::Tv => yuvutils_rs::YuvRange::Limited,
        YuvRange::Pc => yuvutils_rs::YuvRange::Full,
    };
    let planes = yuvutils_rs::YuvPlanarImageWithAlpha {
        y_plane: image.y, y_stride: image.y_stride, u_plane: image.u, u_stride: image.u_stride,
        v_plane: image.v, v_stride: image.v_stride, a_plane: image.a, a_stride: image.a_stride,
        width: image.width, height: image.height,
    };
    yuvutils_rs::gbr_with_alpha_to_rgba(&planes, rgba, rgba_stride, range)
}

/// `yuvutils_rs::ycgco420_alpha_to_rgba`: converts 8-bit 4:2:0 YCgCo planes with alpha to
/// packed RGBA.
///
/// The routine fails on nothing but its checks of the geometry, which it
/// makes before it touches a sample, and it works on as many rows as its
/// buffers hold. So the contract asks for an image that is not empty in
/// buffers that hold its rows and nothing more, on which every check
/// passes, and claims that the routine then succeeds and that the
/// destination keeps its length. What its arithmetic writes
/// is left open.
///
/// Every path of the routine stores the sample of the alpha plane as the
/// alpha of a pixel, and the contract says so.
#[verifier::external_body]
pub(crate) fn ycgco420_alpha_to_rgba(
    image: &PlanarAlpha<u8>,
    rgba: &mut [u8],
    rgba_stride: u32,
    range: YuvRange,
) -> (r: Result<(), yuvutils_rs::YuvError>)
    requires
        image.fits(YuvType::Yuv420),
        packed_exact(
            old(rgba)@.len() as int,
            rgba_stride as int,
            image.width as int,
            image.height as int,
            4,
        ),
    ensures
        r is Ok,
        final(rgba)@.len() == old(rgba)@.len(),
        image.alpha_into(final(rgba)@, rgba_stride as int),
{
    let range = match range {
        YuvRange::Tv => yuvutils_rs::YuvRange::Limited,
        YuvRange::Pc => yuvutils_rs::YuvRange::Full,
    };
    let planes = yuvutils_rs::YuvPlanarImageWithAlpha {
        y_plane: image.y, y_stride: image.y_stride, u_plane: image.u, u_stride: image.u_stride,
        v_plane: image.v, v_stride: image.v_stride, a_plane: image.a, a_stride: image.a_stride,
        width: image.width, height: image.height,
    };
    yuvutils_rs::ycgco420_alpha_to_rgba(&planes, rgba, rgba_stride, range)
}

/// `yuvutils_rs::ycgco422_alpha_to_rgba`: converts 8-bit 4:2:2 YCgCo planes with alpha to
/// packed RGBA.
///
/// The routine fails on nothing but its checks of the geometry, which it
/// makes before it touches a sample, and it works on as many rows as its
/// buffers hold. So the contract asks for an image that is not empty in
/// buffers that hold its rows and nothing more, on which every check
/// passes, and claims that the routine then succeeds and that the
/// destination keeps its length. What its arithmetic writes
/// is left open.
///
/// Every path of the routine stores the sample of the alpha plane as the
/// alpha of a pixel, and the contract says so.
#[verifier::external_body]
pub(crate) fn ycgco422_alpha_to_rgba(
    image: &PlanarAlpha<u8>,
    rgba: &mut [u8],
    rgba_stride: u32,
    range: YuvRange,
) -> (r: Result<(), yuvutils_rs::YuvError>)
    requires
        image.fits(YuvType::Yuv422),
        packed_exact(
            old(rgba)@.len() as int,
            rgba_stride as int,
            image.width as int,
            image.height as int,
            4,
        ),
    ensures
        r is Ok,
        final(rgba)@.len() == old(rgba)@.len(),
        image.alpha_into(final(rgba)@, rgba_stride as int),
{
    let range = match range {
        YuvRange::Tv => yuvutils_rs::YuvRange::Limited,
        YuvRange::Pc => yuvutils_rs::YuvRange::Full,
    };
    let planes = yuvutils_rs::YuvPlanarImageWithAlpha {
        y_plane: image.y, y_stride: image.y_stride, u_plane: image.u, u_stride: image.u_stride,
        v_plane: image.v, v_stride: image.v_stride, a_plane: image.a, a_stride: image.a_stride,
        width: image.width, height: image.height,
    };
    yuvutils_rs::ycgco422_alpha_to_rgba(&planes, rgba, rgba_stride, range)
}

/// `yuvutils_rs::ycgco444_alpha_to_rgba`: converts 8-bit 4:4:4 YCgCo planes with alpha to
/// packed RGBA.
///
/// The routine fails on nothing but its checks of the geometry, which it
/// makes before it touches a sample, and it works on as many rows as its
/// buffers hold. So the contract asks for an image that is not empty in
/// buffers that hold its rows and nothing more, on which every check
/// passes, and claims that the routine then succeeds and that the
/// destination keeps its length. What its arithmetic writes
/// is left open.
///
/// Every path of the routine stores the sample of the alpha plane as the
/// alpha of a pixel, and the contract says so.
#[verifier::external_body]
pub(crate) fn ycgco444_alpha_to_rgba(
    image: &PlanarAlpha<u8>,
    rgba: &mut [u8],
    rgba_stride: u32,
    range: YuvRange,
) -> (r: Result<(), yuvutils_rs::YuvError>)
    requires
        image.fits(YuvType::Yuv444),
        packed_exact(
            old(rgba)@.len() as int,
            rgba_stride as int,
            image.width as int,
            image.height as int,
            4,
        ),
    ensures
        r is Ok,
        final(rgba)@.len() == old(rgba)@.len(),
        image.alpha_into(final(rgba)@, rgba_stride as int),
{
    let range = match range {
        YuvRange::Tv => yuvutils_rs::YuvRange::Limited,
        YuvRange::Pc => yuvutils_rs::YuvRange::Full,
    };
    let planes = yuvutils_rs::YuvPlanarImageWithAlpha {
        y_plane: image.y, y_stride: image.y_stride, u_plane: image.u, u_stride: image.u_stride,
        v_plane: image.v, v_stride: image.v_stride, a_plane: image.a, a_stride: image.a_stride,
        width: image.width, height: image.height,
    };
    yuvutils_rs::ycgco444_alpha_to_rgba(&planes, rgba, rgba_stride, range)
}

/// `yuvutils_rs::yuv420_alpha_to_rgba`: converts 8-bit 4:2:0 YUV planes with alpha to
/// packed RGBA with a Kr/Kb matrix.
///
/// The routine fails on nothing but its checks of the geometry, which it
/// makes before it touches a sample, and it works on as many rows as its
/// buffers hold. So the contract asks for an image that is not empty in
/// buffers that hold its rows and nothing more, on which every check
/// passes, and claims that the routine then succeeds and that the
/// destination keeps its length. What its arithmetic writes
/// is left open.
///
/// Every path of the routine stores the sample of the alpha plane as the
/// alpha of a pixel, and the contract says so.
#[verifier::external_body]
pub(crate) fn yuv420_alpha_to_rgba(
    image: &PlanarAlpha<u8>,
    rgba: &mut [u8],
    rgba_stride: u32,
    range: YuvRange,
    matrix: StandardMatrix,
    premultiply_alpha: bool,
) -> (r: Result<(), yuvutils_rs::YuvError>)
    requires
        image.fits(YuvType::Yuv420),
        packed_exact(
            old(rgba)@.len() as int,
            rgba_stride as int,
            image.width as int,
            image.height as int,
            4,
        ),
    ensures
        r is Ok,
        final(rgba)@.len() == old(rgba)@.len(),
        image.alpha_into(final(rgba)@, rgba_stride as int),
{
    let range = match range {
        YuvRange::Tv => yuvutils_rs::YuvRange::Limited,
        YuvRange::Pc => yuvutils_rs::YuvRange::Full,
    };
    let matrix = match matrix {
        StandardMatrix::Bt601 => yuvutils_rs::YuvStandardMatrix::Bt601,
        StandardMatrix::Bt709 => yuvutils_rs::YuvStandardMatrix::Bt709,
        StandardMatrix::Bt2020 => yuvutils_rs::YuvStandardMatrix::Bt2020,
    };
    let planes = yuvutils_rs::YuvPlanarImageWithAlpha {
        y_plane: image.y, y_stride: image.y_stride, u_plane: image.u, u_stride: image.u_stride,
        v_plane: image.v, v_stride: image.v_stride, a_plane: image.a, a_stride: image.a_stride,
        width: image.width, height: image.height,
    };
    yuvutils_rs::yuv420_alpha_to_rgba(&planes, rgba, rgba_stride, range, matrix, premultiply_alpha)
}

/// `yuvutils_rs::yuv422_alpha_to_rgba`: converts 8-bit 4:2:2 YUV planes with alpha to
/// packed RGBA with a Kr/Kb matrix.
///
/// The routine fails on nothing but its checks of the geometry, which it
/// makes before it touches a sample, and it works on as many rows as its
/// buffers hold. So the contract asks for an image that is not empty in
/// buffers that hold its rows and nothing more, on which every check
/// passes, and claims that the routine then succeeds and that the
/// destination keeps its length. What its arithmetic writes
/// is left open.
///
/// Every path of the routine stores the sample of the alpha plane as the
/// alpha of a pixel, and the contract says so.
#[verifier::external_body]
pub(crate) fn yuv422_alpha_to_rgba(
    image: &PlanarAlpha<u8>,
    rgba: &mut [u8],
    rgba_stride: u32,
    range: YuvRange,
    matrix: StandardMatrix,
    premultiply_alpha: bool,
) -> (r: Result<(), yuvutils_rs::YuvError>)
    requires
        image.fits(YuvType::Yuv422),
        packed_exact(
            old(rgba)@.len() as int,
            rgba_stride as int,
            image.width as int,
            image.height as int,
            4,
        ),
    ensures
        r is Ok,
        final(rgba)@.len() == old(rgba)@.len(),
        image.alpha_into(final(rgba)@, rgba_stride as int),
{
    let range = match range {
        YuvRange::Tv => yuvutils_rs::YuvRange::Limited,
        YuvRange::Pc => yuvutils_rs::YuvRange::Full,
    };
    let matrix = match matrix {
        StandardMatrix::Bt601 => yuvutils_rs::YuvStandardMatrix::Bt601,
        StandardMatrix::Bt709 => yuvutils_rs::YuvStandardMatrix::Bt709,
        StandardMatrix::Bt2020 => yuvutils_rs::YuvStandardMatrix::Bt2020,
    };
    let planes = yuvutils_rs::YuvPlanarImageWithAlpha {
        y_plane: image.y, y_stride: image.y_stride, u_plane: image.u, u_stride: image.u_stride,
        v_plane: image.v, v_stride: image.v_stride, a_plane: image.a, a_stride: image.a_stride,
        width: image.width, height: image.height,
    };
    yuvutils_rs::yuv422_alpha_to_rgba(&planes, rgba, rgba_stride, range, matrix, premultiply_alpha)
}

/// `yuvutils_rs::yuv444_alpha_to_rgba`: converts 8-bit 4:4:4 YUV planes with alpha to
/// packed RGBA with a Kr/Kb matrix.
///
/// The routine fails on nothing but its checks of the geometry, which it
/// makes before it touches a sample, and it works on as many rows as its
/// buffers hold. So the contract asks for an image that is not empty in
/// buffers that hold its rows and nothing more, on which every check
/// passes, and claims that the routine then succeeds and that the
/// destination keeps its length. What its arithmetic writes
/// is left open.
///
/// Every path of the routine stores the sample of the alpha plane as the
/// alpha of a pixel, and the contract says so.
#[verifier::external_body]
pub(crate) fn yuv444_alpha_to_rgba(
    image: &PlanarAlpha<u8>,
    rgba: &mut [u8],
    rgba_stride: u32,
    range: YuvRange,
    matrix: StandardMatrix,
    premultiply_alpha: bool,
) -> (r: Result<(), yuvutils_rs::YuvError>)
    requires
        image.fits(YuvType::Yuv444),
        packed_exact(
            old(rgba)@.len() as int,
            rgba_stride as int,
            image.width as int,
            image.height as int,
            4,
        ),
    ensures
        r is Ok,
        final(rgba)@.len() == old(rgba)@.len(),
        image.alpha_into(final(rgba)@, rgba_stride as int),
{
    let range = match range {
        YuvRange::Tv => yuvutils_rs::YuvRange::Limited,
        YuvRange::Pc => yuvutils_rs::YuvRange::Full,
    };
    let matrix = match matrix {
        StandardMatrix::Bt601 => yuvutils_rs::YuvStandardMatrix::Bt601,
        StandardMatrix::Bt709 => yuvutils_rs::YuvStandardMatrix::Bt709,
        StandardMatrix::Bt2020 => yuvutils_rs::YuvStandardMatrix::Bt2020,
    };
    let planes = yuvutils_rs::YuvPlanarImageWithAlpha {
        y_plane: image.y, y_stride: image.y_stride, u_plane: image.u, u_stride: image.u_stride,
        v_plane: image.v, v_stride: image.v_stride, a_plane: image.a, a_stride: image.a_stride,
        width: image.width, height: image.height,
    };
    yuvutils_rs::yuv444_alpha_to_rgba(&planes, rgba, rgba_stride, range, matrix, premultiply_alpha)
}

/// `yuvutils_rs::yuv400_to_rgba`: expands an 8-bit luma plane to packed RGBA.
///
/// The routine fails on nothing but its checks of the geometry, which it
/// makes before it touches a sample, and it works on as many rows as its
/// buffers hold. So the contract asks for an image that is not empty in
/// buffers that hold its rows and nothing more, on which every check
/// passes, and claims that the routine then succeeds and that the
/// destination keeps its length. What its arithmetic writes
/// is left open.
///
/// Every path of the routine stores one value as the red, green and blue of
/// a pixel and the greatest sample as its alpha, and the contract says so. On
/// a full-range image the routine does no arithmetic: that value is the
/// luma sample, which the contract says too.
#[verifier::external_body]
pub(crate) fn yuv400_to_rgba(
    image: &Gray<u8>,
    rgba: &mut [u8],
    rgba_stride: u32,
    range: YuvRange,
    matrix: StandardMatrix,
) -> (r: Result<(), yuvutils_rs::YuvError>)
    requires
        image.fits(),
        packed_exact(
            old(rgba)@.len() as int,
            rgba_stride as int,
            image.width as int,
            image.height as int,
            4,
        ),
    ensures
        r is Ok,
        final(rgba)@.len() == old(rgba)@.len(),
        image.grey_into(final(rgba)@, rgba_stride as int, 255),
        range == YuvRange::Pc ==> image.spread_into(final(rgba)@, rgba_stride as int, 255),
{
    let range = match range {
        YuvRange::Tv => yuvutils_rs::YuvRange::Limited,
        YuvRange::Pc => yuvutils_rs::YuvRange::Full,
    };
    let matrix = match matrix {
        StandardMatrix::Bt601 => yuvutils_rs::YuvStandardMatrix::Bt601,
        StandardMatrix::Bt709 => yuvutils_rs::YuvStandardMatrix::Bt709,
        StandardMatrix::Bt2020 => yuvutils_rs::YuvStandardMatrix::Bt2020,
    };
    let planes = yuvutils_rs::YuvGrayImage {
        y_plane: image.y, y_stride: image.y_stride, width: image.width, height: image.height,
    };
    yuvutils_rs::yuv400_to_rgba(&planes, rgba, rgba_stride, range, matrix)
}

/// `yuvutils_rs::yuv400_alpha_to_rgba`: expands 8-bit luma and alpha planes to packed RGBA.
///
/// The routine fails on nothing but its checks of the geometry, which it
/// makes before it touches a sample, and it works on as many rows as its
/// buffers hold. So the contract asks for an image that is not empty in
/// buffers that hold its rows and nothing more, on which every check
/// passes, and claims that the routine then succeeds and that the
/// destination keeps its length. What its arithmetic writes
/// is left open.
///
/// Every path of the routine stores one value as the red, green and blue of
/// a pixel and the alpha sample as its alpha, and the contract says so. On
/// a full-range image the routine does no arithmetic: that value is the
/// luma sample, which the contract says too.
#[verifier::external_body]
pub(crate) fn yuv400_alpha_to_rgba(
    image: &GrayAlpha<u8>,
    rgba: &mut [u8],
    rgba_stride: u32,
    range: YuvRange,
    matrix: StandardMatrix,
) -> (r: Result<(), yuvutils_rs::YuvError>)
    requires
        image.fits(),
        packed_exact(
            old(rgba)@.len() as int,
            rgba_stride as int,
            image.width as int,
            image.height as int,
            4,
        ),
    ensures
        r is Ok,
        final(rgba)@.len() == old(rgba)@.len(),
        image.grey_into(final(rgba)@, rgba_stride as int),
        range == YuvRange::Pc ==> image.spread_into(final(rgba)@, rgba_stride as int),
{
    let range = match range {
        YuvRange::Tv => yuvutils_rs::YuvRange::Limited,
        YuvRange::Pc => yuvutils_rs::YuvRange::Full,
    };
    let matrix = match matrix {
        StandardMatrix::Bt601 => yuvutils_rs::YuvStandardMatrix::Bt601,
        StandardMatrix::Bt709 => yuvutils_rs::YuvStandardMatrix::Bt709,
        StandardMatrix::Bt2020 => yuvutils_rs::YuvStandardMatrix::Bt2020,
    };
    let planes = yuvutils_rs::YuvGrayAlphaImage {
        y_plane: image.y, y_stride: image.y_stride, a_plane: image.a, a_stride: image.a_stride,
        width: image.width, height: image.height,
    };
    yuvutils_rs::yuv400_alpha_to_rgba(&planes, rgba, rgba_stride, range, matrix)
}

} // verus!
