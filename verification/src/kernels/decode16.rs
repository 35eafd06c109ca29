//! The 10- and 12-bit planar to RGBA routines of `yuvutils_rs`, each behind its contract.

use crate::format::{KernelFamily, StandardMatrix, YuvRange, YuvType};
use crate::planes::{
    luma_admitted, packed_exact, planes_admitted, Gray, GrayAlpha, Planar, PlanarAlpha,
};
use vstd::prelude::*;

verus! {

/// `yuvutils_rs::gb10_to_rgba10`: copies 10-bit G, B, R planes into packed RGBA.
///
/// The routine fails on nothing but its checks of the geometry, which it
/// makes before it touches a sample, and it works on as many rows as its
/// buffers hold. So the contract asks for an image that is not empty in
/// buffers that hold its rows and nothing more, on which every check
/// passes, and claims that the routine then succeeds and that the
/// destination keeps its length. What its arithmetic writes
/// is left open.
///
/// On a full-range image the routine does no arithmetic: it copies each
/// sample to its place in the pixel, red from the third plane, green from
/// the first, blue from the second, and the contract says so.
///
/// Every path of the routine stores the greatest sample as the alpha of a
/// pixel, and the contract says so.
///
/// On a limited-range image the routine takes the range bias off each
/// sample in 16 signed bits, which a sample of 0x8000 or more may leave. So
/// the contract asks for a limited-range image whose samples are all below
/// that (`planes_admitted`).
#[verifier::external_body]
pub(crate) fn gb10_to_rgba10(
    image: &Planar<u16>,
    rgba: &mut [u16],
    rgba_stride: u32,
    range: YuvRange,
) -> (r: Result<(), yuvutils_rs::YuvError>)
    requires
        image.fits(YuvType::Yuv444),
        planes_admitted(KernelFamily::Gbr, range, image.y@, image.u@, image.v@),
        packed_exact(
            old(rgba)@.len() as int,
            rgba_stride as int,
            image.width as int,
            image.height as int,
            4,
        ),
    ensures
        r is Ok,
        final(rgba)@.len() == old(rgba)@.len(),
        image.opaque_into(final(rgba)@, rgba_stride as int, 1023),
        range == YuvRange::Pc ==> image.swapped_into(final(rgba)@, rgba_stride as int, 1023),
{
    let range = match range {
        YuvRange::Tv => yuvutils_rs::YuvRange::Limited,
        YuvRange::Pc => yuvutils_rs::YuvRange::Full,
    };
    let planes = yuvutils_rs::YuvPlanarImage {
        y_plane: image.y, y_stride: image.y_stride, u_plane: image.u, u_stride: image.u_stride,
        v_plane: image.v, v_stride: image.v_stride, width: image.width, height: image.height,
    };
    yuvutils_rs::gb10_to_rgba10(&planes, rgba, rgba_stride, range)
}

/// `yuvutils_rs::gb12_to_rgba12`: copies 12-bit G, B, R planes into packed RGBA.
///
/// The routine fails on nothing but its checks of the geometry, which it
/// makes before it touches a sample, and it works on as many rows as its
/// buffers hold. So the contract asks for an image that is not empty in
/// buffers that hold its rows and nothing more, on which every check
/// passes, and claims that the routine then succeeds and that the
/// destination keeps its length. What its arithmetic writes
/// is left open.
///
/// On a full-range image the routine does no arithmetic: it copies each
/// sample to its place in the pixel, red from the third plane, green from
/// the first, blue from the second, and the contract says so.
///
/// Every path of the routine stores the greatest sample as the alpha of a
/// pixel, and the contract says so.
///
/// On a limited-range image the routine takes the range bias off each
/// sample in 16 signed bits, which a sample of 0x8000 or more may leave. So
/// the contract asks for a limited-range image whose samples are all below
/// that (`planes_admitted`).
#[verifier::external_body]
pub(crate) fn gb12_to_rgba12(
    image: &Planar<u16>,
    rgba: &mut [u16],
    rgba_stride: u32,
    range: YuvRange,
) -> (r: Result<(), yuvutils_rs::YuvError>)
    requires
        image.fits(YuvType::Yuv444),
        planes_admitted(KernelFamily::Gbr, range, image.y@, image.u@, image.v@),
        packed_exact(
            old(rgba)@.len() as int,
            rgba_stride as int,
            image.width as int,
            image.height as int,
            4,
        ),
    ensures
        r is Ok,
        final(rgba)@.len() == old(rgba)@.len(),
        image.opaque_into(final(rgba)@, rgba_stride as int, 4095),
        range == YuvRange::Pc ==> image.swapped_into(final(rgba)@, rgba_stride as int, 4095),
{
    let range = match range {
        YuvRange::Tv => yuvutils_rs::YuvRange::Limited,
        YuvRange::Pc => yuvutils_rs::YuvRange::Full,
    };
    let planes = yuvutils_rs::YuvPlanarImage {
        y_plane: image.y, y_stride: image.y_stride, u_plane: image.u, u_stride: image.u_stride,
        v_plane: image.v, v_stride: image.v_stride, width: image.width, height: image.height,
    };
    yuvutils_rs::gb12_to_rgba12(&planes, rgba, rgba_stride, range)
}

/// `yuvutils_rs::icgc010_to_rgba10`: converts 10-bit 4:2:0 YCgCo planes to packed
/// RGBA.
///
/// The routine fails on nothing but its checks of the geometry, which it
/// makes before it touches a sample, and it works on as many rows as its
/// buffers hold. So the contract asks for an image that is not empty in
/// buffers that hold its rows and nothing more, on which every check
/// passes, and claims that the routine then succeeds and that the
/// destination keeps its length. What its arithmetic writes
/// is left open.
///
/// Every path of the routine stores the greatest sample as the alpha of a
/// pixel, and the contract says so.
///
/// The routine takes a bias off each chroma sample, and off each luma
/// sample of a limited-range image, in 16 signed bits, which a sample of
/// 0x8000 or more may leave. So the contract asks for such samples to be
/// below that (`planes_admitted`).
#[verifier::external_body]
pub(crate) fn icgc010_to_rgba10(
    image: &Planar<u16>,
    rgba: &mut [u16],
    rgba_stride: u32,
    range: YuvRange,
) -> (r: Result<(), yuvutils_rs::YuvError>)
    requires
        image.fits(YuvType::Yuv420),
        planes_admitted(KernelFamily::YCgCo, range, image.y@, image.u@, image.v@),
        packed_exact(
            old(rgba)@.len() as int,
            rgba_stride as int,
            image.width as int,
            image.height as int,
            4,
        ),
    ensures
        r is Ok,
        final(rgba)@.len() == old(rgba)@.len(),
        image.opaque_into(final(rgba)@, rgba_stride as int, 1023),
{
    let range = match range {
        YuvRange::Tv => yuvutils_rs::YuvRange::Limited,
        YuvRange::Pc => yuvutils_rs::YuvRange::Full,
    };
    let planes = yuvutils_rs::YuvPlanarImage {
        y_plane: image.y, y_stride: image.y_stride, u_plane: image.u, u_stride: image.u_stride,
        v_plane: image.v, v_stride: image.v_stride, width: image.width, height: image.height,
    };
    yuvutils_rs::icgc010_to_rgba10(&planes, rgba, rgba_stride, range)
}

/// `yuvutils_rs::icgc012_to_rgba12`: converts 12-bit 4:2:0 YCgCo planes to packed
/// RGBA.
///
/// The routine fails on nothing but its checks of the geometry, which it
/// makes before it touches a sample, and it works on as many rows as its
/// buffers hold. So the contract asks for an image that is not empty in
/// buffers that hold its rows and nothing more, on which every check
/// passes, and claims that the routine then succeeds and that the
/// destination keeps its length. What its arithmetic writes
/// is left open.
///
/// Every path of the routine stores the greatest sample as the alpha of a
/// pixel, and the contract says so.
///
/// The routine takes a bias off each chroma sample, and off each luma
/// sample of a limited-range image, in 16 signed bits, which a sample of
/// 0x8000 or more may leave. So the contract asks for such samples to be
/// below that (`planes_admitted`).
#[verifier::external_body]
pub(crate) fn icgc012_to_rgba12(
    image: &Planar<u16>,
    rgba: &mut [u16],
    rgba_stride: u32,
    range: YuvRange,
) -> (r: Result<(), yuvutils_rs::YuvError>)
    requires
        image.fits(YuvType::Yuv420),
        planes_admitted(KernelFamily::YCgCo, range, image.y@, image.u@, image.v@),
        packed_exact(
            old(rgba)@.len() as int,
            rgba_stride as int,
            image.width as int,
            image.height as int,
            4,
        ),
    ensures
        r is Ok,
        final(rgba)@.len() == old(rgba)@.len(),
        image.opaque_into(final(rgba)@, rgba_stride as int, 4095),
{
    let range = match range {
        YuvRange::Tv => yuvutils_rs::YuvRange::Limited,
        YuvRange::Pc => yuvutils_rs::YuvRange::Full,
    };
    let planes = yuvutils_rs::YuvPlanarImage {
        y_plane: image.y, y_stride: image.y_stride, u_plane: image.u, u_stride: image.u_stride,
        v_plane: image.v, v_stride: image.v_stride, width: image.width, height: image.height,
    };
    yuvutils_rs::icgc012_to_rgba12(&planes, rgba, rgba_stride, range)
}

/// `yuvutils_rs::icgc210_to_rgba10`: converts 10-bit 4:2:2 YCgCo planes to packed
/// RGBA.
///
/// The routine fails on nothing but its checks of the geometry, which it
/// makes before it touches a sample, and it works on as many rows as its
/// buffers hold. So the contract asks for an image that is not empty in
/// buffers that hold its rows and nothing more, on which every check
/// passes, and claims that the routine then succeeds and that the
/// destination keeps its length. What its arithmetic writes
/// is left open.
///
/// Every path of the routine stores the greatest sample as the alpha of a
/// pixel, and the contract says so.
///
/// The routine takes a bias off each chroma sample, and off each luma
/// sample of a limited-range image, in 16 signed bits, which a sample of
/// 0x8000 or more may leave. So the contract asks for such samples to be
/// below that (`planes_admitted`).
#[verifier::external_body]
pub(crate) fn icgc210_to_rgba10(
    image: &Planar<u16>,
    rgba: &mut [u16],
    rgba_stride: u32,
    range: YuvRange,
) -> (r: Result<(), yuvutils_rs::YuvError>)
    requires
        image.fits(YuvType::Yuv422),
        planes_admitted(KernelFamily::YCgCo, range, image.y@, image.u@, image.v@),
        packed_exact(
            old(rgba)@.len() as int,
            rgba_stride as int,
            image.width as int,
            image.height as int,
            4,
        ),
    ensures
        r is Ok,
        final(rgba)@.len() == old(rgba)@.len(),
        image.opaque_into(final(rgba)@, rgba_stride as int, 1023),
{
    let range = match range {
        YuvRange::Tv => yuvutils_rs::YuvRange::Limited,
        YuvRange::Pc => yuvutils_rs::YuvRange::Full,
    };
    let planes = yuvutils_rs::YuvPlanarImage {
        y_plane: image.y, y_stride: image.y_stride, u_plane: image.u, u_stride: image.u_stride,
        v_plane: image.v, v_stride: image.v_stride, width: image.width, height: image.height,
    };
    yuvutils_rs::icgc210_to_rgba10(&planes, rgba, rgba_stride, range)
}

/// `yuvutils_rs::icgc212_to_rgba12`: converts 12-bit 4:2:2 YCgCo planes to packed
/// RGBA.
///
/// The routine fails on nothing but its checks of the geometry, which it
/// makes before it touches a sample, and it works on as many rows as its
/// buffers hold. So the contract asks for an image that is not empty in
/// buffers that hold its rows and nothing more, on which every check
/// passes, and claims that the routine then succeeds and that the
/// destination keeps its length. What its arithmetic writes
/// is left open.
///
/// Every path of the routine stores the greatest sample as the alpha of a
/// pixel, and the contract says so.
///
/// The routine takes a bias off each chroma sample, and off each luma
/// sample of a limited-range image, in 16 signed bits, which a sample of
/// 0x8000 or more may leave. So the contract asks for such samples to be
/// below that (`planes_admitted`).
#[verifier::external_body]
pub(crate) fn icgc212_to_rgba12(
    image: &Planar<u16>,
    rgba: &mut [u16],
    rgba_stride: u32,
    range: YuvRange,
) -> (r: Result<(), yuvutils_rs::YuvError>)
    requires
        image.fits(YuvType::Yuv422),
        planes_admitted(KernelFamily::YCgCo, range, image.y@, image.u@, image.v@),
        packed_exact(
            old(rgba)@.len() as int,
            rgba_stride as int,
            image.width as int,
            image.height as int,
            4,
        ),
    ensures
        r is Ok,
        final(rgba)@.len() == old(rgba)@.len(),
        image.opaque_into(final(rgba)@, rgba_stride as int, 4095),
{
    let range = match range {
        YuvRange::Tv => yuvutils_rs::YuvRange::Limited,
        YuvRange::Pc => yuvutils_rs::YuvRange::Full,
    };
    let planes = yuvutils_rs::YuvPlanarImage {
        y_plane: image.y, y_stride: image.y_stride, u_plane: image.u, u_stride: image.u_stride,
        v_plane: image.v, v_stride: image.v_stride, width: image.width, height: image.height,
    };
    yuvutils_rs::icgc212_to_rgba12(&planes, rgba, rgba_stride, range)
}

/// `yuvutils_rs::icgc410_to_rgba10`: converts 10-bit 4:4:4 YCgCo planes to packed
/// RGBA.
///
/// The routine fails on nothing but its checks of the geometry, which it
/// makes before it touches a sample, and it works on as many rows as its
/// buffers hold. So the contract asks for an image that is not empty in
/// buffers that hold its rows and nothing more, on which every check
/// passes, and claims that the routine then succeeds and that the
/// destination keeps its length. What its arithmetic writes
/// is left open.
///
/// Every path of the routine stores the greatest sample as the alpha of a
/// pixel, and the contract says so.
///
/// The routine takes a bias off each chroma sample, and off each luma
/// sample of a limited-range image, in 16 signed bits, which a sample of
/// 0x8000 or more may leave. So the contract asks for such samples to be
/// below that (`planes_admitted`).
#[verifier::external_body]
pub(crate) fn icgc410_to_rgba10(
    image: &Planar<u16>,
    rgba: &mut [u16],
    rgba_stride: u32,
    range: YuvRange,
) -> (r: Result<(), yuvutils_rs::YuvError>)
    requires
        image.fits(YuvType::Yuv444),
        planes_admitted(KernelFamily::YCgCo, range, image.y@, image.u@, image.v@),
        packed_exact(
            old(rgba)@.len() as int,
            rgba_stride as int,
            image.width as int,
            image.height as int,
            4,
        ),
    ensures
        r is Ok,
        final(rgba)@.len() == old(rgba)@.len(),
        image.opaque_into(final(rgba)@, rgba_stride as int, 1023),
{
    let range = match range {
        YuvRange::Tv => yuvutils_rs::YuvRange::Limited,
        YuvRange::Pc => yuvutils_rs::YuvRange::Full,
    };
    let planes = yuvutils_rs::YuvPlanarImage {
        y_plane: image.y, y_stride: image.y_stride, u_plane: image.u, u_stride: image.u_stride,
        v_plane: image.v, v_stride: image.v_stride, width: image.width, height: image.height,
    };
    yuvutils_rs::icgc410_to_rgba10(&planes, rgba, rgba_stride, range)
}

/// `yuvutils_rs::icgc412_to_rgba12`: converts 12-bit 4:4:4 YCgCo planes to packed
/// RGBA.
///
/// The routine fails on nothing but its checks of the geometry, which it
/// makes before it touches a sample, and it works on as many rows as its
/// buffers hold. So the contract asks for an image that is not empty in
/// buffers that hold its rows and nothing more, on which every check
/// passes, and claims that the routine then succeeds and that the
/// destination keeps its length. What its arithmetic writes
/// is left open.
///
/// Every path of the routine stores the greatest sample as the alpha of a
/// pixel, and the contract says so.
///
/// The routine takes a bias off each chroma sample, and off each luma
/// sample of a limited-range image, in 16 signed bits, which a sample of
/// 0x8000 or more may leave. So the contract asks for such samples to be
/// below that (`planes_admitted`).
#[verifier::external_body]
pub(crate) fn icgc412_to_rgba12(
    image: &Planar<u16>,
    rgba: &mut [u16],
    rgba_stride: u32,
    range: YuvRange,
) -> (r: Result<(), yuvutils_rs::YuvError>)
    requires
        image.fits(YuvType::Yuv444),
        planes_admitted(KernelFamily::YCgCo, range, image.y@, image.u@, image.v@),
        packed_exact(
            old(rgba)@.len() as int,
            rgba_stride as int,
            image.width as int,
            image.height as int,
            4,
        ),
    ensures
        r is Ok,
        final(rgba)@.len() == old(rgba)@.len(),
        image.opaque_into(final(rgba)@, rgba_stride as int, 4095),
{
    let range = match range {
        YuvRange::Tv => yuvutils_rs::YuvRange::Limited,
        YuvRange::Pc => yuvutils_rs::YuvRange::Full,
    };
    let planes = yuvutils_rs::YuvPlanarImage {
        y_plane: image.y, y_stride: image.y_stride, u_plane: image.u, u_stride: image.u_stride,
        v_plane: image.v, v_stride: image.v_stride, width: image.width, height: image.height,
    };
    yuvutils_rs::icgc412_to_rgba12(&planes, rgba, rgba_stride, range)
}

/// `yuvutils_rs::i010_to_rgba10`: converts 10-bit 4:2:0 YUV planes to packed RGBA
/// with a Kr/Kb matrix.
///
/// The routine fails on nothing but its checks of the geometry, which it
/// makes before it touches a sample, and it works on as many rows as its
/// buffers hold. So the contract asks for an image that is not empty in
/// buffers that hold its rows and nothing more, on which every check
/// passes, and claims that the routine then succeeds and that the
/// destination keeps its length. What its arithmetic writes
/// is left open.
///
/// Every path of the routine stores the greatest sample as the alpha of a
/// pixel, and the contract says so.
#[verifier::external_body]
pub(crate) fn i010_to_rgba10(
    image: &Planar<u16>,
    rgba: &mut [u16],
    rgba_stride: u32,
    range: YuvRange,
    matrix: StandardMatrix,
) -> (r: Result<(), yuvutils_rs::YuvError>)
    requires
        image.fits(YuvType::Yuv420),
        packed_exact(
            old(rgba)@.len() as int,
            rgba_stride as int,
            image.width as int,
            image.height as int,
            4,
        ),
    ensures
        r is Ok,
        final(rgba)@.len() == old(rgba)@.len(),
        image.opaque_into(final(rgba)@, rgba_stride as int, 1023),
{
    let range = match range {
        YuvRange::Tv => yuvutils_rs::YuvRange::Limited,
        YuvRange::Pc => yuvutils_rs::YuvRange::Full,
    };
    let matrix = match matrix {
        StandardMatrix::Bt601 => yuvutils_rs::YuvStandardMatrix::Bt601,
        StandardMatrix::Bt709 => yuvutils_rs::YuvStandardMatrix::Bt709,
        StandardMatrix::Bt2020 => yuvutils_rs::YuvStandardMatrix::Bt2020,
    };
    let planes = yuvutils_rs::YuvPlanarImage {
        y_plane: image.y, y_stride: image.y_stride, u_plane: image.u, u_stride: image.u_stride,
        v_plane: image.v, v_stride: image.v_stride, width: image.width, height: image.height,
    };
    yuvutils_rs::i010_to_rgba10(&planes, rgba, rgba_stride, range, matrix)
}

/// `yuvutils_rs::i012_to_rgba12`: converts 12-bit 4:2:0 YUV planes to packed RGBA
/// with a Kr/Kb matrix.
///
/// The routine fails on nothing but its checks of the geometry, which it
/// makes before it touches a sample, and it works on as many rows as its
/// buffers hold. So the contract asks for an image that is not empty in
/// buffers that hold its rows and nothing more, on which every check
/// passes, and claims that the routine then succeeds and that the
/// destination keeps its length. What its arithmetic writes
/// is left open.
///
/// Every path of the routine stores the greatest sample as the alpha of a
/// pixel, and the contract says so.
#[verifier::external_body]
pub(crate) fn i012_to_rgba12(
    image: &Planar<u16>,
    rgba: &mut [u16],
    rgba_stride: u32,
    range: YuvRange,
    matrix: StandardMatrix,
) -> (r: Result<(), yuvutils_rs::YuvError>)
    requires
        image.fits(YuvType::Yuv420),
        packed_exact(
            old(rgba)@.len() as int,
            rgba_stride as int,
            image.width as int,
            image.height as int,
            4,
        ),
    ensures
        r is Ok,
        final(rgba)@.len() == old(rgba)@.len(),
        image.opaque_into(final(rgba)@, rgba_stride as int, 4095),
{
    let range = match range {
        YuvRange::Tv => yuvutils_rs::YuvRange::Limited,
        YuvRange::Pc => yuvutils_rs::YuvRange::Full,
    };
    let matrix = match matrix {
        StandardMatrix::Bt601 => yuvutils_rs::YuvStandardMatrix::Bt601,
        StandardMatrix::Bt709 => yuvutils_rs::YuvStandardMatrix::Bt709,
        StandardMatrix::Bt2020 => yuvutils_rs::YuvStandardMatrix::Bt2020,
    };
    let planes = yuvutils_rs::YuvPlanarImage {
        y_plane: image.y, y_stride: image.y_stride, u_plane: image.u, u_stride: image.u_stride,
        v_plane: image.v, v_stride: image.v_stride, width: image.width, height: image.height,
    };
    yuvutils_rs::i012_to_rgba12(&planes, rgba, rgba_stride, range, matrix)
}

/// `yuvutils_rs::i210_to_rgba10`: converts 10-bit 4:2:2 YUV planes to packed RGBA
/// with a Kr/Kb matrix.
///
/// The routine fails on nothing but its checks of the geometry, which it
/// makes before it touches a sample, and it works on as many rows as its
/// buffers hold. So the contract asks for an image that is not empty in
/// buffers that hold its rows and nothing more, on which every check
/// passes, and claims that the routine then succeeds and that the
/// destination keeps its length. What its arithmetic writes
/// is left open.
///
/// Every path of the routine stores the greatest sample as the alpha of a
/// pixel, and the contract says so.
#[verifier::external_body]
pub(crate) fn i210_to_rgba10(
    image: &Planar<u16>,
    rgba: &mut [u16],
    rgba_stride: u32,
    range: YuvRange,
    matrix: StandardMatrix,
) -> (r: Result<(), yuvutils_rs::YuvError>)
    requires
        image.fits(YuvType::Yuv422),
        packed_exact(
            old(rgba)@.len() as int,
            rgba_stride as int,
            image.width as int,
            image.height as int,
            4,
        ),
    ensures
        r is Ok,
        final(rgba)@.len() == old(rgba)@.len(),
        image.opaque_into(final(rgba)@, rgba_stride as int, 1023),
{
    let range = match range {
        YuvRange::Tv => yuvutils_rs::YuvRange::Limited,
        YuvRange::Pc => yuvutils_rs::YuvRange::Full,
    };
    let matrix = match matrix {
        StandardMatrix::Bt601 => yuvutils_rs::YuvStandardMatrix::Bt601,
        StandardMatrix::Bt709 => yuvutils_rs::YuvStandardMatrix::Bt709,
        StandardMatrix::Bt2020 => yuvutils_rs::YuvStandardMatrix::Bt2020,
    };
    let planes = yuvutils_rs::YuvPlanarImage {
        y_plane: image.y, y_stride: image.y_stride, u_plane: image.u, u_stride: image.u_stride,
        v_plane: image.v, v_stride: image.v_stride, width: image.width, height: image.height,
    };
    yuvutils_rs::i210_to_rgba10(&planes, rgba, rgba_stride, range, matrix)
}

/// `yuvutils_rs::i212_to_rgba12`: converts 12-bit 4:2:2 YUV planes to packed RGBA
/// with a Kr/Kb matrix.
///
/// The routine fails on nothing but its checks of the geometry, which it
/// makes before it touches a sample, and it works on as many rows as its
/// buffers hold. So the contract asks for an image that is not empty in
/// buffers that hold its rows and nothing more, on which every check
/// passes, and claims that the routine then succeeds and that the
/// destination keeps its length. What its arithmetic writes
/// is left open.
///
/// Every path of the routine stores the greatest sample as the alpha of a
/// pixel, and the contract says so.
#[verifier::external_body]
pub(crate) fn i212_to_rgba12(
    image: &Planar<u16>,
    rgba: &mut [u16],
    rgba_stride: u32,
    range: YuvRange,
    matrix: StandardMatrix,
) -> (r: Result<(), yuvutils_rs::YuvError>)
    requires
        image.fits(YuvType::Yuv422),
        packed_exact(
            old(rgba)@.len() as int,
            rgba_stride as int,
            image.width as int,
            image.height as int,
            4,
        ),
    ensures
        r is Ok,
        final(rgba)@.len() == old(rgba)@.len(),
        image.opaque_into(final(rgba)@, rgba_stride as int, 4095),
{
    let range = match range {
        YuvRange::Tv => yuvutils_rs::YuvRange::Limited,
        YuvRange::Pc => yuvutils_rs::YuvRange::Full,
    };
    let matrix = match matrix {
        StandardMatrix::Bt601 => yuvutils_rs::YuvStandardMatrix::Bt601,
        StandardMatrix::Bt709 => yuvutils_rs::YuvStandardMatrix::Bt709,
        StandardMatrix::Bt2020 => yuvutils_rs::YuvStandardMatrix::Bt2020,
    };
    let planes = yuvutils_rs::YuvPlanarImage {
        y_plane: image.y, y_stride: image.y_stride, u_plane: image.u, u_stride: image.u_stride,
        v_plane: image.v, v_stride: image.v_stride, width: image.width, height: image.height,
    };
    yuvutils_rs::i212_to_rgba12(&planes, rgba, rgba_stride, range, matrix)
}

/// `yuvutils_rs::i410_to_rgba10`: converts 10-bit 4:4:4 YUV planes to packed RGBA
/// with a Kr/Kb matrix.
///
/// The routine fails on nothing but its checks of the geometry, which it
/// makes before it touches a sample, and it works on as many rows as its
/// buffers hold. So the contract asks for an image that is not empty in
/// buffers that hold its rows and nothing more, on which every check
/// passes, and claims that the routine then succeeds and that the
/// destination keeps its length. What its arithmetic writes
/// is left open.
///
/// Every path of the routine stores the greatest sample as the alpha of a
/// pixel, and the contract says so.
#[verifier::external_body]
pub(crate) fn i410_to_rgba10(
    image: &Planar<u16>,
    rgba: &mut [u16],
    rgba_stride: u32,
    range: YuvRange,
    matrix: StandardMatrix,
) -> (r: Result<(), yuvutils_rs::YuvError>)
    requires
        image.fits(YuvType::Yuv444),
        packed_exact(
            old(rgba)@.len() as int,
            rgba_stride as int,
            image.width as int,
            image.height as int,
            4,
        ),
    ensures
        r is Ok,
        final(rgba)@.len() == old(rgba)@.len(),
        image.opaque_into(final(rgba)@, rgba_stride as int, 1023),
{
    let range = match range {
        YuvRange::Tv => yuvutils_rs::YuvRange::Limited,
        YuvRange::Pc => yuvutils_rs::YuvRange::Full,
    };
    let matrix = match matrix {
        StandardMatrix::Bt601 => yuvutils_rs::YuvStandardMatrix::Bt601,
        StandardMatrix::Bt709 => yuvutils_rs::YuvStandardMatrix::Bt709,
        StandardMatrix::Bt2020 => yuvutils_rs::YuvStandardMatrix::Bt2020,
    };
    let planes = yuvutils_rs::YuvPlanarImage {
        y_plane: image.y, y_stride: image.y_stride, u_plane: image.u, u_stride: image.u_stride,
        v_plane: image.v, v_stride: image.v_stride, width: image.width, height: image.height,
    };
    yuvutils_rs::i410_to_rgba10(&planes, rgba, rgba_stride, range, matrix)
}

/// `yuvutils_rs::i412_to_rgba12`: converts 12-bit 4:4:4 YUV planes to packed RGBA
/// with a Kr/Kb matrix.
///
/// The routine fails on nothing but its checks of the geometry, which it
/// makes before it touches a sample, and it works on as many rows as its
/// buffers hold. So the contract asks for an image that is not empty in
/// buffers that hold its rows and nothing more, on which every check
/// passes, and claims that the routine then succeeds and that the
/// destination keeps its length. What its arithmetic writes
/// is left open.
///
/// Every path of the routine stores the greatest sample as the alpha of a
/// pixel, and the contract says so.
#[verifier::external_body]
pub(crate) fn i412_to_rgba12(
    image: &Planar<u16>,
    rgba: &mut [u16],
    rgba_stride: u32,
    range: YuvRange,
    matrix: StandardMatrix,
) -> (r: Result<(), yuvutils_rs::YuvError>)
    requires
        image.fits(YuvType::Yuv444),
        packed_exact(
            old(rgba)@.len() as int,
            rgba_stride as int,
            image.width as int,
            image.height as int,
            4,
        ),
    ensures
        r is Ok,
        final(rgba)@.len() == old(rgba)@.len(),
        image.opaque_into(final(rgba)@, rgba_stride as int, 4095),
{
    let range = match range {
        YuvRange::Tv => yuvutils_rs::YuvRange::Limited,
        YuvRange::Pc => yuvutils_rs::YuvRange::Full,
    };
    let matrix = match matrix {
        StandardMatrix::Bt601 => yuvutils_rs::YuvStandardMatrix::Bt601,
        StandardMatrix::Bt709 => yuvutils_rs::YuvStandardMatrix::Bt709,
        StandardMatrix::Bt2020 => yuvutils_rs::YuvStandardMatrix::Bt2020,
    };
    let planes = yuvutils_rs::YuvPlanarImage {
        y_plane: image.y, y_stride: image.y_stride, u_plane: image.u, u_stride: image.u_stride,
        v_plane: image.v, v_stride: image.v_stride, width: image.width, height: image.height,
    };
    yuvutils_rs::i412_to_rgba12(&planes, rgba, rgba_stride, range, matrix)
}

/// `yuvutils_rs::gb10_alpha_to_rgba10`: copies 10-bit G, B, R and alpha planes into packed
/// RGBA.
///
/// The routine fails on nothing but its checks of the geometry, which it
/// makes before it touches a sample, and it works on as many rows as its
/// buffers hold. So the contract asks for an image that is not empty in
/// buffers that hold its rows and nothing more, on which every check
/// passes, and claims that the routine then succeeds and that the
/// destination keeps its length. What its arithmetic writes
/// is left open.
///
/// On a full-range image the routine does no arithmetic: it copies each
/// sample to its place in the pixel, red from the third plane, green from
/// the first, blue from the second, and the contract says so.
///
/// Every path of the routine stores the sample of the alpha plane as the
/// alpha of a pixel, and the contract says so.
///
/// On a limited-range image the routine takes the range bias off each
/// sample in 16 signed bits, which a sample of 0x8000 or more may leave. So
/// the contract asks for a limited-range image whose samples are all below
/// that (`planes_admitted`).
#[verifier::external_body]
pub(crate) fn gb10_alpha_to_rgba10(
    image: &PlanarAlpha<u16>,
    rgba: &mut [u16],
    rgba_stride: u32,
    range: YuvRange,
) -> (r: Result<(), yuvutils_rs::YuvError>)
    requires
        image.fits(YuvType::Yuv444),
        planes_admitted(KernelFamily::Gbr, range, image.y@, image.u@, image.v@),
        packed_exact(
            old(rgba)@.len() as int,
            rgba_stride as int,
            image.width as int,
            image.height as int,
            4,
        ),
    ensures
        r is Ok,
        final(rgba)@.len() == old(rgba)@.len(),
        image.alpha_into(final(rgba)@, rgba_stride as int),
        range == YuvRange::Pc ==> image.swapped_into(final(rgba)@, rgba_stride as int),
{
    let range = match range {
        YuvRange::Tv => yuvutils_rs::YuvRange::Limited,
        YuvRange::Pc => yuvutils_rs::YuvRange::Full,
    };
    let planes = yuvutils_rs::YuvPlanarImageWithAlpha {
        y_plane: image.y, y_stride: image.y_stride, u_plane: image.u, u_stride: image.u_stride,
        v_plane: image.v, v_stride: image.v_stride, a_plane: image.a, a_stride: image.a_stride,
        width: image.width, height: image.height,
    };
    yuvutils_rs::gb10_alpha_to_rgba10(&planes, rgba, rgba_stride, range)
}

/// `yuvutils_rs::gb12_alpha_to_rgba12`: copies 12-bit G, B, R and alpha planes into packed
/// RGBA.
///
/// The routine fails on nothing but its checks of the geometry, which it
/// makes before it touches a sample, and it works on as many rows as its
/// buffers hold. So the contract asks for an image that is not empty in
/// buffers that hold its rows and nothing more, on which every check
/// passes, and claims that the routine then succeeds and that the
/// destination keeps its length. What its arithmetic writes
/// is left open.
///
/// On a full-range image the routine does no arithmetic: it copies each
/// sample to its place in the pixel, red from the third plane, green from
/// the first, blue from the second, and the contract says so.
///
/// Every path of the routine stores the sample of the alpha plane as the
/// alpha of a pixel, and the contract says so.
///
/// On a limited-range image the routine takes the range bias off each
/// sample in 16 signed bits, which a sample of 0x8000 or more may leave. So
/// the contract asks for a limited-range image whose samples are all below
/// that (`planes_admitted`).
#[verifier::external_body]
pub(crate) fn gb12_alpha_to_rgba12(
    image: &PlanarAlpha<u16>,
    rgba: &mut [u16],
    rgba_stride: u32,
    range: YuvRange,
) -> (r: Result<(), yuvutils_rs::YuvError>)
    requires
        image.fits(YuvType::Yuv444),
        planes_admitted(KernelFamily::Gbr, range, image.y@, image.u@, image.v@),
        packed_exact(
            old(rgba)@.len() as int,
            rgba_stride as int,
            image.width as int,
            image.height as int,
            4,
        ),
    ensures
        r is Ok,
        final(rgba)@.len() == old(rgba)@.len(),
        image.alpha_into(final(rgba)@, rgba_stride as int),
        range == YuvRange::Pc ==> image.swapped_into(final(rgba)@, rgba_stride as int),
{
    let range = match range {
        YuvRange::Tv => yuvutils_rs::YuvRange::Limited,
        YuvRange::Pc => yuvutils_rs::YuvRange::Full,
    };
    let planes = yuvutils_rs::YuvPlanarImageWithAlpha {
        y_plane: image.y, y_stride: image.y_stride, u_plane: image.u, u_stride: image.u_stride,
        v_plane: image.v, v_stride: image.v_stride, a_plane: image.a, a_stride: image.a_stride,
        width: image.width, height: image.height,
    };
    yuvutils_rs::gb12_alpha_to_rgba12(&planes, rgba, rgba_stride, range)
}

/// `yuvutils_rs::icgc010_alpha_to_rgba10`: converts 10-bit 4:2:0 YCgCo planes
/// with alpha to packed RGBA.
///
/// The routine fails on nothing but its checks of the geometry, which it
/// makes before it touches a sample, and it works on as many rows as its
/// buffers hold. So the contract asks for an image that is not empty in
/// buffers that hold its rows and nothing more, on which every check
/// passes, and claims that the routine then succeeds and that the
/// destination keeps its length. What its arithmetic writes
/// is left open.
///
/// Every path of the routine stores the sample of the alpha plane as the
/// alpha of a pixel, and the contract says so.
///
/// The routine takes a bias off each chroma sample, and off each luma
/// sample of a limited-range image, in 16 signed bits, which a sample of
/// 0x8000 or more may leave. So the contract asks for such samples to be
/// below that (`planes_admitted`).
#[verifier::external_body]
pub(crate) fn icgc010_alpha_to_rgba10(
    image: &PlanarAlpha<u16>,
    rgba: &mut [u16],
    rgba_stride: u32,
    range: YuvRange,
) -> (r: Result<(), yuvutils_rs::YuvError>)
    requires
        image.fits(YuvType::Yuv420),
        planes_admitted(KernelFamily::YCgCo, range, image.y@, image.u@, image.v@),
        packed_exact(
            old(rgba)@.len() as int,
            rgba_stride as int,
            image.width as int,
            image.height as int,
            4,
        ),
    ensures
        r is Ok,
        final(rgba)@.len() == old(rgba)@.len(),
        image.alpha_into(final(rgba)@, rgba_stride as int),
{
    let range = match range {
        YuvRange::Tv => yuvutils_rs::YuvRange::Limited,
        YuvRange::Pc => yuvutils_rs::YuvRange::Full,
    };
    let planes = yuvutils_rs::YuvPlanarImageWithAlpha {
        y_plane: image.y, y_stride: image.y_stride, u_plane: image.u, u_stride: image.u_stride,
        v_plane: image.v, v_stride: image.v_stride, a_plane: image.a, a_stride: image.a_stride,
        width: image.width, height: image.height,
    };
    yuvutils_rs::icgc010_alpha_to_rgba10(&planes, rgba, rgba_stride, range)
}

/// `yuvutils_rs::icgc012_alpha_to_rgba12`: converts 12-bit 4:2:0 YCgCo planes
/// with alpha to packed RGBA.
///
/// The routine fails on nothing but its checks of the geometry, which it
/// makes before it touches a sample, and it works on as many rows as its
/// buffers hold. So the contract asks for an image that is not empty in
/// buffers that hold its rows and nothing more, on which every check
/// passes, and claims that the routine then succeeds and that the
/// destination keeps its length. What its arithmetic writes
/// is left open.
///
/// Every path of the routine stores the sample of the alpha plane as the
/// alpha of a pixel, and the contract says so.
///
/// The routine takes a bias off each chroma sample, and off each luma
/// sample of a limited-range image, in 16 signed bits, which a sample of
/// 0x8000 or more may leave. So the contract asks for such samples to be
/// below that (`planes_admitted`).
#[verifier::external_body]
pub(crate) fn icgc012_alpha_to_rgba12(
    image: &PlanarAlpha<u16>,
    rgba: &mut [u16],
    rgba_stride: u32,
    range: YuvRange,
) -> (r: Result<(), yuvutils_rs::YuvError>)
    requires
        image.fits(YuvType::Yuv420),
        planes_admitted(KernelFamily::YCgCo, range, image.y@, image.u@, image.v@),
        packed_exact(
            old(rgba)@.len() as int,
            rgba_stride as int,
            image.width as int,
            image.height as int,
            4,
        ),
    ensures
        r is Ok,
        final(rgba)@.len() == old(rgba)@.len(),
        image.alpha_into(final(rgba)@, rgba_stride as int),
{
    let range = match range {
        YuvRange::Tv => yuvutils_rs::YuvRange::Limited,
        YuvRange::Pc => yuvutils_rs::YuvRange::Full,
    };
    let planes = yuvutils_rs::YuvPlanarImageWithAlpha {
        y_plane: image.y, y_stride: image.y_stride, u_plane: image.u, u_stride: image.u_stride,
        v_plane: image.v, v_stride: image.v_stride, a_plane: image.a, a_stride: image.a_stride,
        width: image.width, height: image.height,
    };
    yuvutils_rs::icgc012_alpha_to_rgba12(&planes, rgba, rgba_stride, range)
}

/// `yuvutils_rs::icgc210_alpha_to_rgba10`: converts 10-bit 4:2:2 YCgCo planes
/// with alpha to packed RGBA.
///
/// The routine fails on nothing but its checks of the geometry, which it
/// makes before it touches a sample, and it works on as many rows as its
/// buffers hold. So the contract asks for an image that is not empty in
/// buffers that hold its rows and nothing more, on which every check
/// passes, and claims that the routine then succeeds and that the
/// destination keeps its length. What its arithmetic writes
/// is left open.
///
/// Every path of the routine stores the sample of the alpha plane as the
/// alpha of a pixel, and the contract says so.
///
/// The routine takes a bias off each chroma sample, and off each luma
/// sample of a limited-range image, in 16 signed bits, which a sample of
/// 0x8000 or more may leave. So the contract asks for such samples to be
/// below that (`planes_admitted`).
#[verifier::external_body]
pub(crate) fn icgc210_alpha_to_rgba10(
    image: &PlanarAlpha<u16>,
    rgba: &mut [u16],
    rgba_stride: u32,
    range: YuvRange,
) -> (r: Result<(), yuvutils_rs::YuvError>)
    requires
        image.fits(YuvType::Yuv422),
        planes_admitted(KernelFamily::YCgCo, range, image.y@, image.u@, image.v@),
        packed_exact(
            old(rgba)@.len() as int,
            rgba_stride as int,
            image.width as int,
            image.height as int,
            4,
        ),
    ensures
        r is Ok,
        final(rgba)@.len() == old(rgba)@.len(),
        image.alpha_into(final(rgba)@, rgba_stride as int),
{
    let range = match range {
        YuvRange::Tv => yuvutils_rs::YuvRange::Limited,
        YuvRange::Pc => yuvutils_rs::YuvRange::Full,
    };
    let planes = yuvutils_rs::YuvPlanarImageWithAlpha {
        y_plane: image.y, y_stride: image.y_stride, u_plane: image.u, u_stride: image.u_stride,
        v_plane: image.v, v_stride: image.v_stride, a_plane: image.a, a_stride: image.a_stride,
        width: image.width, height: image.height,
    };
    yuvutils_rs::icgc210_alpha_to_rgba10(&planes, rgba, rgba_stride, range)
}

/// `yuvutils_rs::icgc212_alpha_to_rgba12`: converts 12-bit 4:2:2 YCgCo planes
/// with alpha to packed RGBA.
///
/// The routine fails on nothing but its checks of the geometry, which it
/// makes before it touches a sample, and it works on as many rows as its
/// buffers hold. So the contract asks for an image that is not empty in
/// buffers that hold its rows and nothing more, on which every check
/// passes, and claims that the routine then succeeds and that the
/// destination keeps its length. What its arithmetic writes
/// is left open.
///
/// Every path of the routine stores the sample of the alpha plane as the
/// alpha of a pixel, and the contract says so.
///
/// The routine takes a bias off each chroma sample, and off each luma
/// sample of a limited-range image, in 16 signed bits, which a sample of
/// 0x8000 or more may leave. So the contract asks for such samples to be
/// below that (`planes_admitted`).
#[verifier::external_body]
pub(crate) fn icgc212_alpha_to_rgba12(
    image: &PlanarAlpha<u16>,
    rgba: &mut [u16],
    rgba_stride: u32,
    range: YuvRange,
) -> (r: Result<(), yuvutils_rs::YuvError>)
    requires
        image.fits(YuvType::Yuv422),
        planes_admitted(KernelFamily::YCgCo, range, image.y@, image.u@, image.v@),
        packed_exact(
            old(rgba)@.len() as int,
            rgba_stride as int,
            image.width as int,
            image.height as int,
            4,
        ),
    ensures
        r is Ok,
        final(rgba)@.len() == old(rgba)@.len(),
        image.alpha_into(final(rgba)@, rgba_stride as int),
{
    let range = match range {
        YuvRange::Tv => yuvutils_rs::YuvRange::Limited,
        YuvRange::Pc => yuvutils_rs::YuvRange::Full,
    };
    let planes = yuvutils_rs::YuvPlanarImageWithAlpha {
        y_plane: image.y, y_stride: image.y_stride, u_plane: image.u, u_stride: image.u_stride,
        v_plane: image.v, v_stride: image.v_stride, a_plane: image.a, a_stride: image.a_stride,
        width: image.width, height: image.height,
    };
    yuvutils_rs::icgc212_alpha_to_rgba12(&planes, rgba, rgba_stride, range)
}

/// `yuvutils_rs::icgc410_alpha_to_rgba10`: converts 10-bit 4:4:4 YCgCo planes
/// with alpha to packed RGBA.
///
/// The routine fails on nothing but its checks of the geometry, which it
/// makes before it touches a sample, and it works on as many rows as its
/// buffers hold. So the contract asks for an image that is not empty in
/// buffers that hold its rows and nothing more, on which every check
/// passes, and claims that the routine then succeeds and that the
/// destination keeps its length. What its arithmetic writes
/// is left open.
///
/// Every path of the routine stores the sample of the alpha plane as the
/// alpha of a pixel, and the contract says so.
///
/// The routine takes a bias off each chroma sample, and off each luma
/// sample of a limited-range image, in 16 signed bits, which a sample of
/// 0x8000 or more may leave. So the contract asks for such samples to be
/// below that (`planes_admitted`).
#[verifier::external_body]
pub(crate) fn icgc410_alpha_to_rgba10(
    image: &PlanarAlpha<u16>,
    rgba: &mut [u16],
    rgba_stride: u32,
    range: YuvRange,
) -> (r: Result<(), yuvutils_rs::YuvError>)
    requires
        image.fits(YuvType::Yuv444),
        planes_admitted(KernelFamily::YCgCo, range, image.y@, image.u@, image.v@),
        packed_exact(
            old(rgba)@.len() as int,
            rgba_stride as int,
            image.width as int,
            image.height as int,
            4,
        ),
    ensures
        r is Ok,
        final(rgba)@.len() == old(rgba)@.len(),
        image.alpha_into(final(rgba)@, rgba_stride as int),
{
    let range = match range {
        YuvRange::Tv => yuvutils_rs::YuvRange::Limited,
        YuvRange::Pc => yuvutils_rs::YuvRange::Full,
    };
    let planes = yuvutils_rs::YuvPlanarImageWithAlpha {
        y_plane: image.y, y_stride: image.y_stride, u_plane: image.u, u_stride: image.u_stride,
        v_plane: image.v, v_stride: image.v_stride, a_plane: image.a, a_stride: image.a_stride,
        width: image.width, height: image.height,
    };
    yuvutils_rs::icgc410_alpha_to_rgba10(&planes, rgba, rgba_stride, range)
}

/// `yuvutils_rs::icgc412_alpha_to_rgba12`: converts 12-bit 4:4:4 YCgCo planes
/// with alpha to packed RGBA.
///
/// The routine fails on nothing but its checks of the geometry, which it
/// makes before it touches a sample, and it works on as many rows as its
/// buffers hold. So the contract asks for an image that is not empty in
/// buffers that hold its rows and nothing more, on which every check
/// passes, and claims that the routine then succeeds and that the
/// destination keeps its length. What its arithmetic writes
/// is left open.
///
/// Every path of the routine stores the sample of the alpha plane as the
/// alpha of a pixel, and the contract says so.
///
/// The routine takes a bias off each chroma sample, and off each luma
/// sample of a limited-range image, in 16 signed bits, which a sample of
/// 0x8000 or more may leave. So the contract asks for such samples to be
/// below that (`planes_admitted`).
#[verifier::external_body]
pub(crate) fn icgc412_alpha_to_rgba12(
    image: &PlanarAlpha<u16>,
    rgba: &mut [u16],
    rgba_stride: u32,
    range: YuvRange,
) -> (r: Result<(), yuvutils_rs::YuvError>)
    requires
        image.fits(YuvType::Yuv444),
        planes_admitted(KernelFamily::YCgCo, range, image.y@, image.u@, image.v@),
        packed_exact(
            old(rgba)@.len() as int,
            rgba_stride as int,
            image.width as int,
            image.height as int,
            4,
        ),
    ensures
        r is Ok,
        final(rgba)@.len() == old(rgba)@.len(),
        image.alpha_into(final(rgba)@, rgba_stride as int),
{
    let range = match range {
        YuvRange::Tv => yuvutils_rs::YuvRange::Limited,
        YuvRange::Pc => yuvutils_rs::YuvRange::Full,
    };
    let planes = yuvutils_rs::YuvPlanarImageWithAlpha {
        y_plane: image.y, y_stride: image.y_stride, u_plane: image.u, u_stride: image.u_stride,
        v_plane: image.v, v_stride: image.v_stride, a_plane: image.a, a_stride: image.a_stride,
        width: image.width, height: image.height,
    };
    yuvutils_rs::icgc412_alpha_to_rgba12(&planes, rgba, rgba_stride, range)
}

/// `yuvutils_rs::i010_alpha_to_rgba10`: converts 10-bit 4:2:0 YUV planes with alpha
/// to packed RGBA with a Kr/Kb matrix.
///
/// The routine fails on nothing but its checks of the geometry, which it
/// makes before it touches a sample, and it works on as many rows as its
/// buffers hold. So the contract asks for an image that is not empty in
/// buffers that hold its rows and nothing more, on which every check
/// passes, and claims that the routine then succeeds and that the
/// destination keeps its length. What its arithmetic writes
/// is left open.
///
/// Every path of the routine stores the sample of the alpha plane as the
/// alpha of a pixel, and the contract says so.
#[verifier::external_body]
pub(crate) fn i010_alpha_to_rgba10(
    image: &PlanarAlpha<u16>,
    rgba: &mut [u16],
    rgba_stride: u32,
    range: YuvRange,
    matrix: StandardMatrix,
) -> (r: Result<(), yuvutils_rs::YuvError>)
    requires
        image.fits(YuvType::Yuv420),
        packed_exact(
            old(rgba)@.len() as int,
            rgba_stride as int,
            image.width as int,
            image.height as int,
            4,
        ),
    ensures
        r is Ok,
        final(rgba)@.len() == old(rgba)@.len(),
        image.alpha_into(final(rgba)@, rgba_stride as int),
{
    let range = match range {
        YuvRange::Tv => yuvutils_rs::YuvRange::Limited,
        YuvRange::Pc => yuvutils_rs::YuvRange::Full,
    };
    let matrix = match matrix {
        StandardMatrix::Bt601 => yuvutils_rs::YuvStandardMatrix::Bt601,
        StandardMatrix::Bt709 => yuvutils_rs::YuvStandardMatrix::Bt709,
        StandardMatrix::Bt2020 => yuvutils_rs::YuvStandardMatrix::Bt2020,
    };
    let planes = yuvutils_rs::YuvPlanarImageWithAlpha {
        y_plane: image.y, y_stride: image.y_stride, u_plane: image.u, u_stride: image.u_stride,
        v_plane: image.v, v_stride: image.v_stride, a_plane: image.a, a_stride: image.a_stride,
        width: image.width, height: image.height,
    };
    yuvutils_rs::i010_alpha_to_rgba10(&planes, rgba, rgba_stride, range, matrix)
}

/// `yuvutils_rs::i012_alpha_to_rgba12`: converts 12-bit 4:2:0 YUV planes with alpha
/// to packed RGBA with a Kr/Kb matrix.
///
/// The routine fails on nothing but its checks of the geometry, which it
/// makes before it touches a sample, and it works on as many rows as its
/// buffers hold. So the contract asks for an image that is not empty in
/// buffers that hold its rows and nothing more, on which every check
/// passes, and claims that the routine then succeeds and that the
/// destination keeps its length. What its arithmetic writes
/// is left open.
///
/// Every path of the routine stores the sample of the alpha plane as the
/// alpha of a pixel, and the contract says so.
#[verifier::external_body]
pub(crate) fn i012_alpha_to_rgba12(
    image: &PlanarAlpha<u16>,
    rgba: &mut [u16],
    rgba_stride: u32,
    range: YuvRange,
    matrix: StandardMatrix,
) -> (r: Result<(), yuvutils_rs::YuvError>)
    requires
        image.fits(YuvType::Yuv420),
        packed_exact(
            old(rgba)@.len() as int,
            rgba_stride as int,
            image.width as int,
            image.height as int,
            4,
        ),
    ensures
        r is Ok,
        final(rgba)@.len() == old(rgba)@.len(),
        image.alpha_into(final(rgba)@, rgba_stride as int),
{
    let range = match range {
        YuvRange::Tv => yuvutils_rs::YuvRange::Limited,
        YuvRange::Pc => yuvutils_rs::YuvRange::Full,
    };
    let matrix = match matrix {
        StandardMatrix::Bt601 => yuvutils_rs::YuvStandardMatrix::Bt601,
        StandardMatrix::Bt709 => yuvutils_rs::YuvStandardMatrix::Bt709,
        StandardMatrix::Bt2020 => yuvutils_rs::YuvStandardMatrix::Bt2020,
    };
    let planes = yuvutils_rs::YuvPlanarImageWithAlpha {
        y_plane: image.y, y_stride: image.y_stride, u_plane: image.u, u_stride: image.u_stride,
        v_plane: image.v, v_stride: image.v_stride, a_plane: image.a, a_stride: image.a_stride,
        width: image.width, height: image.height,
    };
    yuvutils_rs::i012_alpha_to_rgba12(&planes, rgba, rgba_stride, range, matrix)
}

/// `yuvutils_rs::i210_alpha_to_rgba10`: converts 10-bit 4:2:2 YUV planes with alpha
/// to packed RGBA with a Kr/Kb matrix.
///
/// The routine fails on nothing but its checks of the geometry, which it
/// makes before it touches a sample, and it works on as many rows as its
/// buffers hold. So the contract asks for an image that is not empty in
/// buffers that hold its rows and nothing more, on which every check
/// passes, and claims that the routine then succeeds and that the
/// destination keeps its length. What its arithmetic writes
/// is left open.
///
/// Every path of the routine stores the sample of the alpha plane as the
/// alpha of a pixel, and the contract says so.
#[verifier::external_body]
pub(crate) fn i210_alpha_to_rgba10(
    image: &PlanarAlpha<u16>,
    rgba: &mut [u16],
    rgba_stride: u32,
    range: YuvRange,
    matrix: StandardMatrix,
) -> (r: Result<(), yuvutils_rs::YuvError>)
    requires
        image.fits(YuvType::Yuv422),
        packed_exact(
            old(rgba)@.len() as int,
            rgba_stride as int,
            image.width as int,
            image.height as int,
            4,
        ),
    ensures
        r is Ok,
        final(rgba)@.len() == old(rgba)@.len(),
        image.alpha_into(final(rgba)@, rgba_stride as int),
{
    let range = match range {
        YuvRange::Tv => yuvutils_rs::YuvRange::Limited,
        YuvRange::Pc => yuvutils_rs::YuvRange::Full,
    };
    let matrix = match matrix {
        StandardMatrix::Bt601 => yuvutils_rs::YuvStandardMatrix::Bt601,
        StandardMatrix::Bt709 => yuvutils_rs::YuvStandardMatrix::Bt709,
        StandardMatrix::Bt2020 => yuvutils_rs::YuvStandardMatrix::Bt2020,
    };
    let planes = yuvutils_rs::YuvPlanarImageWithAlpha {
        y_plane: image.y, y_stride: image.y_stride, u_plane: image.u, u_stride: image.u_stride,
        v_plane: image.v, v_stride: image.v_stride, a_plane: image.a, a_stride: image.a_stride,
        width: image.width, height: image.height,
    };
    yuvutils_rs::i210_alpha_to_rgba10(&planes, rgba, rgba_stride, range, matrix)
}

/// `yuvutils_rs::i212_alpha_to_rgba12`: converts 12-bit 4:2:2 YUV planes with alpha
/// to packed RGBA with a Kr/Kb matrix.
///
/// The routine fails on nothing but its checks of the geometry, which it
/// makes before it touches a sample, and it works on as many rows as its
/// buffers hold. So the contract asks for an image that is not empty in
/// buffers that hold its rows and nothing more, on which every check
/// passes, and claims that the routine then succeeds and that the
/// destination keeps its length. What its arithmetic writes
/// is left open.
///
/// Every path of the routine stores the sample of the alpha plane as the
/// alpha of a pixel, and the contract says so.
#[verifier::external_body]
pub(crate) fn i212_alpha_to_rgba12(
    image: &PlanarAlpha<u16>,
    rgba: &mut [u16],
    rgba_stride: u32,
    range: YuvRange,
    matrix: StandardMatrix,
) -> (r: Result<(), yuvutils_rs::YuvError>)
    requires
        image.fits(YuvType::Yuv422),
        packed_exact(
            old(rgba)@.len() as int,
            rgba_stride as int,
            image.width as int,
            image.height as int,
            4,
        ),
    ensures
        r is Ok,
        final(rgba)@.len() == old(rgba)@.len(),
        image.alpha_into(final(rgba)@, rgba_stride as int),
{
    let range = match range {
        YuvRange::Tv => yuvutils_rs::YuvRange::Limited,
        YuvRange::Pc => yuvutils_rs::YuvRange::Full,
    };
    let matrix = match matrix {
        StandardMatrix::Bt601 => yuvutils_rs::YuvStandardMatrix::Bt601,
        StandardMatrix::Bt709 => yuvutils_rs::YuvStandardMatrix::Bt709,
        StandardMatrix::Bt2020 => yuvutils_rs::YuvStandardMatrix::Bt2020,
    };
    let planes = yuvutils_rs::YuvPlanarImageWithAlpha {
        y_plane: image.y, y_stride: image.y_stride, u_plane: image.u, u_stride: image.u_stride,
        v_plane: image.v, v_stride: image.v_stride, a_plane: image.a, a_stride: image.a_stride,
        width: image.width, height: image.height,
    };
    yuvutils_rs::i212_alpha_to_rgba12(&planes, rgba, rgba_stride, range, matrix)
}

/// `yuvutils_rs::i410_alpha_to_rgba10`: converts 10-bit 4:4:4 YUV planes with alpha
/// to packed RGBA with a Kr/Kb matrix.
///
/// The routine fails on nothing but its checks of the geometry, which it
/// makes before it touches a sample, and it works on as many rows as its
/// buffers hold. So the contract asks for an image that is not empty in
/// buffers that hold its rows and nothing more, on which every check
/// passes, and claims that the routine then succeeds and that the
/// destination keeps its length. What its arithmetic writes
/// is left open.
///
/// Every path of the routine stores the sample of the alpha plane as the
/// alpha of a pixel, and the contract says so.
#[verifier::external_body]
pub(crate) fn i410_alpha_to_rgba10(
    image: &PlanarAlpha<u16>,
    rgba: &mut [u16],
    rgba_stride: u32,
    range: YuvRange,
    matrix: StandardMatrix,
) -> (r: Result<(), yuvutils_rs::YuvError>)
    requires
        image.fits(YuvType::Yuv444),
        packed_exact(
            old(rgba)@.len() as int,
            rgba_stride as int,
            image.width as int,
            image.height as int,
            4,
        ),
    ensures
        r is Ok,
        final(rgba)@.len() == old(rgba)@.len(),
        image.alpha_into(final(rgba)@, rgba_stride as int),
{
    let range = match range {
        YuvRange::Tv => yuvutils_rs::YuvRange::Limited,
        YuvRange::Pc => yuvutils_rs::YuvRange::Full,
    };
    let matrix = match matrix {
        StandardMatrix::Bt601 => yuvutils_rs::YuvStandardMatrix::Bt601,
        StandardMatrix::Bt709 => yuvutils_rs::YuvStandardMatrix::Bt709,
        StandardMatrix::Bt2020 => yuvutils_rs::YuvStandardMatrix::Bt2020,
    };
    let planes = yuvutils_rs::YuvPlanarImageWithAlpha {
        y_plane: image.y, y_stride: image.y_stride, u_plane: image.u, u_stride: image.u_stride,
        v_plane: image.v, v_stride: image.v_stride, a_plane: image.a, a_stride: image.a_stride,
        width: image.width, height: image.height,
    };
    yuvutils_rs::i410_alpha_to_rgba10(&planes, rgba, rgba_stride, range, matrix)
}

/// `yuvutils_rs::i412_alpha_to_rgba12`: converts 12-bit 4:4:4 YUV planes with alpha
/// to packed RGBA with a Kr/Kb matrix.
///
/// The routine fails on nothing but its checks of the geometry, which it
/// makes before it touches a sample, and it works on as many rows as its
/// buffers hold. So the contract asks for an image that is not empty in
/// buffers that hold its rows and nothing more, on which every check
/// passes, and claims that the routine then succeeds and that the
/// destination keeps its length. What its arithmetic writes
/// is left open.
///
/// Every path of the routine stores the sample of the alpha plane as the
/// alpha of a pixel, and the contract says so.
#[verifier::external_body]
pub(crate) fn i412_alpha_to_rgba12(
    image: &PlanarAlpha<u16>,
    rgba: &mut [u16],
    rgba_stride: u32,
    range: YuvRange,
    matrix: StandardMatrix,
) -> (r: Result<(), yuvutils_rs::YuvError>)
    requires
        image.fits(YuvType::Yuv444),
        packed_exact(
            old(rgba)@.len() as int,
            rgba_stride as int,
            image.width as int,
            image.height as int,
            4,
        ),
    ensures
        r is Ok,
        final(rgba)@.len() == old(rgba)@.len(),
        image.alpha_into(final(rgba)@, rgba_stride as int),
{
    let range = match range {
        YuvRange::Tv => yuvutils_rs::YuvRange::Limited,
        YuvRange::Pc => yuvutils_rs::YuvRange::Full,
    };
    let matrix = match matrix {
        StandardMatrix::Bt601 => yuvutils_rs::YuvStandardMatrix::Bt601,
        StandardMatrix::Bt709 => yuvutils_rs::YuvStandardMatrix::Bt709,
        StandardMatrix::Bt2020 => yuvutils_rs::YuvStandardMatrix::Bt2020,
    };
    let planes = yuvutils_rs::YuvPlanarImageWithAlpha {
        y_plane: image.y, y_stride: image.y_stride, u_plane: image.u, u_stride: image.u_stride,
        v_plane: image.v, v_stride: image.v_stride, a_plane: image.a, a_stride: image.a_stride,
        width: image.width, height: image.height,
    };
    yuvutils_rs::i412_alpha_to_rgba12(&planes, rgba, rgba_stride, range, matrix)
}

/// `yuvutils_rs::y010_to_rgba10`: expands a 10-bit luma plane to packed RGBA.
///
/// The routine fails on nothing but its checks of the geometry, which it
/// makes before it touches a sample, and it works on as many rows as its
/// buffers hold. So the contract asks for an image that is not empty in
/// buffers that hold its rows and nothing more, on which every check
/// passes, and claims that the routine then succeeds and that the
/// destination keeps its length. What its arithmetic writes
/// is left open.
///
/// Every path of the routine stores one value as the red, green and blue of
/// a pixel and the greatest sample as its alpha, and the contract says so. On
/// a full-range image the routine does no arithmetic: that value is the
/// luma sample, which the contract says too.
///
/// On a limited-range image the routine takes the range bias off each
/// luma sample in 16 signed bits, which a sample of 0x8000 or more may
/// leave. So the contract asks for a limited-range plane whose samples are
/// all below that (`luma_admitted`).
#[verifier::external_body]
pub(crate) fn y010_to_rgba10(
    image: &Gray<u16>,
    rgba: &mut [u16],
    rgba_stride: u32,
    range: YuvRange,
    matrix: StandardMatrix,
) -> (r: Result<(), yuvutils_rs::YuvError>)
    requires
        image.fits(),
        luma_admitted(range, image.y@),
        packed_exact(
            old(rgba)@.len() as int,
            rgba_stride as int,
            image.width as int,
            image.height as int,
            4,
        ),
    ensures
        r is Ok,
        final(rgba)@.len() == old(rgba)@.len(),
        image.grey_into(final(rgba)@, rgba_stride as int, 1023),
        range == YuvRange::Pc ==> image.spread_into(final(rgba)@, rgba_stride as int, 1023),
{
    let range = match range {
        YuvRange::Tv => yuvutils_rs::YuvRange::Limited,
        YuvRange::Pc => yuvutils_rs::YuvRange::Full,
    };
    let matrix = match matrix {
        StandardMatrix::Bt601 => yuvutils_rs::YuvStandardMatrix::Bt601,
        StandardMatrix::Bt709 => yuvutils_rs::YuvStandardMatrix::Bt709,
        StandardMatrix::Bt2020 => yuvutils_rs::YuvStandardMatrix::Bt2020,
    };
    let planes = yuvutils_rs::YuvGrayImage {
        y_plane: image.y, y_stride: image.y_stride, width: image.width, height: image.height,
    };
    yuvutils_rs::y010_to_rgba10(&planes, rgba, rgba_stride, range, matrix)
}

/// `yuvutils_rs::y012_to_rgba12`: expands a 12-bit luma plane to packed RGBA.
///
/// The routine fails on nothing but its checks of the geometry, which it
/// makes before it touches a sample, and it works on as many rows as its
/// buffers hold. So the contract asks for an image that is not empty in
/// buffers that hold its rows and nothing more, on which every check
/// passes, and claims that the routine then succeeds and that the
/// destination keeps its length. What its arithmetic writes
/// is left open.
///
/// Every path of the routine stores one value as the red, green and blue of
/// a pixel and the greatest sample as its alpha, and the contract says so. On
/// a full-range image the routine does no arithmetic: that value is the
/// luma sample, which the contract says too.
///
/// On a limited-range image the routine takes the range bias off each
/// luma sample in 16 signed bits, which a sample of 0x8000 or more may
/// leave. So the contract asks for a limited-range plane whose samples are
/// all below that (`luma_admitted`).
#[verifier::external_body]
pub(crate) fn y012_to_rgba12(
    image: &Gray<u16>,
    rgba: &mut [u16],
    rgba_stride: u32,
    range: YuvRange,
    matrix: StandardMatrix,
) -> (r: Result<(), yuvutils_rs::YuvError>)
    requires
        image.fits(),
        luma_admitted(range, image.y@),
        packed_exact(
            old(rgba)@.len() as int,
            rgba_stride as int,
            image.width as int,
            image.height as int,
            4,
        ),
    ensures
        r is Ok,
        final(rgba)@.len() == old(rgba)@.len(),
        image.grey_into(final(rgba)@, rgba_stride as int, 4095),
        range == YuvRange::Pc ==> image.spread_into(final(rgba)@, rgba_stride as int, 4095),
{
    let range = match range {
        YuvRange::Tv => yuvutils_rs::YuvRange::Limited,
        YuvRange::Pc => yuvutils_rs::YuvRange::Full,
    };
    let matrix = match matrix {
        StandardMatrix::Bt601 => yuvutils_rs::YuvStandardMatrix::Bt601,
        StandardMatrix::Bt709 => yuvutils_rs::YuvStandardMatrix::Bt709,
        StandardMatrix::Bt2020 => yuvutils_rs::YuvStandardMatrix::Bt2020,
    };
    let planes = yuvutils_rs::YuvGrayImage {
        y_plane: image.y, y_stride: image.y_stride, width: image.width, height: image.height,
    };
    yuvutils_rs::y012_to_rgba12(&planes, rgba, rgba_stride, range, matrix)
}

/// `yuvutils_rs::y010_alpha_to_rgba10`: expands 10-bit luma and alpha planes to packed
/// RGBA.
///
/// The routine fails on nothing but its checks of the geometry, which it
/// makes before it touches a sample, and it works on as many rows as its
/// buffers hold. So the contract asks for an image that is not empty in
/// buffers that hold its rows and nothing more, on which every check
/// passes, and claims that the routine then succeeds and that the
/// destination keeps its length. What its arithmetic writes
/// is left open.
///
/// Every path of the routine stores one value as the red, green and blue of
/// a pixel and the alpha sample as its alpha, and the contract says so. On
/// a full-range image the routine does no arithmetic: that value is the
/// luma sample, which the contract says too.
///
/// On a limited-range image the routine takes the range bias off each
/// luma sample in 16 signed bits, which a sample of 0x8000 or more may
/// leave. So the contract asks for a limited-range plane whose samples are
/// all below that (`luma_admitted`).
#[verifier::external_body]
pub(crate) fn y010_alpha_to_rgba10(
    image: &GrayAlpha<u16>,
    rgba: &mut [u16],
    rgba_stride: u32,
    range: YuvRange,
    matrix: StandardMatrix,
) -> (r: Result<(), yuvutils_rs::YuvError>)
    requires
        image.fits(),
        luma_admitted(range, image.y@),
        packed_exact(
            old(rgba)@.len() as int,
            rgba_stride as int,
            image.width as int,
            image.height as int,
            4,
        ),
    ensures
        r is Ok,
        final(rgba)@.len() == old(rgba)@.len(),
        image.grey_into(final(rgba)@, rgba_stride as int),
        range == YuvRange::Pc ==> image.spread_into(final(rgba)@, rgba_stride as int),
{
    let range = match range {
        YuvRange::Tv => yuvutils_rs::YuvRange::Limited,
        YuvRange::Pc => yuvutils_rs::YuvRange::Full,
    };
    let matrix = match matrix {
        StandardMatrix::Bt601 => yuvutils_rs::YuvStandardMatrix::Bt601,
        StandardMatrix::Bt709 => yuvutils_rs::YuvStandardMatrix::Bt709,
        StandardMatrix::Bt2020 => yuvutils_rs::YuvStandardMatrix::Bt2020,
    };
    let planes = yuvutils_rs::YuvGrayAlphaImage {
        y_plane: image.y, y_stride: image.y_stride, a_plane: image.a, a_stride: image.a_stride,
        width: image.width, height: image.height,
    };
    yuvutils_rs::y010_alpha_to_rgba10(&planes, rgba, rgba_stride, range, matrix)
}

/// `yuvutils_rs::y012_alpha_to_rgba12`: expands 12-bit luma and alpha planes to packed
/// RGBA.
///
/// The routine fails on nothing but its checks of the geometry, which it
/// makes before it touches a sample, and it works on as many rows as its
/// buffers hold. So the contract asks for an image that is not empty in
/// buffers that hold its rows and nothing more, on which every check
/// passes, and claims that the routine then succeeds and that the
/// destination keeps its length. What its arithmetic writes
/// is left open.
///
/// Every path of the routine stores one value as the red, green and blue of
/// a pixel and the alpha sample as its alpha, and the contract says so. On
/// a full-range image the routine does no arithmetic: that value is the
/// luma sample, which the contract says too.
///
/// On a limited-range image the routine takes the range bias off each
/// luma sample in 16 signed bits, which a sample of 0x8000 or more may
/// leave. So the contract asks for a limited-range plane whose samples are
/// all below that (`luma_admitted`).
#[verifier::external_body]
pub(crate) fn y012_alpha_to_rgba12(
    image: &GrayAlpha<u16>,
    rgba: &mut [u16],
    rgba_stride: u32,
    range: YuvRange,
    matrix: StandardMatrix,
) -> (r: Result<(), yuvutils_rs::YuvError>)
    requires
        image.fits(),
        luma_admitted(range, image.y@),
        packed_exact(
            old(rgba)@.len() as int,
            rgba_stride as int,
            image.width as int,
            image.height as int,
            4,
        ),
    ensures
        r is Ok,
        final(rgba)@.len() == old(rgba)@.len(),
        image.grey_into(final(rgba)@, rgba_stride as int),
        range == YuvRange::Pc ==> image.spread_into(final(rgba)@, rgba_stride as int),
{
    let range = match range {
        YuvRange::Tv => yuvutils_rs::YuvRange::Limited,
        YuvRange::Pc => yuvutils_rs::YuvRange::Full,
    };
    let matrix = match matrix {
        StandardMatrix::Bt601 => yuvutils_rs::YuvStandardMatrix::Bt601,
        StandardMatrix::Bt709 => yuvutils_rs::YuvStandardMatrix::Bt709,
        StandardMatrix::Bt2020 => yuvutils_rs::YuvStandardMatrix::Bt2020,
    };
    let planes = yuvutils_rs::YuvGrayAlphaImage {
        y_plane: image.y, y_stride: image.y_stride, a_plane: image.a, a_stride: image.a_stride,
        width: image.width, height: image.height,
    };
    yuvutils_rs::y012_alpha_to_rgba12(&planes, rgba, rgba_stride, range, matrix)
}

} // verus!
