//! Routes a resolved routine identifier to the one conversion routine it
//! names, one dimension at a time: family, then layout, then depth.

use crate::format::{
    Kernel, KernelFamily, PixelError, SampleDepth, StandardMatrix, YuvRange, YuvType,
};
use crate::kernels::{decode16, decode8, encode, encode_yuv};
use crate::planes::{
    chroma_exact, luma_admitted, packed_exact, plane_exact, planes_admitted, split_from, Gray,
    GrayAlpha, Planar, PlanarAlpha,
};
use vstd::prelude::*;

verus! {

impl Kernel {
    /// An identifier that the dispatch table can hold: the plane-swap family
    /// exists for 4:4:4 only.
    pub open spec fn wf(&self) -> bool {
        self.family == KernelFamily::Gbr ==> self.layout == YuvType::Yuv444
    }
}

/// The outcome of a routine of `yuvutils_rs` as this library reports it.
pub(crate) fn settle(outcome: Result<(), yuvutils_rs::YuvError>) -> (r: Result<(), PixelError>)
    ensures
        r is Ok <==> outcome is Ok,
        r is Err ==> r->Err_0 == PixelError::KernelArithmeticFailure,
{
    match outcome {
        Ok(_) => Ok(()),
        Err(_) => Err(PixelError::KernelArithmeticFailure),
    }
}

/// The outcome of a routine of `yuv` as this library reports it.
pub(crate) fn settle_encoder(outcome: Result<(), yuv::YuvError>) -> (r: Result<(), PixelError>)
    ensures
        r is Ok <==> outcome is Ok,
        r is Err ==> r->Err_0 == PixelError::KernelArithmeticFailure,
{
    match outcome {
        Ok(_) => Ok(()),
        Err(_) => Err(PixelError::KernelArithmeticFailure),
    }
}

/// Runs the 8-bit planar to RGBA routine that `kernel` names. The routine
/// succeeds on every image it is handed here. A full-range image of the
/// plane-swap family arrives as its planes swapped; what the arithmetic of
/// the other routines writes is left open. Every pixel arrives with opaque
/// alpha, but under the YCgCo matrix, whose routine does not store it on every
/// processor.
pub fn run_planar8(
    kernel: Kernel,
    image: &Planar<u8>,
    rgba: &mut [u8],
    stride: u32,
    range: YuvRange,
) -> (r: Result<(), PixelError>)
    requires
        kernel.wf(),
        kernel.depth == SampleDepth::Eight,
        kernel.alpha == false,
        image.fits(kernel.layout),
        packed_exact(
            old(rgba)@.len() as int,
            stride as int,
            image.width as int,
            image.height as int,
            4,
        ),
    ensures
        r is Ok,
        final(rgba)@.len() == old(rgba)@.len(),
        kernel.family != KernelFamily::YCgCo ==> image.opaque_into(
            final(rgba)@,
            stride as int,
            255,
        ),
        kernel.family == KernelFamily::Gbr && range == YuvRange::Pc ==> image.swapped_into(
            final(rgba)@,
            stride as int,
            255,
        ),
{
    let outcome = match kernel.family {
        KernelFamily::Gbr => decode8::gbr_to_rgba(image, rgba, stride, range),
        KernelFamily::YCgCo => match kernel.layout {
            YuvType::Yuv420 => decode8::ycgco420_to_rgba(image, rgba, stride, range),
            YuvType::Yuv422 => decode8::ycgco422_to_rgba(image, rgba, stride, range),
            YuvType::Yuv444 => decode8::ycgco444_to_rgba(image, rgba, stride, range),
        },
        KernelFamily::Standard(matrix) => match kernel.layout {
            YuvType::Yuv420 => decode8::yuv420_to_rgba(image, rgba, stride, range, matrix),
            YuvType::Yuv422 => decode8::yuv422_to_rgba(image, rgba, stride, range, matrix),
            YuvType::Yuv444 => decode8::yuv444_to_rgba(image, rgba, stride, range, matrix),
        },
    };
    settle(outcome)
}

/// Runs the 8-bit planar with alpha to RGBA routine that `kernel` names.
/// The routine succeeds on every image it is handed here. A full-range image
/// of the plane-swap family arrives as its planes swapped; what the
/// arithmetic of the other routines writes is left open. Every pixel arrives
/// with the alpha of its alpha plane.
pub fn run_planar8_alpha(
    kernel: Kernel,
    image: &PlanarAlpha<u8>,
    rgba: &mut [u8],
    stride: u32,
    range: YuvRange,
) -> (r: Result<(), PixelError>)
    requires
        kernel.wf(),
        kernel.depth == SampleDepth::Eight,
        kernel.alpha == true,
        image.fits(kernel.layout),
        packed_exact(
            old(rgba)@.len() as int,
            stride as int,
            image.width as int,
            image.height as int,
            4,
        ),
    ensures
        r is Ok,
        final(rgba)@.len() == old(rgba)@.len(),
        image.alpha_into(final(rgba)@, stride as int),
        kernel.family == KernelFamily::Gbr && range == YuvRange::Pc ==> image.swapped_into(
            final(rgba)@,
            stride as int,
        ),
{
    let outcome = match kernel.family {
        KernelFamily::Gbr => decode8::gbr_with_alpha_to_rgba(image, rgba, stride, range),
        KernelFamily::YCgCo => match kernel.layout {
            YuvType::Yuv420 => decode8::ycgco420_alpha_to_rgba(image, rgba, stride, range),
            YuvType::Yuv422 => decode8::ycgco422_alpha_to_rgba(image, rgba, stride, range),
            YuvType::Yuv444 => decode8::ycgco444_alpha_to_rgba(image, rgba, stride, range),
        },
        KernelFamily::Standard(matrix) => match kernel.layout {
            YuvType::Yuv420 => decode8::yuv420_alpha_to_rgba(image, rgba, stride, range, matrix, false),
            YuvType::Yuv422 => decode8::yuv422_alpha_to_rgba(image, rgba, stride, range, matrix, false),
            YuvType::Yuv444 => decode8::yuv444_alpha_to_rgba(image, rgba, stride, range, matrix, false),
        },
    };
    settle(outcome)
}

/// Runs the 10- or 12-bit planar to RGBA routine that `kernel` names. The
/// routine succeeds on every image it is handed here. A full-range image of
/// the plane-swap family arrives as its planes swapped; what the arithmetic
/// of the other routines writes is left open. Every pixel arrives with opaque
/// alpha.
pub fn run_planar16(
    kernel: Kernel,
    image: &Planar<u16>,
    rgba: &mut [u16],
    stride: u32,
    range: YuvRange,
) -> (r: Result<(), PixelError>)
    requires
        kernel.wf(),
        kernel.depth != SampleDepth::Eight,
        kernel.alpha == false,
        image.fits(kernel.layout),
        planes_admitted(kernel.family, range, image.y@, image.u@, image.v@),
        packed_exact(
            old(rgba)@.len() as int,
            stride as int,
            image.width as int,
            image.height as int,
            4,
        ),
    ensures
        r is Ok,
        final(rgba)@.len() == old(rgba)@.len(),
        image.opaque_into(final(rgba)@, stride as int, kernel.depth.top()),
        kernel.family == KernelFamily::Gbr && range == YuvRange::Pc ==> image.swapped_into(
            final(rgba)@,
            stride as int,
            kernel.depth.top(),
        ),
{
    let outcome = match kernel.family {
        KernelFamily::Gbr => match kernel.depth {
            SampleDepth::Ten => decode16::gb10_to_rgba10(image, rgba, stride, range),
            _ => decode16::gb12_to_rgba12(image, rgba, stride, range),
        },
        KernelFamily::YCgCo => match kernel.layout {
            YuvType::Yuv420 => match kernel.depth {
                SampleDepth::Ten => decode16::icgc010_to_rgba10(image, rgba, stride, range),
                _ => decode16::icgc012_to_rgba12(image, rgba, stride, range),
            },
            YuvType::Yuv422 => match kernel.depth {
                SampleDepth::Ten => decode16::icgc210_to_rgba10(image, rgba, stride, range),
                _ => decode16::icgc212_to_rgba12(image, rgba, stride, range),
            },
            YuvType::Yuv444 => match kernel.depth {
                SampleDepth::Ten => decode16::icgc410_to_rgba10(image, rgba, stride, range),
                _ => decode16::icgc412_to_rgba12(image, rgba, stride, range),
            },
        },
        KernelFamily::Standard(matrix) => match kernel.layout {
            YuvType::Yuv420 => match kernel.depth {
                SampleDepth::Ten => decode16::i010_to_rgba10(image, rgba, stride, range, matrix),
                _ => decode16::i012_to_rgba12(image, rgba, stride, range, matrix),
            },
            YuvType::Yuv422 => match kernel.depth {
                SampleDepth::Ten => decode16::i210_to_rgba10(image, rgba, stride, range, matrix),
                _ => decode16::i212_to_rgba12(image, rgba, stride, range, matrix),
            },
            YuvType::Yuv444 => match kernel.depth {
                SampleDepth::Ten => decode16::i410_to_rgba10(image, rgba, stride, range, matrix),
                _ => decode16::i412_to_rgba12(image, rgba, stride, range, matrix),
            },
        },
    };
    settle(outcome)
}

/// Runs the 10- or 12-bit planar with alpha to RGBA routine that `kernel`
/// names. The routine succeeds on every image it is handed here. A
/// full-range image of the plane-swap family arrives as its planes swapped;
/// what the arithmetic of the other routines writes is left open. Every pixel
/// arrives with the alpha of its alpha plane.
pub fn run_planar16_alpha(
    kernel: Kernel,
    image: &PlanarAlpha<u16>,
    rgba: &mut [u16],
    stride: u32,
    range: YuvRange,
) -> (r: Result<(), PixelError>)
    requires
        kernel.wf(),
        kernel.depth != SampleDepth::Eight,
        kernel.alpha == true,
        image.fits(kernel.layout),
        planes_admitted(kernel.family, range, image.y@, image.u@, image.v@),
        packed_exact(
            old(rgba)@.len() as int,
            stride as int,
            image.width as int,
            image.height as int,
            4,
        ),
    ensures
        r is Ok,
        final(rgba)@.len() == old(rgba)@.len(),
        image.alpha_into(final(rgba)@, stride as int),
        kernel.family == KernelFamily::Gbr && range == YuvRange::Pc ==> image.swapped_into(
            final(rgba)@,
            stride as int,
        ),
{
    let outcome = match kernel.family {
        KernelFamily::Gbr => match kernel.depth {
            SampleDepth::Ten => decode16::gb10_alpha_to_rgba10(image, rgba, stride, range),
            _ => decode16::gb12_alpha_to_rgba12(image, rgba, stride, range),
        },
        KernelFamily::YCgCo => match kernel.layout {
            YuvType::Yuv420 => match kernel.depth {
                SampleDepth::Ten => decode16::icgc010_alpha_to_rgba10(image, rgba, stride, range),
                _ => decode16::icgc012_alpha_to_rgba12(image, rgba, stride, range),
            },
            YuvType::Yuv422 => match kernel.depth {
                SampleDepth::Ten => decode16::icgc210_alpha_to_rgba10(image, rgba, stride, range),
                _ => decode16::icgc212_alpha_to_rgba12(image, rgba, stride, range),
            },
            YuvType::Yuv444 => match kernel.depth {
                SampleDepth::Ten => decode16::icgc410_alpha_to_rgba10(image, rgba, stride, range),
                _ => decode16::icgc412_alpha_to_rgba12(image, rgba, stride, range),
            },
        },
        KernelFamily::Standard(matrix) => match kernel.layout {
            YuvType::Yuv420 => match kernel.depth {
                SampleDepth::Ten => decode16::i010_alpha_to_rgba10(image, rgba, stride, range, matrix),
                _ => decode16::i012_alpha_to_rgba12(image, rgba, stride, range, matrix),
            },
            YuvType::Yuv422 => match kernel.depth {
                SampleDepth::Ten => decode16::i210_alpha_to_rgba10(image, rgba, stride, range, matrix),
                _ => decode16::i212_alpha_to_rgba12(image, rgba, stride, range, matrix),
            },
            YuvType::Yuv444 => match kernel.depth {
                SampleDepth::Ten => decode16::i410_alpha_to_rgba10(image, rgba, stride, range, matrix),
                _ => decode16::i412_alpha_to_rgba12(image, rgba, stride, range, matrix),
            },
        },
    };
    settle(outcome)
}

/// Runs the 10- or 12-bit luma to RGBA routine for `depth`, which succeeds
/// on every image it is handed here. Every pixel arrives grey, with opaque
/// alpha. In a full-range image the grey is the luma sample; what the
/// arithmetic makes it in a limited-range image is left open.
pub fn run_gray16(
    depth: SampleDepth,
    image: &Gray<u16>,
    rgba: &mut [u16],
    stride: u32,
    range: YuvRange,
    matrix: StandardMatrix,
) -> (r: Result<(), PixelError>)
    requires
        depth != SampleDepth::Eight,
        image.fits(),
        luma_admitted(range, image.y@),
        packed_exact(
            old(rgba)@.len() as int,
            stride as int,
            image.width as int,
            image.height as int,
            4,
        ),
    ensures
        r is Ok,
        final(rgba)@.len() == old(rgba)@.len(),
        image.grey_into(final(rgba)@, stride as int, depth.top()),
        range == YuvRange::Pc ==> image.spread_into(final(rgba)@, stride as int, depth.top()),
{
    match depth {
        SampleDepth::Ten => settle(decode16::y010_to_rgba10(image, rgba, stride, range, matrix)),
        _ => settle(decode16::y012_to_rgba12(image, rgba, stride, range, matrix)),
    }
}

/// Runs the 10- or 12-bit luma with alpha to RGBA routine for `depth`,
/// which succeeds on every image it is handed here. Every pixel arrives
/// grey, with the alpha of its alpha plane. In a full-range image the grey is
/// the luma sample; what the arithmetic makes it in a limited-range image is
/// left open.
pub fn run_gray16_alpha(
    depth: SampleDepth,
    image: &GrayAlpha<u16>,
    rgba: &mut [u16],
    stride: u32,
    range: YuvRange,
    matrix: StandardMatrix,
) -> (r: Result<(), PixelError>)
    requires
        depth != SampleDepth::Eight,
        image.fits(),
        luma_admitted(range, image.y@),
        packed_exact(
            old(rgba)@.len() as int,
            stride as int,
            image.width as int,
            image.height as int,
            4,
        ),
    ensures
        r is Ok,
        final(rgba)@.len() == old(rgba)@.len(),
        image.grey_into(final(rgba)@, stride as int),
        range == YuvRange::Pc ==> image.spread_into(final(rgba)@, stride as int),
{
    match depth {
        SampleDepth::Ten => settle(decode16::y010_alpha_to_rgba10(image, rgba, stride, range, matrix)),
        _ => settle(decode16::y012_alpha_to_rgba12(image, rgba, stride, range, matrix)),
    }
}

/// Runs the RGBA to 8-bit planar routine of `yuvutils_rs` that `kernel`
/// names, which succeeds on every image it is handed here. A full-range
/// image of the plane-swap family is split into its green, blue and red
/// planes; what the arithmetic of the other routines writes is left open.
pub fn run_encode(
    kernel: Kernel,
    y: &mut [u8],
    y_stride: u32,
    u: &mut [u8],
    u_stride: u32,
    v: &mut [u8],
    v_stride: u32,
    width: u32,
    height: u32,
    rgba: &[u8],
    stride: u32,
    range: YuvRange,
) -> (r: Result<(), PixelError>)
    requires
        kernel.wf(),
        width > 0,
        height > 0,
        plane_exact(old(y)@.len() as int, y_stride as int, width as int, height as int),
        chroma_exact(
            old(u)@.len() as int,
            u_stride as int,
            width as int,
            height as int,
            kernel.layout,
        ),
        chroma_exact(
            old(v)@.len() as int,
            v_stride as int,
            width as int,
            height as int,
            kernel.layout,
        ),
        packed_exact(rgba@.len() as int, stride as int, width as int, height as int, 4),
    ensures
        final(y)@.len() == old(y)@.len(),
        final(u)@.len() == old(u)@.len(),
        final(v)@.len() == old(v)@.len(),
        r is Ok,
        kernel.family == KernelFamily::Gbr && range == YuvRange::Pc ==> split_from(
            final(y)@,
            y_stride as int,
            final(u)@,
            u_stride as int,
            final(v)@,
            v_stride as int,
            rgba@,
            stride as int,
            width as int,
            height as int,
        ),
{
    match kernel.family {
        KernelFamily::Gbr => settle(encode::rgba_to_gbr(
            y, y_stride, u, u_stride, v, v_stride, width, height, rgba, stride,
            range,
        )),
        KernelFamily::YCgCo => match kernel.layout {
            YuvType::Yuv420 => settle(encode::rgba_to_ycgco420(
                y, y_stride, u, u_stride, v, v_stride, width, height, rgba, stride,
                range,
            )),
            YuvType::Yuv422 => settle(encode::rgba_to_ycgco422(
                y, y_stride, u, u_stride, v, v_stride, width, height, rgba, stride,
                range,
            )),
            YuvType::Yuv444 => settle(encode::rgba_to_ycgco444(
                y, y_stride, u, u_stride, v, v_stride, width, height, rgba, stride,
                range,
            )),
        },
        KernelFamily::Standard(matrix) => match kernel.layout {
            YuvType::Yuv420 => settle(encode::rgba_to_yuv420(
                y, y_stride, u, u_stride, v, v_stride, width, height, rgba, stride,
                range, matrix,
            )),
            YuvType::Yuv422 => settle(encode::rgba_to_yuv422(
                y, y_stride, u, u_stride, v, v_stride, width, height, rgba, stride,
                range, matrix,
            )),
            YuvType::Yuv444 => settle(encode::rgba_to_yuv444(
                y, y_stride, u, u_stride, v, v_stride, width, height, rgba, stride,
                range, matrix,
            )),
        },
    }
}

/// Runs the RGBA to 8-bit planar routine of `yuv` that `kernel` names, which
/// succeeds on every image it is handed here. A full-range image of the
/// plane-swap family is split into its green, blue and red planes; what the
/// arithmetic of the other routines writes is left open.
pub fn run_encode_yuv(
    kernel: Kernel,
    y: &mut [u8],
    y_stride: u32,
    u: &mut [u8],
    u_stride: u32,
    v: &mut [u8],
    v_stride: u32,
    width: u32,
    height: u32,
    rgba: &[u8],
    stride: u32,
    range: YuvRange,
) -> (r: Result<(), PixelError>)
    requires
        kernel.wf(),
        width > 0,
        height > 0,
        plane_exact(old(y)@.len() as int, y_stride as int, width as int, height as int),
        chroma_exact(
            old(u)@.len() as int,
            u_stride as int,
            width as int,
            height as int,
            kernel.layout,
        ),
        chroma_exact(
            old(v)@.len() as int,
            v_stride as int,
            width as int,
            height as int,
            kernel.layout,
        ),
        packed_exact(rgba@.len() as int, stride as int, width as int, height as int, 4),
    ensures
        final(y)@.len() == old(y)@.len(),
        final(u)@.len() == old(u)@.len(),
        final(v)@.len() == old(v)@.len(),
        r is Ok,
        kernel.family == KernelFamily::Gbr && range == YuvRange::Pc ==> split_from(
            final(y)@,
            y_stride as int,
            final(u)@,
            u_stride as int,
            final(v)@,
            v_stride as int,
            rgba@,
            stride as int,
            width as int,
            height as int,
        ),
{
    match kernel.family {
        KernelFamily::Gbr => settle_encoder(encode_yuv::rgba_to_gbr(
            y, y_stride, u, u_stride, v, v_stride, width, height, rgba, stride,
            range,
        )),
        KernelFamily::YCgCo => match kernel.layout {
            YuvType::Yuv420 => settle_encoder(encode_yuv::rgba_to_ycgco420(
                y, y_stride, u, u_stride, v, v_stride, width, height, rgba, stride,
                range,
            )),
            YuvType::Yuv422 => settle_encoder(encode_yuv::rgba_to_ycgco422(
                y, y_stride, u, u_stride, v, v_stride, width, height, rgba, stride,
                range,
            )),
            YuvType::Yuv444 => settle_encoder(encode_yuv::rgba_to_ycgco444(
                y, y_stride, u, u_stride, v, v_stride, width, height, rgba, stride,
                range,
            )),
        },
        KernelFamily::Standard(matrix) => match kernel.layout {
            YuvType::Yuv420 => settle_encoder(encode_yuv::rgba_to_yuv420(
                y, y_stride, u, u_stride, v, v_stride, width, height, rgba, stride,
                range, matrix,
            )),
            YuvType::Yuv422 => settle_encoder(encode_yuv::rgba_to_yuv422(
                y, y_stride, u, u_stride, v, v_stride, width, height, rgba, stride,
                range, matrix,
            )),
            YuvType::Yuv444 => settle_encoder(encode_yuv::rgba_to_yuv444(
                y, y_stride, u, u_stride, v, v_stride, width, height, rgba, stride,
                range, matrix,
            )),
        },
    }
}

} // verus!
