//! The RGBA to AR30 routines of `yuvutils_rs`, each behind its contract.

use crate::cvt::{packed_from_bytes, packed_from_words};
use crate::planes::{packed_exact, samples_within};
use crate::support::same_padding;
use vstd::prelude::*;

verus! {

/// `yuvutils_rs::rgba8_to_ar30`: packs 8-bit RGBA into 30-bit AR30 words in host
/// byte order, four bytes a pixel.
///
/// The routine walks both buffers row by row, for as many rows as they
/// hold, and hands its row converter the pixels of a row and no more. So
/// the contract asks for buffers that hold the rows of the image and
/// nothing more, and claims that the padding of the destination keeps its
/// bytes. It fails on nothing but its checks of the geometry, which such
/// buffers pass, so the contract claims that it succeeds.
///
/// Every row converter is the same few lines: a colour is widened to ten
/// bits by repeating its byte and dropping the six low bits, alpha keeps
/// its two top bits, and the word is stored in native order. The contract
/// states the words.
#[verifier::external_body]
pub(crate) fn rgba8_to_ar30(
    ar30: &mut [u8],
    ar30_stride: u32,
    rgba: &[u8],
    rgba_stride: u32,
    width: u32,
    height: u32,
) -> (r: Result<(), yuvutils_rs::YuvError>)
    requires
        width > 0,
        height > 0,
        packed_exact(old(ar30)@.len() as int, ar30_stride as int, width as int, height as int, 4),
        packed_exact(rgba@.len() as int, rgba_stride as int, width as int, height as int, 4),
    ensures
        r is Ok,
        same_padding(old(ar30)@, final(ar30)@, ar30_stride as int, 4 * width, height as int),
        packed_from_bytes(
            rgba@,
            rgba_stride as int,
            final(ar30)@,
            ar30_stride as int,
            width as int,
            height as int,
        ),
{
    let order = yuvutils_rs::Rgb30ByteOrder::Host;
    yuvutils_rs::rgba8_to_ar30(ar30, ar30_stride, order, rgba, rgba_stride, width, height)
}

/// `yuvutils_rs::rgba10_to_ar30`: packs 10-bit RGBA into 30-bit AR30 words in host
/// byte order, four bytes a pixel.
///
/// The routine walks both buffers row by row, for as many rows as they
/// hold, and hands its row converter the pixels of a row and no more. So
/// the contract asks for buffers that hold the rows of the image and
/// nothing more, and claims that the padding of the destination keeps its
/// bytes. It fails on nothing but its checks of the geometry, which such
/// buffers pass, so the contract claims that it succeeds.
///
/// Every row converter is the same few lines: a colour is cut to its ten
/// top bits and alpha to its two top bits, and the fields are joined by
/// bitwise or into a word that is stored in native order. The contract
/// states the words of an image whose samples are all within the depth;
/// the fields of a greater sample run into each other, and what is then
/// written is left open.
#[verifier::external_body]
pub(crate) fn rgba10_to_ar30(
    ar30: &mut [u8],
    ar30_stride: u32,
    rgba: &[u16],
    rgba_stride: u32,
    width: u32,
    height: u32,
) -> (r: Result<(), yuvutils_rs::YuvError>)
    requires
        width > 0,
        height > 0,
        packed_exact(old(ar30)@.len() as int, ar30_stride as int, width as int, height as int, 4),
        packed_exact(rgba@.len() as int, rgba_stride as int, width as int, height as int, 4),
    ensures
        r is Ok,
        same_padding(old(ar30)@, final(ar30)@, ar30_stride as int, 4 * width, height as int),
        samples_within(rgba@, 1023) ==> packed_from_words(
            rgba@,
            rgba_stride as int,
            final(ar30)@,
            ar30_stride as int,
            width as int,
            height as int,
            10,
        ),
{
    let order = yuvutils_rs::Rgb30ByteOrder::Host;
    yuvutils_rs::rgba10_to_ar30(ar30, ar30_stride, order, rgba, rgba_stride, width, height)
}

/// `yuvutils_rs::rgba12_to_ar30`: packs 12-bit RGBA into 30-bit AR30 words in host
/// byte order, four bytes a pixel.
///
/// The routine walks both buffers row by row, for as many rows as they
/// hold, and hands its row converter the pixels of a row and no more. So
/// the contract asks for buffers that hold the rows of the image and
/// nothing more, and claims that the padding of the destination keeps its
/// bytes. It fails on nothing but its checks of the geometry, which such
/// buffers pass, so the contract claims that it succeeds.
///
/// Every row converter is the same few lines: a colour is cut to its ten
/// top bits and alpha to its two top bits, and the fields are joined by
/// bitwise or into a word that is stored in native order. The contract
/// states the words of an image whose samples are all within the depth;
/// the fields of a greater sample run into each other, and what is then
/// written is left open.
#[verifier::external_body]
pub(crate) fn rgba12_to_ar30(
    ar30: &mut [u8],
    ar30_stride: u32,
    rgba: &[u16],
    rgba_stride: u32,
    width: u32,
    height: u32,
) -> (r: Result<(), yuvutils_rs::YuvError>)
    requires
        width > 0,
        height > 0,
        packed_exact(old(ar30)@.len() as int, ar30_stride as int, width as int, height as int, 4),
        packed_exact(rgba@.len() as int, rgba_stride as int, width as int, height as int, 4),
    ensures
        r is Ok,
        same_padding(old(ar30)@, final(ar30)@, ar30_stride as int, 4 * width, height as int),
        samples_within(rgba@, 4095) ==> packed_from_words(
            rgba@,
            rgba_stride as int,
            final(ar30)@,
            ar30_stride as int,
            width as int,
            height as int,
            12,
        ),
{
    let order = yuvutils_rs::Rgb30ByteOrder::Host;
    yuvutils_rs::rgba12_to_ar30(ar30, ar30_stride, order, rgba, rgba_stride, width, height)
}

} // verus!
