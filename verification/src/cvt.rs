//! Conversions between packed RGBA layouts.

use crate::dispatch::settle;
use crate::format::{converts, plane_fits, reaches_kernel, PixelError};
use crate::kernels::packed30;
use crate::planes::{check_packed, leading_rows, packed_fits, pixel_at, samples_within};
use crate::support::{
    lemma_padding_of_leading_rows, lemma_rows_within, same_padding, unpack_words, view_words,
};
use vstd::endian::{endianness, Endian};
use vstd::prelude::*;

verus! {

/// The AR30 word of a pixel whose colours have ten bits and whose alpha has
/// two: alpha in the two top bits, below it blue, then green, and red in
/// the ten low bits.
pub open spec fn ar30_word(red: int, green: int, blue: int, alpha: int) -> int {
    alpha * 0x4000_0000 + blue * 0x10_0000 + green * 0x400 + red
}

/// The four bytes of a 32-bit word as they lie in memory on the machine that
/// runs the code: its byte order is `vstd::endian::endianness()`.
pub open spec fn word_in_memory(word: int) -> (u8, u8, u8, u8) {
    let b0 = (word % 256) as u8;
    let b1 = (word / 0x100 % 256) as u8;
    let b2 = (word / 0x1_0000 % 256) as u8;
    let b3 = (word / 0x100_0000 % 256) as u8;
    match endianness() {
        Endian::Little => (b0, b1, b2, b3),
        Endian::Big => (b3, b2, b1, b0),
    }
}

/// The ten bits that an 8-bit colour widens to: its byte twice in a row,
/// without the six low bits.
pub open spec fn ten_of_eight(colour: u8) -> int {
    257 * (colour as int) / 64
}

/// The AR30 word of an 8-bit pixel. Alpha keeps its two top bits.
pub open spec fn ar30_of_bytes(pixel: (u8, u8, u8, u8)) -> int {
    ar30_word(
        ten_of_eight(pixel.0),
        ten_of_eight(pixel.1),
        ten_of_eight(pixel.2),
        (pixel.3 as int) / 64,
    )
}

/// The AR30 word of a pixel of `bits` bits, 10 or 12, whose samples are
/// within that depth: a colour keeps its ten top bits and alpha its two top
/// bits.
pub open spec fn ar30_of_words(pixel: (u16, u16, u16, u16), bits: int) -> int {
    let colour_unit: int = if bits == 10 {
        1
    } else {
        4
    };
    let alpha_unit: int = if bits == 10 {
        256
    } else {
        1024
    };
    ar30_word(
        (pixel.0 as int) / colour_unit,
        (pixel.1 as int) / colour_unit,
        (pixel.2 as int) / colour_unit,
        (pixel.3 as int) / alpha_unit,
    )
}

/// The image `ar30` holds, pixel for pixel, the AR30 words of the 8-bit
/// image `rgba`. The strides count bytes.
pub open spec fn packed_from_bytes(
    rgba: Seq<u8>,
    rgba_stride: int,
    ar30: Seq<u8>,
    ar30_stride: int,
    width: int,
    height: int,
) -> bool {
    forall|row: int, col: int|
        0 <= row < height && 0 <= col < width ==> #[trigger] pixel_at(ar30, ar30_stride, row, col)
            == word_in_memory(ar30_of_bytes(pixel_at(rgba, rgba_stride, row, col)))
}

/// The image `ar30` holds, pixel for pixel, the AR30 words of the image
/// `rgba` of `bits` bits. The stride of `rgba` counts samples, that of
/// `ar30` bytes.
pub open spec fn packed_from_words(
    rgba: Seq<u16>,
    rgba_stride: int,
    ar30: Seq<u8>,
    ar30_stride: int,
    width: int,
    height: int,
    bits: int,
) -> bool {
    forall|row: int, col: int|
        0 <= row < height && 0 <= col < width ==> #[trigger] pixel_at(ar30, ar30_stride, row, col)
            == word_in_memory(ar30_of_words(pixel_at(rgba, rgba_stride, row, col), bits))
}

/// Images whose leading rows are packed from each other are packed from
/// each other: what follows the rows in a buffer has no part in it.
pub proof fn lemma_packed_bytes_of_leading_rows(
    rgba: Seq<u8>,
    rgba_stride: int,
    ar30: Seq<u8>,
    ar30_stride: int,
    width: int,
    height: int,
)
    requires
        plane_fits(rgba.len() as int, rgba_stride, 4 * width, height),
        plane_fits(ar30.len() as int, ar30_stride, 4 * width, height),
        packed_from_bytes(
            rgba.subrange(0, rgba_stride * height),
            rgba_stride,
            ar30.subrange(0, ar30_stride * height),
            ar30_stride,
            width,
            height,
        ),
    ensures
        packed_from_bytes(rgba, rgba_stride, ar30, ar30_stride, width, height),
{
    let source = rgba.subrange(0, rgba_stride * height);
    let target = ar30.subrange(0, ar30_stride * height);
    assert forall|row: int, col: int| 0 <= row < height && 0 <= col < width implies #[trigger] pixel_at(
        ar30,
        ar30_stride,
        row,
        col,
    ) == word_in_memory(ar30_of_bytes(pixel_at(rgba, rgba_stride, row, col))) by {
        lemma_rows_within(row, height, rgba_stride, rgba.len() as int);
        lemma_rows_within(row, height, ar30_stride, ar30.len() as int);
        assert(pixel_at(source, rgba_stride, row, col) == pixel_at(rgba, rgba_stride, row, col));
        assert(pixel_at(target, ar30_stride, row, col) == pixel_at(ar30, ar30_stride, row, col));
    }
}

/// As `lemma_packed_bytes_of_leading_rows`, for a source of 16-bit samples
/// that holds its rows and nothing more.
pub proof fn lemma_packed_words_of_leading_rows(
    rgba: Seq<u16>,
    rgba_stride: int,
    ar30: Seq<u8>,
    ar30_stride: int,
    width: int,
    height: int,
    bits: int,
)
    requires
        plane_fits(ar30.len() as int, ar30_stride, 4 * width, height),
        packed_from_words(
            rgba,
            rgba_stride,
            ar30.subrange(0, ar30_stride * height),
            ar30_stride,
            width,
            height,
            bits,
        ),
    ensures
        packed_from_words(rgba, rgba_stride, ar30, ar30_stride, width, height, bits),
{
    let target = ar30.subrange(0, ar30_stride * height);
    assert forall|row: int, col: int| 0 <= row < height && 0 <= col < width implies #[trigger] pixel_at(
        ar30,
        ar30_stride,
        row,
        col,
    ) == word_in_memory(ar30_of_words(pixel_at(rgba, rgba_stride, row, col), bits)) by {
        lemma_rows_within(row, height, ar30_stride, ar30.len() as int);
        assert(pixel_at(target, ar30_stride, row, col) == pixel_at(ar30, ar30_stride, row, col));
    }
}

/// Both images of a conversion to AR30 hold their pixels. Lengths and
/// strides count bytes; a pixel of the source takes `pixel` bytes, one of
/// the target four.
pub open spec fn ar30_fits(
    rgba_len: nat,
    rgba_stride: u32,
    ar30_len: nat,
    ar30_stride: u32,
    width: u32,
    height: u32,
    pixel: int,
) -> bool {
    &&& packed_fits(rgba_len as int, rgba_stride as int, width as int, height as int, pixel)
    &&& packed_fits(ar30_len as int, ar30_stride as int, width as int, height as int, 4)
}

/// Packs 8-bit RGBA into AR30 words, ten bits a colour and two for alpha, in
/// host byte order: every pixel of `ar30` becomes the word of the pixel of
/// `rgba8` in its place. The strides count bytes. Only bytes that belong to
/// a pixel of `ar30` change.
pub fn weave_cvt_rgba8_to_ar30(
    rgba8: &[u8],
    rgba8_stride: u32,
    ar30: &mut [u8],
    ar30_stride: u32,
    width: u32,
    height: u32,
) -> (r: Result<(), PixelError>)
    ensures
        final(ar30)@.len() == old(ar30)@.len(),
        converts(
            r,
            true,
            width == 0 || height == 0,
            ar30_fits(
                rgba8@.len(),
                rgba8_stride,
                old(ar30)@.len(),
                ar30_stride,
                width,
                height,
                4,
            ),
        ),
        !reaches_kernel(
            true,
            width == 0 || height == 0,
            ar30_fits(
                rgba8@.len(),
                rgba8_stride,
                old(ar30)@.len(),
                ar30_stride,
                width,
                height,
                4,
            ),
        ) ==> final(ar30)@ == old(ar30)@,
        same_padding(old(ar30)@, final(ar30)@, ar30_stride as int, 4 * width, height as int),
        r is Ok ==> packed_from_bytes(
            rgba8@,
            rgba8_stride as int,
            final(ar30)@,
            ar30_stride as int,
            width as int,
            height as int,
        ),
{
    if width == 0 || height == 0 {
        return Ok(());
    }
    if !check_packed(rgba8.len(), rgba8_stride, width, height, 4) || !check_packed(
        ar30.len(),
        ar30_stride,
        width,
        height,
        4,
    ) {
        return Err(PixelError::GeometryViolation);
    }
    let ghost base = ar30@;
    let source = leading_rows(rgba8, rgba8_stride, 4 * (width as u64), height);
    let (target, _) = ar30.split_at_mut((ar30_stride as usize) * (height as usize));
    let outcome = packed30::rgba8_to_ar30(target, ar30_stride, source, rgba8_stride, width, height);
    proof {
        assert(ar30@.subrange(0, ar30_stride * height) =~= target@);
        lemma_padding_of_leading_rows(
            base,
            ar30@,
            ar30_stride as int,
            4 * width,
            height as int,
        );
        lemma_packed_bytes_of_leading_rows(
            rgba8@,
            rgba8_stride as int,
            ar30@,
            ar30_stride as int,
            width as int,
            height as int,
        );
    }
    settle(outcome)
}

/// Packs RGBA of 10 or 12 bits into AR30 words in host byte order. The
/// source is byte memory that holds native-order 16-bit samples and may
/// start at an odd address; it is read in place where it is packed and
/// word-aligned and through a staged copy otherwise. The strides count
/// bytes. No other depth is served. Where every sample of the source is
/// within the depth, every pixel of `ar30` becomes the word of the pixel of
/// `rgba16` in its place; the fields of a greater sample run into each
/// other, and what is then written is left open. Only bytes that belong to
/// a pixel of `ar30` change.
pub fn weave_cvt_rgba16_to_ar30(
    rgba16: &[u8],
    rgba16_stride: u32,
    bit_depth: usize,
    ar30: &mut [u8],
    ar30_stride: u32,
    width: u32,
    height: u32,
) -> (r: Result<(), PixelError>)
    ensures
        final(ar30)@.len() == old(ar30)@.len(),
        converts(
            r,
            bit_depth == 10 || bit_depth == 12,
            width == 0 || height == 0,
            ar30_fits(
                rgba16@.len(),
                rgba16_stride,
                old(ar30)@.len(),
                ar30_stride,
                width,
                height,
                8,
            ),
        ),
        !reaches_kernel(
            bit_depth == 10 || bit_depth == 12,
            width == 0 || height == 0,
            ar30_fits(
                rgba16@.len(),
                rgba16_stride,
                old(ar30)@.len(),
                ar30_stride,
                width,
                height,
                8,
            ),
        ) ==> final(ar30)@ == old(ar30)@,
        same_padding(old(ar30)@, final(ar30)@, ar30_stride as int, 4 * width, height as int),
        r is Ok && samples_within(
            unpack_words(rgba16@, rgba16_stride as int, 4 * width, height as int),
            if bit_depth == 10 {
                1023u16
            } else {
                4095u16
            },
        ) ==> packed_from_words(
            unpack_words(rgba16@, rgba16_stride as int, 4 * width, height as int),
            4 * width,
            final(ar30)@,
            ar30_stride as int,
            width as int,
            height as int,
            bit_depth as int,
        ),
{
    if bit_depth != 10 && bit_depth != 12 {
        return Err(PixelError::UnsupportedCombination);
    }
    if width == 0 || height == 0 {
        return Ok(());
    }
    if !check_packed(rgba16.len(), rgba16_stride, width, height, 8) || !check_packed(
        ar30.len(),
        ar30_stride,
        width,
        height,
        4,
    ) {
        return Err(PixelError::GeometryViolation);
    }
    let row: u32 = 4 * width;
    let source = view_words(rgba16, rgba16_stride as usize, row as usize, height as usize);
    let ghost base = ar30@;
    let (target, _) = ar30.split_at_mut((ar30_stride as usize) * (height as usize));
    let outcome = if bit_depth == 10 {
        packed30::rgba10_to_ar30(target, ar30_stride, source.borrow(), row, width, height)
    } else {
        packed30::rgba12_to_ar30(target, ar30_stride, source.borrow(), row, width, height)
    };
    proof {
        assert(ar30@.subrange(0, ar30_stride * height) =~= target@);
        lemma_padding_of_leading_rows(
            base,
            ar30@,
            ar30_stride as int,
            4 * width,
            height as int,
        );
        if samples_within(source@, if bit_depth == 10 {
            1023u16
        } else {
            4095u16
        }) {
            lemma_packed_words_of_leading_rows(
                source@,
                4 * width,
                ar30@,
                ar30_stride as int,
                width as int,
                height as int,
                bit_depth as int,
            );
        }
    }
    settle(outcome)
}

} // verus!
