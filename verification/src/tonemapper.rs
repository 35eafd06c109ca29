//! Tone mapping of HDR RGBA towards an sRGB display, in place.
//!
//! The colorimetry of the content arrives as a colour profile and the
//! operator as a method with its working colour space: both hold
//! floating-point values and are built by the caller.

use crate::format::{plane_fits, PackedDepth, PixelError};
use crate::icc::{
    apply_icc_rgba16_impl, apply_icc_rgba8_impl, lemma_row_keeps_padding, rows_copied,
    transform_builds, ColorOutcome,
};
use crate::planes::{check_packed, packed_fits};
use crate::support::{
    lemma_rows_within, lemma_write_back_of_view, same_padding, stage_words,
    write_back_if_staged, SliceStoreMut,
};
use vstd::prelude::*;

verus! {

/// Transfer characteristics by their ITU-T H.273 names.
#[derive(Copy, Clone, Debug, PartialEq, Eq, Structural)]
pub enum FfiTrc {
    /// For future use by ITU-T | ISO/IEC.
    Reserved,
    /// Rec. ITU-R BT.709-6.
    Bt709,
    /// Unknown, or determined by the application.
    Unspecified,
    /// Rec. ITU-R BT.470-6 System M.
    Bt470M,
    /// Rec. ITU-R BT.470-6 System B, G.
    Bt470Bg,
    /// Rec. ITU-R BT.601-7 525 or 625.
    Bt601,
    /// SMPTE 240M.
    Smpte240,
    /// Linear transfer characteristics.
    Linear,
    /// Logarithmic, 100:1 range.
    Log100,
    /// Logarithmic, 100 * sqrt(10) : 1 range.
    Log100sqrt10,
    /// IEC 61966-2-4.
    Iec61966,
    /// Rec. ITU-R BT.1361-0 extended colour gamut.
    Bt1361,
    /// IEC 61966-2-1 sRGB or sYCC.
    Srgb,
    /// Rec. ITU-R BT.2020-2, 10-bit system.
    Bt202010bit,
    /// Rec. ITU-R BT.2020-2, 12-bit system.
    Bt202012bit,
    /// SMPTE ST 2084, perceptual quantization.
    Smpte2084,
    /// SMPTE ST 428-1.
    Smpte428,
    /// ARIB STD-B67, hybrid log-gamma.
    Hlg,
}

impl FfiTrc {
    /// The ITU-T H.273 code point of these characteristics.
    pub open spec fn code_of(self) -> u8 {
        match self {
            FfiTrc::Reserved => 0,
            FfiTrc::Bt709 => 1,
            FfiTrc::Unspecified => 2,
            FfiTrc::Bt470M => 4,
            FfiTrc::Bt470Bg => 5,
            FfiTrc::Bt601 => 6,
            FfiTrc::Smpte240 => 7,
            FfiTrc::Linear => 8,
            FfiTrc::Log100 => 9,
            FfiTrc::Log100sqrt10 => 10,
            FfiTrc::Iec61966 => 11,
            FfiTrc::Bt1361 => 12,
            FfiTrc::Srgb => 13,
            FfiTrc::Bt202010bit => 14,
            FfiTrc::Bt202012bit => 15,
            FfiTrc::Smpte2084 => 16,
            FfiTrc::Smpte428 => 17,
            FfiTrc::Hlg => 18,
        }
    }

    pub fn code(&self) -> (c: u8)
        ensures
            c == self.code_of(),
    {
        match self {
            FfiTrc::Reserved => 0,
            FfiTrc::Bt709 => 1,
            FfiTrc::Unspecified => 2,
            FfiTrc::Bt470M => 4,
            FfiTrc::Bt470Bg => 5,
            FfiTrc::Bt601 => 6,
            FfiTrc::Smpte240 => 7,
            FfiTrc::Linear => 8,
            FfiTrc::Log100 => 9,
            FfiTrc::Log100sqrt10 => 10,
            FfiTrc::Iec61966 => 11,
            FfiTrc::Bt1361 => 12,
            FfiTrc::Srgb => 13,
            FfiTrc::Bt202010bit => 14,
            FfiTrc::Bt202012bit => 15,
            FfiTrc::Smpte2084 => 16,
            FfiTrc::Smpte428 => 17,
            FfiTrc::Hlg => 18,
        }
    }

    /// These characteristics as the colour engine names them.
    pub open spec fn characteristics_of(self) -> moxcms::TransferCharacteristics {
        match self {
            FfiTrc::Reserved => moxcms::TransferCharacteristics::Reserved,
            FfiTrc::Bt709 => moxcms::TransferCharacteristics::Bt709,
            FfiTrc::Unspecified => moxcms::TransferCharacteristics::Unspecified,
            FfiTrc::Bt470M => moxcms::TransferCharacteristics::Bt470M,
            FfiTrc::Bt470Bg => moxcms::TransferCharacteristics::Bt470Bg,
            FfiTrc::Bt601 => moxcms::TransferCharacteristics::Bt601,
            FfiTrc::Smpte240 => moxcms::TransferCharacteristics::Smpte240,
            FfiTrc::Linear => moxcms::TransferCharacteristics::Linear,
            FfiTrc::Log100 => moxcms::TransferCharacteristics::Log100,
            FfiTrc::Log100sqrt10 => moxcms::TransferCharacteristics::Log100sqrt10,
            FfiTrc::Iec61966 => moxcms::TransferCharacteristics::Iec61966,
            FfiTrc::Bt1361 => moxcms::TransferCharacteristics::Bt1361,
            FfiTrc::Srgb => moxcms::TransferCharacteristics::Srgb,
            FfiTrc::Bt202010bit => moxcms::TransferCharacteristics::Bt202010bit,
            FfiTrc::Bt202012bit => moxcms::TransferCharacteristics::Bt202012bit,
            FfiTrc::Smpte2084 => moxcms::TransferCharacteristics::Smpte2084,
            FfiTrc::Smpte428 => moxcms::TransferCharacteristics::Smpte428,
            FfiTrc::Hlg => moxcms::TransferCharacteristics::Hlg,
        }
    }

    pub fn to_characteristics(&self) -> (characteristics: moxcms::TransferCharacteristics)
        ensures
            characteristics == self.characteristics_of(),
    {
        match self {
            FfiTrc::Reserved => moxcms::TransferCharacteristics::Reserved,
            FfiTrc::Bt709 => moxcms::TransferCharacteristics::Bt709,
            FfiTrc::Unspecified => moxcms::TransferCharacteristics::Unspecified,
            FfiTrc::Bt470M => moxcms::TransferCharacteristics::Bt470M,
            FfiTrc::Bt470Bg => moxcms::TransferCharacteristics::Bt470Bg,
            FfiTrc::Bt601 => moxcms::TransferCharacteristics::Bt601,
            FfiTrc::Smpte240 => moxcms::TransferCharacteristics::Smpte240,
            FfiTrc::Linear => moxcms::TransferCharacteristics::Linear,
            FfiTrc::Log100 => moxcms::TransferCharacteristics::Log100,
            FfiTrc::Log100sqrt10 => moxcms::TransferCharacteristics::Log100sqrt10,
            FfiTrc::Iec61966 => moxcms::TransferCharacteristics::Iec61966,
            FfiTrc::Bt1361 => moxcms::TransferCharacteristics::Bt1361,
            FfiTrc::Srgb => moxcms::TransferCharacteristics::Srgb,
            FfiTrc::Bt202010bit => moxcms::TransferCharacteristics::Bt202010bit,
            FfiTrc::Bt202012bit => moxcms::TransferCharacteristics::Bt202012bit,
            FfiTrc::Smpte2084 => moxcms::TransferCharacteristics::Smpte2084,
            FfiTrc::Smpte428 => moxcms::TransferCharacteristics::Smpte428,
            FfiTrc::Hlg => moxcms::TransferCharacteristics::Hlg,
        }
    }
}

/// Whether and how to tone map.
#[derive(Copy, Clone, Debug, PartialEq, Eq, Structural)]
pub enum ToneMapping {
    /// No tone mapping: only the colour transform to sRGB.
    Skip,
    /// The operator of Report ITU-R BT.2408.
    Rec2408,
}

/// The colour space that a tone-mapping operator works in, as the entry
/// points choose it by the depth of the image.
#[derive(Copy, Clone, Debug, PartialEq, Eq, Structural)]
pub enum ToneSpace {
    /// RGB, with colours outside the gamut clipped: for 8 bits.
    RgbClipped,
    /// RGB, unclipped: for 10 and 12 bits.
    Rgb,
    /// Luma with chromaticity, unclipped: for every other depth.
    YRgb,
}

impl ToneSpace {
    /// The space for an image of `bits` bits.
    pub open spec fn of_bits(bits: int) -> ToneSpace {
        if bits == 8 {
            ToneSpace::RgbClipped
        } else if bits == 10 || bits == 12 {
            ToneSpace::Rgb
        } else {
            ToneSpace::YRgb
        }
    }

    pub fn for_bits(bits: u32) -> (space: ToneSpace)
        ensures
            space == Self::of_bits(bits as int),
    {
        if bits == 8 {
            ToneSpace::RgbClipped
        } else if bits == 10 || bits == 12 {
            ToneSpace::Rgb
        } else {
            ToneSpace::YRgb
        }
    }
}

/// The transfer characteristics of `moxcms`, declared with their variants
/// so that the conversion to them can be verified.
#[verifier::external_type_specification]
pub struct ExTransferCharacteristics(moxcms::TransferCharacteristics);

#[verifier::external_type_specification]
#[verifier::external_body]
pub struct ExToneMappingMethod(gainforge::ToneMappingMethod);

#[verifier::external_type_specification]
#[verifier::external_body]
pub struct ExMappingColorSpace(gainforge::MappingColorSpace);

#[verifier::external_type_specification]
#[verifier::external_body]
pub struct ExForgeError(gainforge::ForgeError);

/// Whether `gainforge` builds a tone mapper towards sRGB for RGBA of `bits`
/// bits from the content's profile, the operator `method` and the colour
/// space `space` to work in.
pub uninterp spec fn mapper_builds(
    content: moxcms::ColorProfile,
    method: gainforge::ToneMappingMethod,
    space: gainforge::MappingColorSpace,
    bits: int,
) -> bool;

/// A tone mapper for 8-bit RGBA rows. It holds a boxed trait object of
/// `gainforge`, a type that cannot be declared to the verifier, so its
/// contents are hidden from it.
#[verifier::external_body]
pub struct ToneMapper8 {
    inner: Box<gainforge::SyncToneMapper8Bit>,
}

/// A tone mapper for RGBA rows of 16-bit words; hidden from the verifier as
/// `ToneMapper8` is.
#[verifier::external_body]
pub struct ToneMapper16 {
    inner: Box<gainforge::SyncToneMapper16Bit>,
}

/// `gainforge::create_tone_mapper_rgba`: builds the tone mapper for 8-bit RGBA from the
/// content's profile to sRGB, which `moxcms::ColorProfile::new_srgb` gives.
/// The target is fixed here because the builder unwraps the tone curves of
/// its target, which sRGB has and another profile may lack. Whether a
/// mapper can be built is a matter of the three arguments alone, and has a
/// name.
#[verifier::external_body]
pub(crate) fn build_mapper8(
    content: &moxcms::ColorProfile,
    method: gainforge::ToneMappingMethod,
    space: gainforge::MappingColorSpace,
) -> (r: Result<ToneMapper8, gainforge::ForgeError>)
    ensures
        r is Ok <==> mapper_builds(*content, method, space, 8),
{
    let target = moxcms::ColorProfile::new_srgb();
    match gainforge::create_tone_mapper_rgba(content, &target, method, space) {
        Ok(inner) => Ok(ToneMapper8 { inner }),
        Err(e) => Err(e),
    }
}

/// `gainforge::create_tone_mapper_rgba10`: builds the tone mapper for 10-bit RGBA from the
/// content's profile to sRGB, which `moxcms::ColorProfile::new_srgb` gives.
/// The target is fixed here because the builder unwraps the tone curves of
/// its target, which sRGB has and another profile may lack. Whether a
/// mapper can be built is a matter of the three arguments alone, and has a
/// name.
#[verifier::external_body]
pub(crate) fn build_mapper10(
    content: &moxcms::ColorProfile,
    method: gainforge::ToneMappingMethod,
    space: gainforge::MappingColorSpace,
) -> (r: Result<ToneMapper16, gainforge::ForgeError>)
    ensures
        r is Ok <==> mapper_builds(*content, method, space, 10),
{
    let target = moxcms::ColorProfile::new_srgb();
    match gainforge::create_tone_mapper_rgba10(content, &target, method, space) {
        Ok(inner) => Ok(ToneMapper16 { inner }),
        Err(e) => Err(e),
    }
}

/// `gainforge::create_tone_mapper_rgba12`: builds the tone mapper for 12-bit RGBA from the
/// content's profile to sRGB, which `moxcms::ColorProfile::new_srgb` gives.
/// The target is fixed here because the builder unwraps the tone curves of
/// its target, which sRGB has and another profile may lack. Whether a
/// mapper can be built is a matter of the three arguments alone, and has a
/// name.
#[verifier::external_body]
pub(crate) fn build_mapper12(
    content: &moxcms::ColorProfile,
    method: gainforge::ToneMappingMethod,
    space: gainforge::MappingColorSpace,
) -> (r: Result<ToneMapper16, gainforge::ForgeError>)
    ensures
        r is Ok <==> mapper_builds(*content, method, space, 12),
{
    let target = moxcms::ColorProfile::new_srgb();
    match gainforge::create_tone_mapper_rgba12(content, &target, method, space) {
        Ok(inner) => Ok(ToneMapper16 { inner }),
        Err(e) => Err(e),
    }
}

/// `gainforge::create_tone_mapper_rgba16`: builds the tone mapper for 16-bit RGBA from the
/// content's profile to sRGB, which `moxcms::ColorProfile::new_srgb` gives.
/// The target is fixed here because the builder unwraps the tone curves of
/// its target, which sRGB has and another profile may lack. Whether a
/// mapper can be built is a matter of the three arguments alone, and has a
/// name.
#[verifier::external_body]
pub(crate) fn build_mapper16(
    content: &moxcms::ColorProfile,
    method: gainforge::ToneMappingMethod,
    space: gainforge::MappingColorSpace,
) -> (r: Result<ToneMapper16, gainforge::ForgeError>)
    ensures
        r is Ok <==> mapper_builds(*content, method, space, 16),
{
    let target = moxcms::ColorProfile::new_srgb();
    match gainforge::create_tone_mapper_rgba16(content, &target, method, space) {
        Ok(inner) => Ok(ToneMapper16 { inner }),
        Err(e) => Err(e),
    }
}

/// `gainforge::ToneMapper::tonemap_lane` on one row of 8-bit RGBA. Every
/// mapper refuses a row that is not as long as its target, and one that
/// does not hold whole pixels, and nothing else; so the contract asks for
/// neither and claims success. The row written keeps its length.
#[verifier::external_body]
pub(crate) fn tonemap_row8(mapper: &ToneMapper8, source: &[u8], target: &mut [u8]) -> (r:
    Result<(), gainforge::ForgeError>)
    requires
        source@.len() == old(target)@.len(),
        source@.len() % 4 == 0,
    ensures
        r is Ok,
        final(target)@.len() == old(target)@.len(),
{
    mapper.inner.tonemap_lane(source, target)
}

/// `gainforge::ToneMapper::tonemap_lane` on one row of 16-bit RGBA; as
/// `tonemap_row8`. The tables of a mapper hold an entry for every 16-bit
/// word, whatever the depth.
#[verifier::external_body]
pub(crate) fn tonemap_row16(mapper: &ToneMapper16, source: &[u16], target: &mut [u16]) -> (r:
    Result<(), gainforge::ForgeError>)
    requires
        source@.len() == old(target)@.len(),
        source@.len() % 4 == 0,
    ensures
        r is Ok,
        final(target)@.len() == old(target)@.len(),
{
    mapper.inner.tonemap_lane(source, target)
}

/// Sends `rows` rows of `n` samples each through `mapper`, row by row and
/// never beyond the pixels of a row.
pub(crate) fn tonemap_rows8(
    mapper: &ToneMapper8,
    source: &[u8],
    src_stride: usize,
    target: &mut [u8],
    dst_stride: usize,
    n: usize,
    rows: usize,
) -> (r: Result<(), PixelError>)
    requires
        plane_fits(source@.len() as int, src_stride as int, n as int, rows as int),
        plane_fits(old(target)@.len() as int, dst_stride as int, n as int, rows as int),
        n % 4 == 0,
    ensures
        same_padding(old(target)@, final(target)@, dst_stride as int, n as int, rows as int),
        r is Ok,
{
    let src_len = source.len();
    let dst_len = target.len();
    let mut r: usize = 0;
    let mut from: usize = 0;
    let mut to: usize = 0;
    while r < rows
        invariant
            plane_fits(src_len as int, src_stride as int, n as int, rows as int),
            plane_fits(dst_len as int, dst_stride as int, n as int, rows as int),
            n % 4 == 0,
            src_len == source@.len(),
            dst_len == target@.len(),
            dst_len == old(target)@.len(),
            r <= rows,
            from == r * src_stride,
            to == r * dst_stride,
            same_padding(old(target)@, target@, dst_stride as int, n as int, rows as int),
        decreases rows - r,
    {
        proof {
            lemma_rows_within(r as int, rows as int, src_stride as int, src_len as int);
            lemma_rows_within(r as int, rows as int, dst_stride as int, dst_len as int);
        }
        let ghost before = target@;
        let source_row = vstd::slice::slice_subrange(source, from, from + n);
        let (_, rest) = target.split_at_mut(to);
        let (target_row, _) = rest.split_at_mut(n);
        let outcome = tonemap_row8(mapper, source_row, target_row);
        proof {
            lemma_row_keeps_padding(
                old(target)@,
                before,
                target@,
                dst_stride as int,
                n as int,
                r as int,
                rows as int,
            );
        }
        if outcome.is_err() {
            return Err(PixelError::KernelArithmeticFailure);
        }
        from += src_stride;
        to += dst_stride;
        r += 1;
        proof {
            assert(from == r * src_stride) by (nonlinear_arith)
                requires
                    from == (r - 1) * src_stride + src_stride,
            ;
            assert(to == r * dst_stride) by (nonlinear_arith)
                requires
                    to == (r - 1) * dst_stride + dst_stride,
            ;
        }
    }
    Ok(())
}

/// Sends `rows` rows of `n` samples each through `mapper`, row by row and
/// never beyond the pixels of a row.
pub(crate) fn tonemap_rows16(
    mapper: &ToneMapper16,
    source: &[u16],
    src_stride: usize,
    target: &mut [u16],
    dst_stride: usize,
    n: usize,
    rows: usize,
) -> (r: Result<(), PixelError>)
    requires
        plane_fits(source@.len() as int, src_stride as int, n as int, rows as int),
        plane_fits(old(target)@.len() as int, dst_stride as int, n as int, rows as int),
        n % 4 == 0,
    ensures
        same_padding(old(target)@, final(target)@, dst_stride as int, n as int, rows as int),
        r is Ok,
{
    let src_len = source.len();
    let dst_len = target.len();
    let mut r: usize = 0;
    let mut from: usize = 0;
    let mut to: usize = 0;
    while r < rows
        invariant
            plane_fits(src_len as int, src_stride as int, n as int, rows as int),
            plane_fits(dst_len as int, dst_stride as int, n as int, rows as int),
            n % 4 == 0,
            src_len == source@.len(),
            dst_len == target@.len(),
            dst_len == old(target)@.len(),
            r <= rows,
            from == r * src_stride,
            to == r * dst_stride,
            same_padding(old(target)@, target@, dst_stride as int, n as int, rows as int),
        decreases rows - r,
    {
        proof {
            lemma_rows_within(r as int, rows as int, src_stride as int, src_len as int);
            lemma_rows_within(r as int, rows as int, dst_stride as int, dst_len as int);
        }
        let ghost before = target@;
        let source_row = vstd::slice::slice_subrange(source, from, from + n);
        let (_, rest) = target.split_at_mut(to);
        let (target_row, _) = rest.split_at_mut(n);
        let outcome = tonemap_row16(mapper, source_row, target_row);
        proof {
            lemma_row_keeps_padding(
                old(target)@,
                before,
                target@,
                dst_stride as int,
                n as int,
                r as int,
                rows as int,
            );
        }
        if outcome.is_err() {
            return Err(PixelError::KernelArithmeticFailure);
        }
        from += src_stride;
        to += dst_stride;
        r += 1;
        proof {
            assert(from == r * src_stride) by (nonlinear_arith)
                requires
                    from == (r - 1) * src_stride + src_stride,
            ;
            assert(to == r * dst_stride) by (nonlinear_arith)
                requires
                    to == (r - 1) * dst_stride + dst_stride,
            ;
        }
    }
    Ok(())
}

/// Copying every row of a buffer onto itself changes nothing.
pub proof fn lemma_copy_onto_itself<T>(base: Seq<T>, stride: int, n: int, rows: int)
    requires
        plane_fits(base.len() as int, stride, n, rows),
    ensures
        rows_copied(base, base, stride, stride, n, rows) == base,
{
    let copied = rows_copied(base, base, stride, stride, n, rows);
    assert forall|j: int| 0 <= j < base.len() implies copied[j] == base[j] by {
        if 0 <= j < stride * rows && j % stride < n {
            assert(stride > 0) by (nonlinear_arith)
                requires
                    0 <= j < stride * rows,
                    0 <= rows,
            ;
            assert(j == (j / stride) * stride + j % stride) by (nonlinear_arith)
                requires
                    stride > 0,
            ;
        }
    }
    assert(copied =~= base);
}

/// Copying all of a packed buffer over another of the same size gives the
/// buffer copied.
pub proof fn lemma_packed_copy_is_source<T>(base: Seq<T>, source: Seq<T>, n: int, rows: int)
    requires
        0 <= n,
        0 <= rows,
        base.len() == n * rows,
        source.len() == n * rows,
    ensures
        rows_copied(base, source, n, n, n, rows) == source,
{
    let copied = rows_copied(base, source, n, n, n, rows);
    assert(n * rows == rows * n) by (nonlinear_arith);
    assert forall|j: int| 0 <= j < base.len() implies copied[j] == source[j] by {
        assert(n > 0) by (nonlinear_arith)
            requires
                0 <= j < n * rows,
                0 <= n,
        ;
        assert(j == (j / n) * n + j % n && 0 <= j % n < n) by (nonlinear_arith)
            requires
                n > 0,
        ;
    }
    assert(copied =~= source);
}

/// How a tone mapping entry point settles. A depth that no operator serves
/// is refused. An empty image is left alone. Buffers that do not hold the
/// image are refused. Otherwise, with `ToneMapping::Rec2408` the image is
/// mapped if a mapper builds (`mapper`) and left alone if none does: a
/// mapper takes every row. With `ToneMapping::Skip` the image is left alone
/// if no colour transform builds (`transform`); if one does, the rows go
/// through it, and a row that it does not take makes the operation fail.
pub open spec fn tone_settles(
    r: Result<ColorOutcome, PixelError>,
    supported: bool,
    empty: bool,
    fits: bool,
    mapping: ToneMapping,
    transform: bool,
    mapper: bool,
) -> bool {
    if !supported {
        r == Err::<ColorOutcome, PixelError>(PixelError::UnsupportedCombination)
    } else if empty {
        r == Ok::<ColorOutcome, PixelError>(ColorOutcome::PassedThrough)
    } else if !fits {
        r == Err::<ColorOutcome, PixelError>(PixelError::GeometryViolation)
    } else {
        match mapping {
            ToneMapping::Rec2408 => r == Ok::<ColorOutcome, PixelError>(
                if mapper {
                    ColorOutcome::Transformed
                } else {
                    ColorOutcome::PassedThrough
                },
            ),
            ToneMapping::Skip => if transform {
                r == Ok::<ColorOutcome, PixelError>(ColorOutcome::Transformed) || r == Err::<
                    ColorOutcome,
                    PixelError,
                >(PixelError::KernelArithmeticFailure)
            } else {
                r == Ok::<ColorOutcome, PixelError>(ColorOutcome::PassedThrough)
            },
        }
    }
}

/// Maps 8-bit RGBA in place from the colorimetry of `profile` to sRGB. With
/// `ToneMapping::Skip` only the colour transform runs; with
/// `ToneMapping::Rec2408` the operator `method` runs in the colour space
/// `space`. Where no transform or operator can be built the image is left
/// as it is, and the result says so. An operator takes every row, so once
/// one is built the image is mapped; a colour transform may refuse a row, by
/// what its profile holds, and the operation then fails.
pub fn apply_tone_mapping_rgba8(
    image: &mut [u8],
    stride: u32,
    width: u32,
    height: u32,
    profile: moxcms::ColorProfile,
    mapping: ToneMapping,
    method: gainforge::ToneMappingMethod,
    space: gainforge::MappingColorSpace,
) -> (r: Result<ColorOutcome, PixelError>)
    ensures
        tone_settles(
            r,
            true,
            width == 0 || height == 0,
            packed_fits(old(image)@.len() as int, stride as int, width as int, height as int, 4),
            mapping,
            transform_builds(profile, 8),
            mapper_builds(profile, method, space, 8),
        ),
        r is Ok && r->Ok_0 == ColorOutcome::PassedThrough ==> final(image)@ == old(image)@,
        r is Err && r->Err_0 != PixelError::KernelArithmeticFailure ==> final(image)@ == old(
            image,
        )@,
        same_padding(old(image)@, final(image)@, stride as int, 4 * width, height as int),
{
    if width == 0 || height == 0 {
        return Ok(ColorOutcome::PassedThrough);
    }
    if !check_packed(image.len(), stride, width, height, 4) {
        return Err(PixelError::GeometryViolation);
    }
    match mapping {
        ToneMapping::Skip => {
            let source = vstd::slice::slice_to_vec(image);
            proof {
                lemma_copy_onto_itself(image@, stride as int, 4 * width, height as int);
            }
            apply_icc_rgba8_impl(source.as_slice(), stride, image, stride, width, height, profile)
        },
        ToneMapping::Rec2408 => {
            let built = build_mapper8(&profile, method, space);
            tonemap_or_leave8(built, image, stride, width, height)
        },
    }
}

/// The second half of tone mapping 8-bit RGBA in place: what is done once it
/// is known whether a mapper could be built. With a mapper every row goes
/// through it, and it takes every row; without one the image is left exactly
/// as it was. The result tells the two apart.
pub fn tonemap_or_leave8(
    built: Result<ToneMapper8, gainforge::ForgeError>,
    image: &mut [u8],
    stride: u32,
    width: u32,
    height: u32,
) -> (r: Result<ColorOutcome, PixelError>)
    requires
        packed_fits(old(image)@.len() as int, stride as int, width as int, height as int, 4),
    ensures
        built is Err ==> r == Ok::<ColorOutcome, PixelError>(ColorOutcome::PassedThrough)
            && final(image)@ == old(image)@,
        built is Ok ==> r == Ok::<ColorOutcome, PixelError>(ColorOutcome::Transformed),
        same_padding(old(image)@, final(image)@, stride as int, 4 * width, height as int),
{
    match built {
        Err(_) => Ok(ColorOutcome::PassedThrough),
        Ok(mapper) => {
            let source = vstd::slice::slice_to_vec(image);
            match tonemap_rows8(
                &mapper,
                source.as_slice(),
                stride as usize,
                image,
                stride as usize,
                4 * (width as usize),
                height as usize,
            ) {
                Ok(_) => Ok(ColorOutcome::Transformed),
                Err(e) => Err(e),
            }
        },
    }
}

/// Builds the tone mapper for RGBA of the given depth in 16-bit words.
pub(crate) fn build_mapper_wide(
    depth: PackedDepth,
    content: &moxcms::ColorProfile,
    method: gainforge::ToneMappingMethod,
    space: gainforge::MappingColorSpace,
) -> (r: Result<ToneMapper16, gainforge::ForgeError>)
    ensures
        r is Ok <==> mapper_builds(*content, method, space, depth.bits()),
{
    match depth {
        PackedDepth::Ten => build_mapper10(content, method, space),
        PackedDepth::Twelve => build_mapper12(content, method, space),
        PackedDepth::Sixteen => build_mapper16(content, method, space),
    }
}

/// Maps RGBA of 10, 12 or 16 bits in place from the colorimetry of
/// `profile` to sRGB; no other depth is served. The image is byte memory
/// that holds native-order 16-bit samples and may start at an odd address;
/// the stride counts bytes. The samples are read through a staged copy and
/// written in place where the memory is packed and word-aligned, through a
/// staging buffer otherwise. Where no transform or operator can be built
/// the image is left as it is, and the result says so. An operator takes
/// every row, so once one is built the image is mapped; a colour transform
/// may refuse a row, by what its profile holds, and the operation then
/// fails. Only bytes that belong to a pixel change.
pub fn apply_tone_mapping_rgba16(
    image: &mut [u8],
    stride: u32,
    bit_depth: u32,
    width: u32,
    height: u32,
    profile: &moxcms::ColorProfile,
    mapping: ToneMapping,
    method: gainforge::ToneMappingMethod,
    space: gainforge::MappingColorSpace,
) -> (r: Result<ColorOutcome, PixelError>)
    ensures
        tone_settles(
            r,
            PackedDepth::of_bits(bit_depth as int) is Some,
            width == 0 || height == 0,
            packed_fits(old(image)@.len() as int, stride as int, width as int, height as int, 8),
            mapping,
            transform_builds(*profile, bit_depth as int),
            mapper_builds(*profile, method, space, bit_depth as int),
        ),
        r is Ok && r->Ok_0 == ColorOutcome::PassedThrough ==> final(image)@ == old(image)@,
        r is Err && r->Err_0 != PixelError::KernelArithmeticFailure ==> final(image)@ == old(
            image,
        )@,
        same_padding(old(image)@, final(image)@, stride as int, 8 * width, height as int),
{
    let depth = match PackedDepth::from_bits(bit_depth) {
        Some(depth) => depth,
        None => {
            return Err(PixelError::UnsupportedCombination);
        },
    };
    if width == 0 || height == 0 {
        return Ok(ColorOutcome::PassedThrough);
    }
    if !check_packed(image.len(), stride, width, height, 8) {
        return Err(PixelError::GeometryViolation);
    }
    match mapping {
        ToneMapping::Skip => {
            let ghost base = image@;
            let row: usize = 4 * (width as usize);
            let rows = height as usize;
            let source = stage_words(image, stride as usize, row, rows);
            assert(row * rows == rows * row) by (nonlinear_arith);
            let mut working = SliceStoreMut::working(image, stride as usize, row, rows);
            let ghost before = working@;
            let r = apply_icc_rgba16_impl(
                source.as_slice(),
                4 * width,
                working.borrow_mut(),
                4 * width,
                width,
                height,
                depth,
                profile,
            );
            let ghost produced = working@;
            proof {
                lemma_packed_copy_is_source(before, source@, row as int, rows as int);
                lemma_write_back_of_view(base, stride as int, row as int, rows as int);
            }
            write_back_if_staged(
                working.into_staged(),
                r.is_ok(),
                image,
                stride as usize,
                row,
                rows,
                Ghost(base),
                Ghost(produced),
            );
            r
        },
        ToneMapping::Rec2408 => {
            let built = build_mapper_wide(depth, profile, method, space);
            tonemap_or_leave16(built, image, stride, width, height)
        },
    }
}

/// The second half of tone mapping RGBA of 16-bit words in place: what is
/// done once it is known whether a mapper could be built. With a mapper the
/// samples are staged, every row goes through it into a working store of
/// the image, and a staging buffer is written back; without one the image is
/// left exactly as it was, whether its memory admits words or not. The
/// result tells the two apart. The stride counts bytes.
pub fn tonemap_or_leave16(
    built: Result<ToneMapper16, gainforge::ForgeError>,
    image: &mut [u8],
    stride: u32,
    width: u32,
    height: u32,
) -> (r: Result<ColorOutcome, PixelError>)
    requires
        packed_fits(old(image)@.len() as int, stride as int, width as int, height as int, 8),
    ensures
        built is Err ==> r == Ok::<ColorOutcome, PixelError>(ColorOutcome::PassedThrough)
            && final(image)@ == old(image)@,
        built is Ok ==> r == Ok::<ColorOutcome, PixelError>(ColorOutcome::Transformed),
        same_padding(old(image)@, final(image)@, stride as int, 8 * width, height as int),
{
    match built {
        Err(_) => Ok(ColorOutcome::PassedThrough),
        Ok(mapper) => {
            let ghost base = image@;
            let row: usize = 4 * (width as usize);
            let rows = height as usize;
            let source = stage_words(image, stride as usize, row, rows);
            assert(row * rows == rows * row) by (nonlinear_arith);
            let mut working = SliceStoreMut::working(image, stride as usize, row, rows);
            let outcome = tonemap_rows16(
                &mapper,
                source.as_slice(),
                row,
                working.borrow_mut(),
                row,
                row,
                rows,
            );
            let ghost produced = working@;
            write_back_if_staged(
                working.into_staged(),
                outcome.is_ok(),
                image,
                stride as usize,
                row,
                rows,
                Ghost(base),
                Ghost(produced),
            );
            match outcome {
                Ok(_) => Ok(ColorOutcome::Transformed),
                Err(e) => Err(e),
            }
        },
    }
}

} // verus!
