//! Format descriptors: sample range, colour matrix, chroma layout and the
//! geometry of the planes that follow from them.

use vstd::prelude::*;

verus! {

/// Range of the encoded samples.
#[derive(Copy, Clone, Debug, PartialEq, Eq, PartialOrd, Ord, Structural)]
pub enum YuvRange {
    /// Limited ("TV") range: luma 16..235 at 8 bits.
    Tv,
    /// Full ("PC") range.
    Pc,
}

/// Colour matrix of a planar image.
#[derive(Copy, Clone, Debug, PartialEq, Eq, PartialOrd, Ord, Structural)]
pub enum YuvMatrix {
    Bt601,
    Bt709,
    Bt2020,
    /// The planes hold G, B and R unchanged. Defined for 4:4:4 only.
    Identity,
    YCgCo,
}

/// Chroma layout of a planar image.
#[derive(Copy, Clone, Debug, PartialEq, Eq, PartialOrd, Ord, Structural)]
pub enum YuvType {
    Yuv420,
    Yuv422,
    Yuv444,
}

/// Why a conversion was refused or did not complete.
#[derive(Copy, Clone, Debug, PartialEq, Eq, Structural)]
pub enum PixelError {
    /// A stride is shorter than a row, or a buffer shorter than its rows.
    GeometryViolation,
    /// No conversion exists for this matrix, layout and bit depth.
    UnsupportedCombination,
    /// The numeric routine itself reported a failure.
    KernelArithmeticFailure,
    /// A plane of 10- or 12-bit samples holds a sample of 0x8000 or more where
    /// the routine for the image takes a bias off it in 16 signed bits: the
    /// routine is not handed such a plane.
    SampleOutOfRange,
}

/// The matrices that carry Kr/Kb coefficients.
#[derive(Copy, Clone, Debug, PartialEq, Eq, Structural)]
pub enum StandardMatrix {
    Bt601,
    Bt709,
    Bt2020,
}

/// The three families of conversion routines.
#[derive(Copy, Clone, Debug, PartialEq, Eq, Structural)]
pub enum KernelFamily {
    /// Plane swap between G, B, R planes and packed RGB.
    Gbr,
    /// The YCgCo lifting transform.
    YCgCo,
    /// A Kr/Kb coefficient matrix.
    Standard(StandardMatrix),
}

/// Width of one stored sample.
#[derive(Copy, Clone, Debug, PartialEq, Eq, Structural)]
pub enum SampleDepth {
    Eight,
    Ten,
    Twelve,
}

/// Identifies one conversion routine: the value side of the dispatch table.
#[derive(Copy, Clone, Debug, PartialEq, Eq, Structural)]
pub struct Kernel {
    pub family: KernelFamily,
    pub layout: YuvType,
    pub depth: SampleDepth,
    pub alpha: bool,
}

/// `n / 2`, rounded up.
pub open spec fn half_up(n: int) -> int {
    (n + 1) / 2
}

impl YuvType {
    /// Samples in one chroma row of an image `width` pixels wide.
    pub open spec fn chroma_width_of(self, width: int) -> int {
        match self {
            YuvType::Yuv420 => half_up(width),
            YuvType::Yuv422 => half_up(width),
            YuvType::Yuv444 => width,
        }
    }

    /// Rows in a chroma plane of an image `height` pixels high.
    pub open spec fn chroma_height_of(self, height: int) -> int {
        match self {
            YuvType::Yuv420 => half_up(height),
            YuvType::Yuv422 => height,
            YuvType::Yuv444 => height,
        }
    }

    pub fn chroma_width(self, width: u32) -> (w: u32)
        ensures
            w == self.chroma_width_of(width as int),
            self == YuvType::Yuv444 ==> w == width,
            self != YuvType::Yuv444 ==> 2 * w == width || 2 * w == width + 1,
    {
        match self {
            YuvType::Yuv420 => width / 2 + width % 2,
            YuvType::Yuv422 => width / 2 + width % 2,
            YuvType::Yuv444 => width,
        }
    }

    pub fn chroma_height(self, height: u32) -> (h: u32)
        ensures
            h == self.chroma_height_of(height as int),
            self != YuvType::Yuv420 ==> h == height,
            self == YuvType::Yuv420 ==> 2 * h == height || 2 * h == height + 1,
    {
        match self {
            YuvType::Yuv420 => height / 2 + height % 2,
            YuvType::Yuv422 => height,
            YuvType::Yuv444 => height,
        }
    }
}

/// The chroma planes of a 4:2:0 image have half the width and half the
/// height of the image, each rounded up; those of a 4:2:2 image half the
/// width, rounded up, and the full height; those of a 4:4:4 image the shape
/// of the luma plane.
pub proof fn lemma_chroma_shape(width: int, height: int)
    requires
        0 <= width,
        0 <= height,
    ensures
        width <= 2 * YuvType::Yuv420.chroma_width_of(width) <= width + 1,
        height <= 2 * YuvType::Yuv420.chroma_height_of(height) <= height + 1,
        width % 2 == 1 ==> 2 * YuvType::Yuv420.chroma_width_of(width) == width + 1,
        height % 2 == 1 ==> 2 * YuvType::Yuv420.chroma_height_of(height) == height + 1,
        width <= 2 * YuvType::Yuv422.chroma_width_of(width) <= width + 1,
        YuvType::Yuv422.chroma_height_of(height) == height,
        YuvType::Yuv444.chroma_width_of(width) == width,
        YuvType::Yuv444.chroma_height_of(height) == height,
{
}

impl PixelError {
    /// Whether the caller answers for this refusal. A descriptor without a
    /// routine and buffers that do not hold the image break the caller's
    /// side of the contract, and a routine that fails was promised to
    /// succeed. Samples that a routine cannot take are pixel data: the
    /// caller does not answer for what the pixels hold.
    pub open spec fn is_callers(self) -> bool {
        self != PixelError::SampleOutOfRange
    }

    pub fn blames_caller(self) -> (blamed: bool)
        ensures
            blamed == self.is_callers(),
    {
        match self {
            PixelError::SampleOutOfRange => false,
            _ => true,
        }
    }
}

impl YuvMatrix {
    /// The family that serves this matrix.
    pub open spec fn family_of(self) -> KernelFamily {
        match self {
            YuvMatrix::Bt601 => KernelFamily::Standard(StandardMatrix::Bt601),
            YuvMatrix::Bt709 => KernelFamily::Standard(StandardMatrix::Bt709),
            YuvMatrix::Bt2020 => KernelFamily::Standard(StandardMatrix::Bt2020),
            YuvMatrix::Identity => KernelFamily::Gbr,
            YuvMatrix::YCgCo => KernelFamily::YCgCo,
        }
    }

    /// Whether this matrix can be combined with the chroma layout `layout`.
    pub open spec fn admits(self, layout: YuvType) -> bool {
        self == YuvMatrix::Identity ==> layout == YuvType::Yuv444
    }

    /// Whether this matrix defines a luma-only conversion.
    pub open spec fn is_standard(self) -> bool {
        self.family_of() is Standard
    }

    pub fn family(self) -> (f: KernelFamily)
        ensures
            f == self.family_of(),
    {
        match self {
            YuvMatrix::Bt601 => KernelFamily::Standard(StandardMatrix::Bt601),
            YuvMatrix::Bt709 => KernelFamily::Standard(StandardMatrix::Bt709),
            YuvMatrix::Bt2020 => KernelFamily::Standard(StandardMatrix::Bt2020),
            YuvMatrix::Identity => KernelFamily::Gbr,
            YuvMatrix::YCgCo => KernelFamily::YCgCo,
        }
    }

    /// The coefficient matrix, for the monochrome conversions, which know no
    /// other family.
    pub fn standard(self) -> (m: Result<StandardMatrix, PixelError>)
        ensures
            self.is_standard() ==> m == Ok::<StandardMatrix, PixelError>(self.family_of()->Standard_0),
            !self.is_standard() ==> m == Err::<StandardMatrix, PixelError>(
                PixelError::UnsupportedCombination,
            ),
    {
        match self {
            YuvMatrix::Bt601 => Ok(StandardMatrix::Bt601),
            YuvMatrix::Bt709 => Ok(StandardMatrix::Bt709),
            YuvMatrix::Bt2020 => Ok(StandardMatrix::Bt2020),
            YuvMatrix::Identity => Err(PixelError::UnsupportedCombination),
            YuvMatrix::YCgCo => Err(PixelError::UnsupportedCombination),
        }
    }
}

impl SampleDepth {
    /// The depth that `bits` names, if any conversion serves it.
    pub open spec fn of_bits(bits: int) -> Option<SampleDepth> {
        if bits == 8 {
            Some(SampleDepth::Eight)
        } else if bits == 10 {
            Some(SampleDepth::Ten)
        } else if bits == 12 {
            Some(SampleDepth::Twelve)
        } else {
            None
        }
    }

    /// The greatest sample of this depth, which is opaque alpha.
    pub open spec fn top(self) -> u16 {
        match self {
            SampleDepth::Eight => 255,
            SampleDepth::Ten => 1023,
            SampleDepth::Twelve => 4095,
        }
    }

    pub fn from_bits(bits: u32) -> (d: Option<SampleDepth>)
        ensures
            d == Self::of_bits(bits as int),
    {
        if bits == 8 {
            Some(SampleDepth::Eight)
        } else if bits == 10 {
            Some(SampleDepth::Ten)
        } else if bits == 12 {
            Some(SampleDepth::Twelve)
        } else {
            None
        }
    }
}

/// Depth of packed RGBA in 16-bit words, as the colour and tone operators
/// take it.
#[derive(Copy, Clone, Debug, PartialEq, Eq, Structural)]
pub enum PackedDepth {
    Ten,
    Twelve,
    Sixteen,
}

impl PackedDepth {
    /// The number of bits of this depth.
    pub open spec fn bits(self) -> int {
        match self {
            PackedDepth::Ten => 10,
            PackedDepth::Twelve => 12,
            PackedDepth::Sixteen => 16,
        }
    }

    /// The depth that `bits` names, if an operator serves it. There is no
    /// stand-in for a depth that none serves.
    pub open spec fn of_bits(bits: int) -> Option<PackedDepth> {
        if bits == 10 {
            Some(PackedDepth::Ten)
        } else if bits == 12 {
            Some(PackedDepth::Twelve)
        } else if bits == 16 {
            Some(PackedDepth::Sixteen)
        } else {
            None
        }
    }

    pub fn from_bits(bits: u32) -> (d: Option<PackedDepth>)
        ensures
            d == Self::of_bits(bits as int),
    {
        if bits == 10 {
            Some(PackedDepth::Ten)
        } else if bits == 12 {
            Some(PackedDepth::Twelve)
        } else if bits == 16 {
            Some(PackedDepth::Sixteen)
        } else {
            None
        }
    }
}

/// The dispatch table as a mapping: the routine for a descriptor, or `None`
/// where the table has no entry.
pub open spec fn kernel_for(layout: YuvType, matrix: YuvMatrix, bits: int, alpha: bool) -> Option<
    Kernel,
> {
    if matrix.admits(layout) && SampleDepth::of_bits(bits) is Some {
        Some(
            Kernel {
                family: matrix.family_of(),
                layout,
                depth: SampleDepth::of_bits(bits)->Some_0,
                alpha,
            },
        )
    } else {
        None
    }
}

/// Resolves a format descriptor to its conversion routine. A descriptor
/// without one (the identity matrix on a subsampled layout, a depth other
/// than 8, 10 or 12) is refused; no neighbouring entry stands in for it.
pub fn select_kernel(layout: YuvType, matrix: YuvMatrix, bits: u32, alpha: bool) -> (k: Result<
    Kernel,
    PixelError,
>)
    ensures
        kernel_for(layout, matrix, bits as int, alpha) matches Some(id) ==> k == Ok::<
            Kernel,
            PixelError,
        >(id),
        kernel_for(layout, matrix, bits as int, alpha) is None ==> k == Err::<Kernel, PixelError>(
            PixelError::UnsupportedCombination,
        ),
{
    if matrix == YuvMatrix::Identity && layout != YuvType::Yuv444 {
        return Err(PixelError::UnsupportedCombination);
    }
    match SampleDepth::from_bits(bits) {
        Some(depth) => Ok(Kernel { family: matrix.family(), layout, depth, alpha }),
        None => Err(PixelError::UnsupportedCombination),
    }
}

/// The identity matrix has a routine on no layout but 4:4:4, whatever the
/// depth and with or without alpha; an entry point that is handed such a
/// descriptor refuses it, whatever its buffers are.
pub proof fn lemma_identity_only_on_444(
    layout: YuvType,
    bits: int,
    alpha: bool,
    r: Result<(), PixelError>,
    empty: bool,
    fits: bool,
)
    requires
        layout != YuvType::Yuv444,
    ensures
        kernel_for(layout, YuvMatrix::Identity, bits, alpha) is None,
        settles(r, YuvMatrix::Identity.admits(layout), empty, fits) ==> r == Err::<(), PixelError>(
            PixelError::UnsupportedCombination,
        ),
        !reaches_kernel(YuvMatrix::Identity.admits(layout), empty, fits),
{
}

/// How an entry point settles. It first refuses a descriptor that has no
/// routine, then accepts an empty image without touching anything, then
/// refuses buffers that do not hold the image; only then does the numeric
/// routine run, and it alone decides between success and its own failure.
pub open spec fn settles(r: Result<(), PixelError>, supported: bool, empty: bool, fits: bool) -> bool {
    if !supported {
        r == Err::<(), PixelError>(PixelError::UnsupportedCombination)
    } else if empty {
        r is Ok
    } else if !fits {
        r == Err::<(), PixelError>(PixelError::GeometryViolation)
    } else {
        r is Ok || r == Err::<(), PixelError>(PixelError::KernelArithmeticFailure)
    }
}

/// How a conversion between YUV and RGB layouts settles. It settles as
/// `settles` says, and its numeric routine fails on nothing but a geometry
/// that the entry point has refused before: so it succeeds on every image
/// that its buffers hold.
pub open spec fn converts(r: Result<(), PixelError>, supported: bool, empty: bool, fits: bool) -> bool {
    if !supported {
        r == Err::<(), PixelError>(PixelError::UnsupportedCombination)
    } else if empty {
        r is Ok
    } else if !fits {
        r == Err::<(), PixelError>(PixelError::GeometryViolation)
    } else {
        r is Ok
    }
}

/// How a conversion from planes of 10- or 12-bit samples settles. It settles
/// as `converts` says, but between the check of the buffers and the numeric
/// routine stands a check of the samples: an image whose samples the routine
/// cannot take is refused. `within` says whether it can take them.
pub open spec fn converts_samples(
    r: Result<(), PixelError>,
    supported: bool,
    empty: bool,
    fits: bool,
    within: bool,
) -> bool {
    if !supported {
        r == Err::<(), PixelError>(PixelError::UnsupportedCombination)
    } else if empty {
        r is Ok
    } else if !fits {
        r == Err::<(), PixelError>(PixelError::GeometryViolation)
    } else if !within {
        r == Err::<(), PixelError>(PixelError::SampleOutOfRange)
    } else {
        r is Ok
    }
}

/// Whether an entry point gets as far as its numeric routine.
pub open spec fn reaches_kernel(supported: bool, empty: bool, fits: bool) -> bool {
    supported && !empty && fits
}

/// A plane of `rows` rows, `row` units each, fits a buffer of `len` units
/// whose rows start `stride` units apart.
pub open spec fn plane_fits(len: int, stride: int, row: int, rows: int) -> bool {
    &&& 0 <= row <= stride
    &&& 0 <= rows
    &&& stride * rows <= len
}

/// Decides `plane_fits` without overflow.
pub fn check_plane(len: usize, stride: u32, row: u64, rows: u32) -> (ok: bool)
    ensures
        ok == plane_fits(len as int, stride as int, row as int, rows as int),
{
    assert((stride as int) * (rows as int) <= 0xffff_ffff * 0xffff_ffff) by (nonlinear_arith)
        requires
            0 <= stride <= 0xffff_ffff,
            0 <= rows <= 0xffff_ffff,
    ;
    row <= stride as u64 && (stride as u64) * (rows as u64) <= len as u64
}

/// Decides `plane_fits` for a stride that is not known to fit 32 bits.
pub fn check_plane_wide(len: usize, stride: usize, row: u64, rows: u32) -> (ok: bool)
    ensures
        ok == plane_fits(len as int, stride as int, row as int, rows as int),
{
    assert((stride as int) * (rows as int) <= 0xffff_ffff_ffff_ffff * 0xffff_ffff)
        by (nonlinear_arith)
        requires
            0 <= stride <= 0xffff_ffff_ffff_ffff,
            0 <= rows <= 0xffff_ffff,
    ;
    row <= stride as u64 && (stride as u128) * (rows as u128) <= len as u128
}

} // verus!
