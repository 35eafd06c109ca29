//! Planar images as the conversion routines take them: typed planes with
//! their strides in samples, and the geometry that makes them well formed.

use crate::format::{check_plane, plane_fits, KernelFamily, YuvRange, YuvType};
use vstd::prelude::*;

verus! {

/// Three planes: luma and two chroma planes, or G, B and R.
pub struct Planar<'a, T> {
    pub y: &'a [T],
    pub y_stride: u32,
    pub u: &'a [T],
    pub u_stride: u32,
    pub v: &'a [T],
    pub v_stride: u32,
    pub width: u32,
    pub height: u32,
}

/// Three planes and an alpha plane of full resolution.
pub struct PlanarAlpha<'a, T> {
    pub y: &'a [T],
    pub y_stride: u32,
    pub u: &'a [T],
    pub u_stride: u32,
    pub v: &'a [T],
    pub v_stride: u32,
    pub a: &'a [T],
    pub a_stride: u32,
    pub width: u32,
    pub height: u32,
}

/// A single luma plane.
pub struct Gray<'a, T> {
    pub y: &'a [T],
    pub y_stride: u32,
    pub width: u32,
    pub height: u32,
}

/// A luma plane and an alpha plane.
pub struct GrayAlpha<'a, T> {
    pub y: &'a [T],
    pub y_stride: u32,
    pub a: &'a [T],
    pub a_stride: u32,
    pub width: u32,
    pub height: u32,
}

/// An interleaved image of `channels` samples per pixel fits its buffer.
pub open spec fn packed_fits(len: int, stride: int, width: int, height: int, channels: int) -> bool {
    plane_fits(len, stride, channels * width, height)
}

/// A buffer of `len` units holds `rows` rows of `row` units, `stride` units
/// apart, and nothing behind them. The numeric routines are handed such
/// buffers only: they work on as many rows as a buffer holds.
pub open spec fn plane_exact(len: int, stride: int, row: int, rows: int) -> bool {
    &&& 0 <= row <= stride
    &&& 0 <= rows
    &&& stride * rows == len
}

/// A buffer holds a chroma plane of an image of the given size and layout,
/// and nothing more.
pub open spec fn chroma_exact(len: int, stride: int, width: int, height: int, layout: YuvType) -> bool {
    plane_exact(len, stride, layout.chroma_width_of(width), layout.chroma_height_of(height))
}

/// A buffer holds an interleaved image of `channels` samples per pixel, and
/// nothing more.
pub open spec fn packed_exact(len: int, stride: int, width: int, height: int, channels: int) -> bool {
    plane_exact(len, stride, channels * width, height)
}

/// The rows of a plane without what follows them in its buffer.
pub fn leading_rows<'a, T>(plane: &'a [T], stride: u32, row: u64, rows: u32) -> (head: &'a [T])
    requires
        plane_fits(plane@.len() as int, stride as int, row as int, rows as int),
    ensures
        head@ == plane@.subrange(0, stride * rows),
        plane_exact(head@.len() as int, stride as int, row as int, rows as int),
{
    let len = plane.len();
    vstd::slice::slice_subrange(plane, 0, (stride as usize) * (rows as usize))
}

/// Every sample of a plane is at most `top`.
pub open spec fn samples_within(words: Seq<u16>, top: u16) -> bool {
    forall|i: int| 0 <= i < words.len() ==> #[trigger] words[i] <= top
}

/// Decides `samples_within`.
pub fn samples_fit(words: &[u16], top: u16) -> (ok: bool)
    ensures
        ok == samples_within(words@, top),
{
    let n = words.len();
    let mut i: usize = 0;
    while i < n
        invariant
            n == words@.len(),
            i <= n,
            forall|k: int| 0 <= k < i ==> #[trigger] words@[k] <= top,
        decreases n - i,
    {
        if words[i] > top {
            return false;
        }
        i += 1;
    }
    true
}

/// The greatest sample that the routines which compute in 16 signed bits
/// take where they take a bias off it: a greater one reads as a negative
/// number, and the subtraction may leave the 16 bits.
pub const SIGNED_TOP: u16 = 0x7fff;

/// The 10- and 12-bit routine of `family` takes the samples of the three
/// planes in range `range`. The routines of the Kr/Kb matrices compute in
/// 32 bits and take every sample. Those of the other two compute in 16
/// signed bits: the plane swap takes a bias off every sample of a
/// limited-range image and does no arithmetic on a full-range one; YCgCo
/// takes a bias off the chroma in either range and off the luma in limited
/// range.
pub open spec fn planes_admitted(
    family: KernelFamily,
    range: YuvRange,
    y: Seq<u16>,
    u: Seq<u16>,
    v: Seq<u16>,
) -> bool {
    match family {
        KernelFamily::Standard(_) => true,
        KernelFamily::Gbr => range == YuvRange::Tv ==> samples_within(y, SIGNED_TOP)
            && samples_within(u, SIGNED_TOP) && samples_within(v, SIGNED_TOP),
        KernelFamily::YCgCo => samples_within(u, SIGNED_TOP) && samples_within(v, SIGNED_TOP) && (
        range == YuvRange::Tv ==> samples_within(y, SIGNED_TOP)),
    }
}

/// Decides `planes_admitted`, looking at no more samples than it has to.
pub fn planes_admit(family: KernelFamily, range: YuvRange, y: &[u16], u: &[u16], v: &[u16]) -> (ok:
    bool)
    ensures
        ok == planes_admitted(family, range, y@, u@, v@),
{
    let limited = range == YuvRange::Tv;
    match family {
        KernelFamily::Standard(_) => true,
        KernelFamily::Gbr => !limited || (samples_fit(y, SIGNED_TOP) && samples_fit(u, SIGNED_TOP)
            && samples_fit(v, SIGNED_TOP)),
        KernelFamily::YCgCo => samples_fit(u, SIGNED_TOP) && samples_fit(v, SIGNED_TOP) && (!limited
            || samples_fit(y, SIGNED_TOP)),
    }
}

/// The 10- and 12-bit luma routines take the samples of the plane in range
/// `range`: they take a bias off every sample of a limited-range image, in
/// 16 signed bits, and do no arithmetic on a full-range one.
pub open spec fn luma_admitted(range: YuvRange, y: Seq<u16>) -> bool {
    range == YuvRange::Tv ==> samples_within(y, SIGNED_TOP)
}

/// Decides `luma_admitted`.
pub fn luma_admits(range: YuvRange, y: &[u16]) -> (ok: bool)
    ensures
        ok == luma_admitted(range, y@),
{
    range != YuvRange::Tv || samples_fit(y, SIGNED_TOP)
}

/// The four samples of the pixel in row `row` and column `col` of a packed
/// image whose rows start `stride` samples apart.
pub open spec fn pixel_at<T>(rgba: Seq<T>, stride: int, row: int, col: int) -> (T, T, T, T) {
    (
        rgba[row * stride + 4 * col],
        rgba[row * stride + 4 * col + 1],
        rgba[row * stride + 4 * col + 2],
        rgba[row * stride + 4 * col + 3],
    )
}

/// The three planes of an image fit their buffers, lengths and strides
/// counted in bytes and a sample taking `unit` bytes.
pub open spec fn planes_fit(
    y_len: int,
    y_stride: int,
    u_len: int,
    u_stride: int,
    v_len: int,
    v_stride: int,
    width: int,
    height: int,
    layout: YuvType,
    unit: int,
) -> bool {
    &&& plane_fits(y_len, y_stride, unit * width, height)
    &&& plane_fits(
        u_len,
        u_stride,
        unit * layout.chroma_width_of(width),
        layout.chroma_height_of(height),
    )
    &&& plane_fits(
        v_len,
        v_stride,
        unit * layout.chroma_width_of(width),
        layout.chroma_height_of(height),
    )
}

impl<'a, T> Planar<'a, T> {
    /// The image is not empty and every plane holds its rows and nothing
    /// more.
    pub open spec fn fits(&self, layout: YuvType) -> bool {
        &&& self.width > 0
        &&& self.height > 0
        &&& plane_exact(
            self.y@.len() as int,
            self.y_stride as int,
            self.width as int,
            self.height as int,
        )
        &&& chroma_exact(
            self.u@.len() as int,
            self.u_stride as int,
            self.width as int,
            self.height as int,
            layout,
        )
        &&& chroma_exact(
            self.v@.len() as int,
            self.v_stride as int,
            self.width as int,
            self.height as int,
            layout,
        )
    }
}

/// The packed image `rgba` holds three planes swapped: every pixel has its
/// red from the third plane, its green from the first, its blue from the
/// second, and `alpha` as its alpha. This is what the planes of a full-range
/// image under the identity matrix spell.
pub open spec fn swapped<T>(
    y: Seq<T>,
    y_stride: int,
    u: Seq<T>,
    u_stride: int,
    v: Seq<T>,
    v_stride: int,
    rgba: Seq<T>,
    rgba_stride: int,
    width: int,
    height: int,
    alpha: T,
) -> bool {
    forall|row: int, col: int|
        0 <= row < height && 0 <= col < width ==> #[trigger] pixel_at(rgba, rgba_stride, row, col)
            == (v[row * v_stride + col], y[row * y_stride + col], u[row * u_stride + col], alpha)
}

/// As `swapped`, with the alpha of every pixel from the alpha plane.
pub open spec fn swapped_with_alpha<T>(
    y: Seq<T>,
    y_stride: int,
    u: Seq<T>,
    u_stride: int,
    v: Seq<T>,
    v_stride: int,
    a: Seq<T>,
    a_stride: int,
    rgba: Seq<T>,
    rgba_stride: int,
    width: int,
    height: int,
) -> bool {
    forall|row: int, col: int|
        0 <= row < height && 0 <= col < width ==> #[trigger] pixel_at(rgba, rgba_stride, row, col)
            == (
            v[row * v_stride + col],
            y[row * y_stride + col],
            u[row * u_stride + col],
            a[row * a_stride + col],
        )
}

/// The packed image `rgba` holds the luma sample of every pixel as its red,
/// green and blue, and `alpha` as its alpha. This is what the plane of a
/// full-range image spells.
pub open spec fn spread<T>(
    y: Seq<T>,
    y_stride: int,
    rgba: Seq<T>,
    rgba_stride: int,
    width: int,
    height: int,
    alpha: T,
) -> bool {
    forall|row: int, col: int|
        0 <= row < height && 0 <= col < width ==> #[trigger] pixel_at(rgba, rgba_stride, row, col)
            == (
            y[row * y_stride + col],
            y[row * y_stride + col],
            y[row * y_stride + col],
            alpha,
        )
}

/// As `spread`, with the alpha of every pixel from the alpha plane.
pub open spec fn spread_with_alpha<T>(
    y: Seq<T>,
    y_stride: int,
    a: Seq<T>,
    a_stride: int,
    rgba: Seq<T>,
    rgba_stride: int,
    width: int,
    height: int,
) -> bool {
    forall|row: int, col: int|
        0 <= row < height && 0 <= col < width ==> #[trigger] pixel_at(rgba, rgba_stride, row, col)
            == (
            y[row * y_stride + col],
            y[row * y_stride + col],
            y[row * y_stride + col],
            a[row * a_stride + col],
        )
}

/// Every pixel of the packed image `rgba` is grey, its red, green and blue one
/// sample, and has `alpha` as its alpha.
pub open spec fn grey<T>(rgba: Seq<T>, rgba_stride: int, width: int, height: int, alpha: T) -> bool {
    forall|row: int, col: int|
        0 <= row < height && 0 <= col < width ==> {
            let pixel = #[trigger] pixel_at(rgba, rgba_stride, row, col);
            pixel.0 == pixel.1 && pixel.1 == pixel.2 && pixel.3 == alpha
        }
}

/// As `grey`, with the alpha of every pixel from the alpha plane.
pub open spec fn grey_with_alpha<T>(
    a: Seq<T>,
    a_stride: int,
    rgba: Seq<T>,
    rgba_stride: int,
    width: int,
    height: int,
) -> bool {
    forall|row: int, col: int|
        0 <= row < height && 0 <= col < width ==> {
            let pixel = #[trigger] pixel_at(rgba, rgba_stride, row, col);
            pixel.0 == pixel.1 && pixel.1 == pixel.2 && pixel.3 == a[row * a_stride + col]
        }
}

/// Every pixel of the packed image `rgba` has `alpha` as its alpha.
pub open spec fn opaque<T>(rgba: Seq<T>, rgba_stride: int, width: int, height: int, alpha: T) -> bool {
    forall|row: int, col: int|
        0 <= row < height && 0 <= col < width ==> (#[trigger] pixel_at(
            rgba,
            rgba_stride,
            row,
            col,
        )).3 == alpha
}

/// Every pixel of the packed image `rgba` has the sample of the alpha plane
/// in its place as its alpha.
pub open spec fn alpha_from<T>(
    a: Seq<T>,
    a_stride: int,
    rgba: Seq<T>,
    rgba_stride: int,
    width: int,
    height: int,
) -> bool {
    forall|row: int, col: int|
        0 <= row < height && 0 <= col < width ==> (#[trigger] pixel_at(
            rgba,
            rgba_stride,
            row,
            col,
        )).3 == a[row * a_stride + col]
}

impl<'a, T> Planar<'a, T> {
    /// `opaque` of an image of this size.
    pub open spec fn opaque_into(&self, rgba: Seq<T>, stride: int, alpha: T) -> bool {
        opaque(rgba, stride, self.width as int, self.height as int, alpha)
    }
}

impl<'a, T> PlanarAlpha<'a, T> {
    /// `alpha_from` of the alpha plane.
    pub open spec fn alpha_into(&self, rgba: Seq<T>, stride: int) -> bool {
        alpha_from(
            self.a@,
            self.a_stride as int,
            rgba,
            stride,
            self.width as int,
            self.height as int,
        )
    }
}

impl<'a, T> Planar<'a, T> {
    /// `swapped` of these planes.
    pub open spec fn swapped_into(&self, rgba: Seq<T>, stride: int, alpha: T) -> bool {
        swapped(
            self.y@,
            self.y_stride as int,
            self.u@,
            self.u_stride as int,
            self.v@,
            self.v_stride as int,
            rgba,
            stride,
            self.width as int,
            self.height as int,
            alpha,
        )
    }
}

impl<'a, T> PlanarAlpha<'a, T> {
    /// `swapped_with_alpha` of these planes.
    pub open spec fn swapped_into(&self, rgba: Seq<T>, stride: int) -> bool {
        swapped_with_alpha(
            self.y@,
            self.y_stride as int,
            self.u@,
            self.u_stride as int,
            self.v@,
            self.v_stride as int,
            self.a@,
            self.a_stride as int,
            rgba,
            stride,
            self.width as int,
            self.height as int,
        )
    }
}

impl<'a, T> Gray<'a, T> {
    /// `grey` of an image of this size.
    pub open spec fn grey_into(&self, rgba: Seq<T>, stride: int, alpha: T) -> bool {
        grey(rgba, stride, self.width as int, self.height as int, alpha)
    }

    /// `spread` of this plane.
    pub open spec fn spread_into(&self, rgba: Seq<T>, stride: int, alpha: T) -> bool {
        spread(
            self.y@,
            self.y_stride as int,
            rgba,
            stride,
            self.width as int,
            self.height as int,
            alpha,
        )
    }
}

impl<'a, T> GrayAlpha<'a, T> {
    /// `grey_with_alpha` of the alpha plane.
    pub open spec fn grey_into(&self, rgba: Seq<T>, stride: int) -> bool {
        grey_with_alpha(
            self.a@,
            self.a_stride as int,
            rgba,
            stride,
            self.width as int,
            self.height as int,
        )
    }

    /// `spread_with_alpha` of these planes.
    pub open spec fn spread_into(&self, rgba: Seq<T>, stride: int) -> bool {
        spread_with_alpha(
            self.y@,
            self.y_stride as int,
            self.a@,
            self.a_stride as int,
            rgba,
            stride,
            self.width as int,
            self.height as int,
        )
    }
}

/// The three planes hold the colours of the packed image `rgba` split up:
/// for every pixel the first plane has its green, the second its blue and the
/// third its red. This is what a full-range image under the identity matrix
/// is.
pub open spec fn split_from<T>(
    y: Seq<T>,
    y_stride: int,
    u: Seq<T>,
    u_stride: int,
    v: Seq<T>,
    v_stride: int,
    rgba: Seq<T>,
    rgba_stride: int,
    width: int,
    height: int,
) -> bool {
    forall|row: int, col: int|
        0 <= row < height && 0 <= col < width ==> {
            &&& y[row * y_stride + col] == (#[trigger] pixel_at(rgba, rgba_stride, row, col)).1
            &&& u[row * u_stride + col] == pixel_at(rgba, rgba_stride, row, col).2
            &&& v[row * v_stride + col] == pixel_at(rgba, rgba_stride, row, col).0
        }
}

impl<'a, T> PlanarAlpha<'a, T> {
    /// The image is not empty and every plane holds its rows and nothing
    /// more.
    pub open spec fn fits(&self, layout: YuvType) -> bool {
        &&& self.width > 0
        &&& self.height > 0
        &&& plane_exact(
            self.y@.len() as int,
            self.y_stride as int,
            self.width as int,
            self.height as int,
        )
        &&& plane_exact(
            self.a@.len() as int,
            self.a_stride as int,
            self.width as int,
            self.height as int,
        )
        &&& chroma_exact(
            self.u@.len() as int,
            self.u_stride as int,
            self.width as int,
            self.height as int,
            layout,
        )
        &&& chroma_exact(
            self.v@.len() as int,
            self.v_stride as int,
            self.width as int,
            self.height as int,
            layout,
        )
    }
}

impl<'a, T> Gray<'a, T> {
    /// The image is not empty and the plane holds its rows and nothing more.
    pub open spec fn fits(&self) -> bool {
        &&& self.width > 0
        &&& self.height > 0
        &&& plane_exact(
            self.y@.len() as int,
            self.y_stride as int,
            self.width as int,
            self.height as int,
        )
    }
}

impl<'a, T> GrayAlpha<'a, T> {
    /// The image is not empty and both planes hold their rows and nothing
    /// more.
    pub open spec fn fits(&self) -> bool {
        &&& self.width > 0
        &&& self.height > 0
        &&& plane_exact(
            self.y@.len() as int,
            self.y_stride as int,
            self.width as int,
            self.height as int,
        )
        &&& plane_exact(
            self.a@.len() as int,
            self.a_stride as int,
            self.width as int,
            self.height as int,
        )
    }
}

/// Planes and a packed image whose leading rows are swapped are swapped:
/// what follows the rows of the image in a buffer has no part in it.
pub proof fn lemma_swapped_of_leading_rows<T>(
    y: Seq<T>,
    y_stride: int,
    u: Seq<T>,
    u_stride: int,
    v: Seq<T>,
    v_stride: int,
    rgba: Seq<T>,
    rgba_stride: int,
    width: int,
    height: int,
    alpha: T,
)
    requires
        plane_fits(y.len() as int, y_stride, width, height),
        plane_fits(u.len() as int, u_stride, width, height),
        plane_fits(v.len() as int, v_stride, width, height),
        plane_fits(rgba.len() as int, rgba_stride, 4 * width, height),
        swapped(
            y.subrange(0, y_stride * height),
            y_stride,
            u.subrange(0, u_stride * height),
            u_stride,
            v.subrange(0, v_stride * height),
            v_stride,
            rgba.subrange(0, rgba_stride * height),
            rgba_stride,
            width,
            height,
            alpha,
        ),
    ensures
        swapped(y, y_stride, u, u_stride, v, v_stride, rgba, rgba_stride, width, height, alpha),
{
    let head = rgba.subrange(0, rgba_stride * height);
    assert forall|row: int, col: int| 0 <= row < height && 0 <= col < width implies #[trigger] pixel_at(
        rgba,
        rgba_stride,
        row,
        col,
    ) == (v[row * v_stride + col], y[row * y_stride + col], u[row * u_stride + col], alpha) by {
        lemma_row_inside(row, height, y_stride);
        lemma_row_inside(row, height, u_stride);
        lemma_row_inside(row, height, v_stride);
        lemma_row_inside(row, height, rgba_stride);
        assert(pixel_at(head, rgba_stride, row, col) == pixel_at(rgba, rgba_stride, row, col));
    }
}

/// As `lemma_swapped_of_leading_rows`, with an alpha plane.
pub proof fn lemma_swapped_with_alpha_of_leading_rows<T>(
    y: Seq<T>,
    y_stride: int,
    u: Seq<T>,
    u_stride: int,
    v: Seq<T>,
    v_stride: int,
    a: Seq<T>,
    a_stride: int,
    rgba: Seq<T>,
    rgba_stride: int,
    width: int,
    height: int,
)
    requires
        plane_fits(y.len() as int, y_stride, width, height),
        plane_fits(u.len() as int, u_stride, width, height),
        plane_fits(v.len() as int, v_stride, width, height),
        plane_fits(a.len() as int, a_stride, width, height),
        plane_fits(rgba.len() as int, rgba_stride, 4 * width, height),
        swapped_with_alpha(
            y.subrange(0, y_stride * height),
            y_stride,
            u.subrange(0, u_stride * height),
            u_stride,
            v.subrange(0, v_stride * height),
            v_stride,
            a.subrange(0, a_stride * height),
            a_stride,
            rgba.subrange(0, rgba_stride * height),
            rgba_stride,
            width,
            height,
        ),
    ensures
        swapped_with_alpha(
            y,
            y_stride,
            u,
            u_stride,
            v,
            v_stride,
            a,
            a_stride,
            rgba,
            rgba_stride,
            width,
            height,
        ),
{
    let head = rgba.subrange(0, rgba_stride * height);
    assert forall|row: int, col: int| 0 <= row < height && 0 <= col < width implies #[trigger] pixel_at(
        rgba,
        rgba_stride,
        row,
        col,
    ) == (
        v[row * v_stride + col],
        y[row * y_stride + col],
        u[row * u_stride + col],
        a[row * a_stride + col],
    ) by {
        lemma_row_inside(row, height, y_stride);
        lemma_row_inside(row, height, u_stride);
        lemma_row_inside(row, height, v_stride);
        lemma_row_inside(row, height, a_stride);
        lemma_row_inside(row, height, rgba_stride);
        assert(pixel_at(head, rgba_stride, row, col) == pixel_at(rgba, rgba_stride, row, col));
    }
}

/// A luma plane and a packed image whose leading rows are spread are spread.
pub proof fn lemma_spread_of_leading_rows<T>(
    y: Seq<T>,
    y_stride: int,
    rgba: Seq<T>,
    rgba_stride: int,
    width: int,
    height: int,
    alpha: T,
)
    requires
        plane_fits(y.len() as int, y_stride, width, height),
        plane_fits(rgba.len() as int, rgba_stride, 4 * width, height),
        spread(
            y.subrange(0, y_stride * height),
            y_stride,
            rgba.subrange(0, rgba_stride * height),
            rgba_stride,
            width,
            height,
            alpha,
        ),
    ensures
        spread(y, y_stride, rgba, rgba_stride, width, height, alpha),
{
    let head = rgba.subrange(0, rgba_stride * height);
    assert forall|row: int, col: int| 0 <= row < height && 0 <= col < width implies #[trigger] pixel_at(
        rgba,
        rgba_stride,
        row,
        col,
    ) == (y[row * y_stride + col], y[row * y_stride + col], y[row * y_stride + col], alpha) by {
        lemma_row_inside(row, height, y_stride);
        lemma_row_inside(row, height, rgba_stride);
        assert(pixel_at(head, rgba_stride, row, col) == pixel_at(rgba, rgba_stride, row, col));
    }
}

/// As `lemma_spread_of_leading_rows`, with an alpha plane.
pub proof fn lemma_spread_with_alpha_of_leading_rows<T>(
    y: Seq<T>,
    y_stride: int,
    a: Seq<T>,
    a_stride: int,
    rgba: Seq<T>,
    rgba_stride: int,
    width: int,
    height: int,
)
    requires
        plane_fits(y.len() as int, y_stride, width, height),
        plane_fits(a.len() as int, a_stride, width, height),
        plane_fits(rgba.len() as int, rgba_stride, 4 * width, height),
        spread_with_alpha(
            y.subrange(0, y_stride * height),
            y_stride,
            a.subrange(0, a_stride * height),
            a_stride,
            rgba.subrange(0, rgba_stride * height),
            rgba_stride,
            width,
            height,
        ),
    ensures
        spread_with_alpha(y, y_stride, a, a_stride, rgba, rgba_stride, width, height),
{
    let head = rgba.subrange(0, rgba_stride * height);
    assert forall|row: int, col: int| 0 <= row < height && 0 <= col < width implies #[trigger] pixel_at(
        rgba,
        rgba_stride,
        row,
        col,
    ) == (
        y[row * y_stride + col],
        y[row * y_stride + col],
        y[row * y_stride + col],
        a[row * a_stride + col],
    ) by {
        lemma_row_inside(row, height, y_stride);
        lemma_row_inside(row, height, a_stride);
        lemma_row_inside(row, height, rgba_stride);
        assert(pixel_at(head, rgba_stride, row, col) == pixel_at(rgba, rgba_stride, row, col));
    }
}

/// A packed image whose leading rows are grey is grey.
pub proof fn lemma_grey_of_leading_rows<T>(rgba: Seq<T>, rgba_stride: int, width: int, height: int, alpha: T)
    requires
        plane_fits(rgba.len() as int, rgba_stride, 4 * width, height),
        grey(rgba.subrange(0, rgba_stride * height), rgba_stride, width, height, alpha),
    ensures
        grey(rgba, rgba_stride, width, height, alpha),
{
    let head = rgba.subrange(0, rgba_stride * height);
    assert forall|row: int, col: int| 0 <= row < height && 0 <= col < width implies {
        let pixel = #[trigger] pixel_at(rgba, rgba_stride, row, col);
        pixel.0 == pixel.1 && pixel.1 == pixel.2 && pixel.3 == alpha
    } by {
        lemma_row_inside(row, height, rgba_stride);
        assert(pixel_at(head, rgba_stride, row, col) == pixel_at(rgba, rgba_stride, row, col));
    }
}

/// As `lemma_grey_of_leading_rows`, with an alpha plane.
pub proof fn lemma_grey_with_alpha_of_leading_rows<T>(
    a: Seq<T>,
    a_stride: int,
    rgba: Seq<T>,
    rgba_stride: int,
    width: int,
    height: int,
)
    requires
        plane_fits(a.len() as int, a_stride, width, height),
        plane_fits(rgba.len() as int, rgba_stride, 4 * width, height),
        grey_with_alpha(
            a.subrange(0, a_stride * height),
            a_stride,
            rgba.subrange(0, rgba_stride * height),
            rgba_stride,
            width,
            height,
        ),
    ensures
        grey_with_alpha(a, a_stride, rgba, rgba_stride, width, height),
{
    let head = rgba.subrange(0, rgba_stride * height);
    assert forall|row: int, col: int| 0 <= row < height && 0 <= col < width implies {
        let pixel = #[trigger] pixel_at(rgba, rgba_stride, row, col);
        pixel.0 == pixel.1 && pixel.1 == pixel.2 && pixel.3 == a[row * a_stride + col]
    } by {
        lemma_row_inside(row, height, a_stride);
        lemma_row_inside(row, height, rgba_stride);
        assert(pixel_at(head, rgba_stride, row, col) == pixel_at(rgba, rgba_stride, row, col));
    }
}

/// A packed image whose leading rows are opaque is opaque.
pub proof fn lemma_opaque_of_leading_rows<T>(rgba: Seq<T>, rgba_stride: int, width: int, height: int, alpha: T)
    requires
        plane_fits(rgba.len() as int, rgba_stride, 4 * width, height),
        opaque(rgba.subrange(0, rgba_stride * height), rgba_stride, width, height, alpha),
    ensures
        opaque(rgba, rgba_stride, width, height, alpha),
{
    let head = rgba.subrange(0, rgba_stride * height);
    assert forall|row: int, col: int| 0 <= row < height && 0 <= col < width implies (#[trigger] pixel_at(
        rgba,
        rgba_stride,
        row,
        col,
    )).3 == alpha by {
        lemma_row_inside(row, height, rgba_stride);
        assert(pixel_at(head, rgba_stride, row, col) == pixel_at(rgba, rgba_stride, row, col));
    }
}

/// A packed image whose leading rows have their alpha from the leading rows
/// of an alpha plane has its alpha from the plane.
pub proof fn lemma_alpha_of_leading_rows<T>(
    a: Seq<T>,
    a_stride: int,
    rgba: Seq<T>,
    rgba_stride: int,
    width: int,
    height: int,
)
    requires
        plane_fits(a.len() as int, a_stride, width, height),
        plane_fits(rgba.len() as int, rgba_stride, 4 * width, height),
        alpha_from(
            a.subrange(0, a_stride * height),
            a_stride,
            rgba.subrange(0, rgba_stride * height),
            rgba_stride,
            width,
            height,
        ),
    ensures
        alpha_from(a, a_stride, rgba, rgba_stride, width, height),
{
    let head = rgba.subrange(0, rgba_stride * height);
    assert forall|row: int, col: int| 0 <= row < height && 0 <= col < width implies (#[trigger] pixel_at(
        rgba,
        rgba_stride,
        row,
        col,
    )).3 == a[row * a_stride + col] by {
        lemma_row_inside(row, height, a_stride);
        lemma_row_inside(row, height, rgba_stride);
        assert(pixel_at(head, rgba_stride, row, col) == pixel_at(rgba, rgba_stride, row, col));
    }
}

/// Planes whose leading rows hold the colours of the leading rows of a
/// packed image hold the colours of the image.
pub proof fn lemma_split_of_leading_rows<T>(
    y: Seq<T>,
    y_stride: int,
    u: Seq<T>,
    u_stride: int,
    v: Seq<T>,
    v_stride: int,
    rgba: Seq<T>,
    rgba_stride: int,
    width: int,
    height: int,
)
    requires
        plane_fits(y.len() as int, y_stride, width, height),
        plane_fits(u.len() as int, u_stride, width, height),
        plane_fits(v.len() as int, v_stride, width, height),
        plane_fits(rgba.len() as int, rgba_stride, 4 * width, height),
        split_from(
            y.subrange(0, y_stride * height),
            y_stride,
            u.subrange(0, u_stride * height),
            u_stride,
            v.subrange(0, v_stride * height),
            v_stride,
            rgba.subrange(0, rgba_stride * height),
            rgba_stride,
            width,
            height,
        ),
    ensures
        split_from(y, y_stride, u, u_stride, v, v_stride, rgba, rgba_stride, width, height),
{
    let head = rgba.subrange(0, rgba_stride * height);
    assert forall|row: int, col: int| 0 <= row < height && 0 <= col < width implies {
        &&& y[row * y_stride + col] == (#[trigger] pixel_at(rgba, rgba_stride, row, col)).1
        &&& u[row * u_stride + col] == pixel_at(rgba, rgba_stride, row, col).2
        &&& v[row * v_stride + col] == pixel_at(rgba, rgba_stride, row, col).0
    } by {
        lemma_row_inside(row, height, y_stride);
        lemma_row_inside(row, height, u_stride);
        lemma_row_inside(row, height, v_stride);
        lemma_row_inside(row, height, rgba_stride);
        assert(pixel_at(head, rgba_stride, row, col) == pixel_at(rgba, rgba_stride, row, col));
    }
}

/// A row of an image lies inside the rows of the image.
proof fn lemma_row_inside(row: int, rows: int, stride: int)
    requires
        0 <= row < rows,
        0 <= stride,
    ensures
        0 <= row * stride,
        row * stride + stride <= stride * rows,
{
    assert(row * stride + stride <= stride * rows) by (nonlinear_arith)
        requires
            0 <= row < rows,
            0 <= stride,
    ;
    assert(0 <= row * stride) by (nonlinear_arith)
        requires
            0 <= row,
            0 <= stride,
    ;
}

/// Decides whether a chroma plane fits its buffer, with the length and the
/// stride counted in bytes and a sample taking `unit` bytes.
pub fn check_chroma(len: usize, stride: u32, width: u32, height: u32, layout: YuvType, unit: u8) -> (ok:
    bool)
    requires
        unit == 1 || unit == 2,
    ensures
        ok == plane_fits(
            len as int,
            stride as int,
            unit * layout.chroma_width_of(width as int),
            layout.chroma_height_of(height as int),
        ),
{
    let w = layout.chroma_width(width);
    let h = layout.chroma_height(height);
    check_plane(len, stride, (unit as u64) * (w as u64), h)
}

/// Decides `planes_fit`.
pub fn check_planes(
    y_len: usize,
    y_stride: u32,
    u_len: usize,
    u_stride: u32,
    v_len: usize,
    v_stride: u32,
    width: u32,
    height: u32,
    layout: YuvType,
    unit: u8,
) -> (ok: bool)
    requires
        unit == 1 || unit == 2,
    ensures
        ok == planes_fit(
            y_len as int,
            y_stride as int,
            u_len as int,
            u_stride as int,
            v_len as int,
            v_stride as int,
            width as int,
            height as int,
            layout,
            unit as int,
        ),
{
    check_plane(y_len, y_stride, (unit as u64) * (width as u64), height) && check_chroma(
        u_len,
        u_stride,
        width,
        height,
        layout,
        unit,
    ) && check_chroma(v_len, v_stride, width, height, layout, unit)
}

/// Decides `packed_fits`, with `channels` counting the units of one pixel.
pub fn check_packed(len: usize, stride: u32, width: u32, height: u32, channels: u8) -> (ok: bool)
    ensures
        ok == packed_fits(len as int, stride as int, width as int, height as int, channels as int),
{
    assert(channels * width <= 0xff * 0xffff_ffff) by (nonlinear_arith)
        requires
            0 <= width <= 0xffff_ffff,
            0 <= channels <= 0xff,
    ;
    check_plane(len, stride, (channels as u64) * (width as u64), height)
}

} // verus!
