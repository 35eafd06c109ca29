use avifpixart::tonemapper::{tonemap_or_leave16, tonemap_or_leave8};
use avifpixart::{
    apply_tone_mapping_rgba16, apply_tone_mapping_rgba8, weave_cvt_rgba16_to_ar30,
    weave_cvt_rgba8_to_ar30, weave_rgba8_to_y08, weave_rgba8_to_yuv8, weave_rgba_to_yuv,
    weave_rgba_to_yuv400, weave_scale_u16, weave_scale_u8, weave_yuv400_to_rgba8,
    weave_yuv400_with_alpha_to_rgba8, weave_yuv8_to_rgba8, weave_yuv8_with_alpha_to_rgba8,
    ColorOutcome, PixelError, ToneMapping, YuvMatrix, YuvRange, YuvType,
};
use gainforge::{
    ForgeError, GainHdrMetadata, GamutClipping, MappingColorSpace, RgbToneMapperParameters,
    ToneMappingMethod,
};
use moxcms::ColorProfile;

fn pattern(n: usize, step: usize) -> Vec<u8> {
    (0..n).map(|k| (k * step + 11) as u8).collect()
}

fn bytes_of(words: &[u16]) -> Vec<u8> {
    words.iter().flat_map(|w| w.to_ne_bytes()).collect()
}

fn place(payload: &[u8], even: bool) -> (Vec<u8>, usize) {
    let mut backing = vec![0u8; payload.len() + 1];
    let at = if (backing.as_ptr() as usize % 2 == 0) == even { 0 } else { 1 };
    backing[at..at + payload.len()].copy_from_slice(payload);
    (backing, at)
}

fn chroma_size(layout: YuvType, width: usize, height: usize) -> (usize, usize) {
    match layout {
        YuvType::Yuv420 => (width.div_ceil(2), height.div_ceil(2)),
        YuvType::Yuv422 => (width.div_ceil(2), height),
        YuvType::Yuv444 => (width, height),
    }
}

fn descriptors() -> Vec<(YuvMatrix, YuvType)> {
    let mut all = vec![(YuvMatrix::Identity, YuvType::Yuv444)];
    for matrix in [YuvMatrix::YCgCo, YuvMatrix::Bt601, YuvMatrix::Bt709, YuvMatrix::Bt2020] {
        for layout in [YuvType::Yuv420, YuvType::Yuv422, YuvType::Yuv444] {
            all.push((matrix, layout));
        }
    }
    all
}

/// Encodes with one of the two libraries into planes whose rows are the
/// given numbers of bytes apart, each plane filled with `fill` before.
fn encode(
    first: bool,
    rgba: &[u8],
    width: usize,
    height: usize,
    strides: (usize, usize, usize),
    range: YuvRange,
    matrix: YuvMatrix,
    layout: YuvType,
    fill: u8,
) -> (Vec<u8>, Vec<u8>, Vec<u8>) {
    let (_, ch) = chroma_size(layout, width, height);
    let mut y = vec![fill; strides.0 * height + 3];
    let mut u = vec![fill; strides.1 * ch + 3];
    let mut v = vec![fill; strides.2 * ch + 3];
    let r = if first {
        weave_rgba8_to_yuv8(
            &mut y, strides.0 as u32, &mut u, strides.1 as u32, &mut v, strides.2 as u32, rgba,
            4 * width as u32, width as u32, height as u32, range, matrix, layout,
        )
    } else {
        weave_rgba_to_yuv(
            rgba, 4 * width as u32, &mut y, strides.0 as u32, &mut u, strides.1 as u32, &mut v,
            strides.2 as u32, width as u32, height as u32, range, matrix, layout,
        )
    };
    assert_eq!(r, Ok(()));
    (y, u, v)
}

fn check_plane(padded: &[u8], stride: usize, packed: &[u8], row: usize, rows: usize, fill: u8) {
    for (j, byte) in padded.iter().enumerate() {
        if j < stride * rows && j % stride < row {
            assert_eq!(*byte, packed[(j / stride) * row + j % stride], "sample {j}");
        } else {
            assert_eq!(*byte, fill, "padding {j}");
        }
    }
}

#[test]
fn encoders_write_the_samples_and_keep_the_padding() {
    // Odd sizes, and rows long enough for the wide paths of the routines.
    for (width, height) in [(37usize, 5usize), (3, 3), (1, 1), (66, 2)] {
        let rgba = pattern(4 * width * height, 37);
        for (matrix, layout) in descriptors() {
            let (cw, ch) = chroma_size(layout, width, height);
            for range in [YuvRange::Tv, YuvRange::Pc] {
                for first in [true, false] {
                    let packed =
                        encode(first, &rgba, width, height, (width, cw, cw), range, matrix, layout, 0);
                    for strides in [(width + 5, cw + 1, cw + 9), (width, cw + 2, cw), (width + 1, cw, cw)] {
                        let padded =
                            encode(first, &rgba, width, height, strides, range, matrix, layout, 0xa5);
                        check_plane(&padded.0, strides.0, &packed.0, width, height, 0xa5);
                        check_plane(&padded.1, strides.1, &packed.1, cw, ch, 0xa5);
                        check_plane(&padded.2, strides.2, &packed.2, cw, ch, 0xa5);
                    }
                }
            }
        }
    }
}

#[test]
fn the_identity_encoder_splits_pixels_into_padded_planes() {
    let (width, height) = (21usize, 4usize);
    let rgba = pattern(4 * width * height, 29);
    for first in [true, false] {
        let (g, b, r) = encode(
            first, &rgba, width, height, (width + 3, width + 1, width + 2), YuvRange::Pc,
            YuvMatrix::Identity, YuvType::Yuv444, 0x11,
        );
        for row in 0..height {
            for col in 0..width {
                let px = &rgba[4 * (row * width + col)..];
                assert_eq!(g[row * (width + 3) + col], px[1]);
                assert_eq!(b[row * (width + 1) + col], px[2]);
                assert_eq!(r[row * (width + 2) + col], px[0]);
            }
            assert_eq!(&g[row * (width + 3) + width..(row + 1) * (width + 3)], &[0x11; 3]);
        }
    }
}

#[test]
fn luma_encoders_write_the_samples_and_keep_the_padding() {
    for (width, height) in [(37usize, 5usize), (2, 3), (1, 1)] {
        let rgba = pattern(4 * width * height, 41);
        for matrix in [YuvMatrix::Bt601, YuvMatrix::Bt709, YuvMatrix::Bt2020] {
            for range in [YuvRange::Tv, YuvRange::Pc] {
                for first in [true, false] {
                    let run = |plane: &mut [u8], stride: usize| {
                        if first {
                            weave_rgba8_to_y08(
                                plane, stride as u32, &rgba, 4 * width as u32, width as u32,
                                height as u32, range, matrix,
                            )
                        } else {
                            weave_rgba_to_yuv400(
                                &rgba, 4 * width as u32, plane, stride as u32, width as u32,
                                height as u32, range, matrix,
                            )
                        }
                    };
                    let mut packed = vec![0u8; width * height];
                    assert_eq!(run(&mut packed, width), Ok(()));
                    let stride = width + 7;
                    let mut padded = vec![0x3cu8; stride * height + 2];
                    assert_eq!(run(&mut padded, stride), Ok(()));
                    check_plane(&padded, stride, &packed, width, height, 0x3c);
                }
            }
        }
    }
}

fn ar30(red: u32, green: u32, blue: u32, alpha: u32) -> [u8; 4] {
    ((alpha << 30) | (blue << 20) | (green << 10) | red).to_ne_bytes()
}

#[test]
fn every_8_bit_pixel_packs_to_its_word() {
    let (width, height) = (67usize, 3usize);
    let rgba = pattern(4 * width * height + 5, 7);
    let stride = 4 * width + 1;
    let mut packed = vec![0x77u8; (4 * width + 6) * height + 1];
    assert_eq!(
        weave_cvt_rgba8_to_ar30(
            &rgba, stride as u32, &mut packed, 4 * width as u32 + 6, width as u32, height as u32
        ),
        Ok(())
    );
    for row in 0..height {
        for col in 0..width {
            let px = &rgba[row * stride + 4 * col..];
            let wide = |c: u8| (257 * c as u32) >> 6;
            let at = row * (4 * width + 6) + 4 * col;
            assert_eq!(
                &packed[at..at + 4],
                &ar30(wide(px[0]), wide(px[1]), wide(px[2]), px[3] as u32 >> 6)
            );
        }
        let end = row * (4 * width + 6) + 4 * width;
        assert_eq!(&packed[end..end + 6], &[0x77; 6]);
    }
    // Single values, written out.
    let mut one = [0u8; 4];
    assert_eq!(weave_cvt_rgba8_to_ar30(&[255, 0, 128, 64], 4, &mut one, 4, 1, 1), Ok(()));
    assert_eq!(u32::from_ne_bytes(one), (1 << 30) | (514 << 20) | 1023);
    assert_eq!(weave_cvt_rgba8_to_ar30(&[1, 2, 3, 191], 4, &mut one, 4, 1, 1), Ok(()));
    assert_eq!(u32::from_ne_bytes(one), (2 << 30) | (12 << 20) | (8 << 10) | 4);
}

#[test]
fn every_wide_pixel_within_the_depth_packs_to_its_word() {
    let (width, height) = (35usize, 2usize);
    for (bits, top) in [(10usize, 1023usize), (12, 4095)] {
        let words: Vec<u16> =
            (0..4 * width * height).map(|k| ((k * 97 + 3) % (top + 1)) as u16).collect();
        for even in [true, false] {
            let (source, at) = place(&bytes_of(&words), even);
            let mut packed = vec![0x77u8; (4 * width + 2) * height];
            assert_eq!(
                weave_cvt_rgba16_to_ar30(
                    &source[at..at + 8 * width * height], 8 * width as u32, bits, &mut packed,
                    4 * width as u32 + 2, width as u32, height as u32,
                ),
                Ok(())
            );
            for row in 0..height {
                for col in 0..width {
                    let px = &words[4 * (row * width + col)..];
                    let at = row * (4 * width + 2) + 4 * col;
                    assert_eq!(
                        &packed[at..at + 4],
                        &ar30(
                            px[0] as u32 >> (bits - 10),
                            px[1] as u32 >> (bits - 10),
                            px[2] as u32 >> (bits - 10),
                            px[3] as u32 >> (bits - 2),
                        )
                    );
                }
                let end = row * (4 * width + 2) + 4 * width;
                assert_eq!(&packed[end..end + 2], &[0x77; 2]);
            }
        }
    }
    let mut one = [0u8; 4];
    assert_eq!(
        weave_cvt_rgba16_to_ar30(&bytes_of(&[1023, 1, 512, 600]), 8, 10, &mut one, 4, 1, 1),
        Ok(())
    );
    assert_eq!(u32::from_ne_bytes(one), (2 << 30) | (512 << 20) | (1 << 10) | 1023);
    assert_eq!(
        weave_cvt_rgba16_to_ar30(&bytes_of(&[4095, 7, 2048, 1024]), 8, 12, &mut one, 4, 1, 1),
        Ok(())
    );
    assert_eq!(u32::from_ne_bytes(one), (1 << 30) | (512 << 20) | (1 << 10) | 1023);
}

#[test]
fn samples_above_the_depth_pack_without_failing() {
    let mut packed = vec![0u8; 8];
    for bits in [10usize, 12] {
        assert_eq!(
            weave_cvt_rgba16_to_ar30(&bytes_of(&[0xffff, 0x8000, 0xffff, 0xffff, 1, 2, 3, 4]), 16, bits, &mut packed, 8, 2, 1),
            Ok(())
        );
    }
}

#[test]
fn a_full_range_luma_plane_is_copied_to_grey_pixels() {
    let (width, height) = (71usize, 3usize);
    let luma = pattern((width + 2) * height, 13);
    let alpha = pattern((width + 5) * height, 31);
    for matrix in [YuvMatrix::Bt601, YuvMatrix::Bt709, YuvMatrix::Bt2020] {
        let stride = 4 * width + 3;
        let mut rgba = vec![0xeeu8; stride * height + 1];
        assert_eq!(
            weave_yuv400_to_rgba8(
                &luma, width as u32 + 2, &mut rgba, stride as u32, width as u32, height as u32,
                YuvRange::Pc, matrix,
            ),
            Ok(())
        );
        for row in 0..height {
            for col in 0..width {
                let y = luma[row * (width + 2) + col];
                assert_eq!(&rgba[row * stride + 4 * col..row * stride + 4 * col + 4], &[y, y, y, 255]);
            }
        }
        assert_eq!(rgba[stride * height], 0xee);
        assert_eq!(
            weave_yuv400_with_alpha_to_rgba8(
                &luma, width as u32 + 2, &alpha, width as u32 + 5, &mut rgba, stride as u32,
                width as u32, height as u32, YuvRange::Pc, matrix,
            ),
            Ok(())
        );
        for row in 0..height {
            for col in 0..width {
                let y = luma[row * (width + 2) + col];
                let a = alpha[row * (width + 5) + col];
                assert_eq!(&rgba[row * stride + 4 * col..row * stride + 4 * col + 4], &[y, y, y, a]);
            }
        }
        assert_eq!(rgba[stride * height], 0xee);
    }
}

#[test]
fn a_limited_range_luma_plane_gives_grey_pixels_with_its_alpha() {
    let (width, height) = (71usize, 3usize);
    let luma = pattern(width * height, 13);
    let alpha = pattern(width * height, 31);
    for matrix in [YuvMatrix::Bt601, YuvMatrix::Bt709, YuvMatrix::Bt2020] {
        let mut rgba = vec![0u8; 4 * width * height];
        assert_eq!(
            weave_yuv400_to_rgba8(
                &luma, width as u32, &mut rgba, 4 * width as u32, width as u32, height as u32,
                YuvRange::Tv, matrix,
            ),
            Ok(())
        );
        for px in rgba.chunks_exact(4) {
            assert!(px[0] == px[1] && px[1] == px[2] && px[3] == 255);
        }
        assert_eq!(
            weave_yuv400_with_alpha_to_rgba8(
                &luma, width as u32, &alpha, width as u32, &mut rgba, 4 * width as u32,
                width as u32, height as u32, YuvRange::Tv, matrix,
            ),
            Ok(())
        );
        for (px, a) in rgba.chunks_exact(4).zip(&alpha) {
            assert!(px[0] == px[1] && px[1] == px[2]);
            assert_eq!(px[3], *a);
        }
    }
}

#[test]
fn scaling_to_the_own_size_succeeds_with_every_filter() {
    let (width, height) = (9usize, 4usize);
    let src = pattern(4 * width * height + 3 * height, 23);
    for method in [0u32, 1, 2, 3, 4, 77, u32::MAX] {
        for premultiply in [false, true] {
            let mut dst = vec![0u8; (4 * width + 1) * height];
            assert_eq!(
                weave_scale_u8(
                    &src, 4 * width as u32 + 3, width as u32, height as u32, &mut dst,
                    4 * width as u32 + 1, width as u32, height as u32, method, premultiply,
                ),
                Ok(())
            );
            for row in 0..height {
                assert_eq!(
                    &dst[row * (4 * width + 1)..row * (4 * width + 1) + 4 * width],
                    &src[row * (4 * width + 3)..row * (4 * width + 3) + 4 * width]
                );
            }
            for depth in [10u32, 12, 16] {
                let words: Vec<u16> = (0..4 * width * height)
                    .map(|k| ((k * 131 + 9) % (1usize << depth)) as u16)
                    .collect();
                let source = bytes_of(&words);
                let mut target = vec![0u8; 8 * width * height];
                assert_eq!(
                    weave_scale_u16(
                        &source, 8 * width, width as u32, height as u32, &mut target,
                        width as u32, height as u32, depth as usize, method, premultiply,
                    ),
                    Ok(())
                );
                assert_eq!(target, source);
            }
        }
    }
}

fn method() -> ToneMappingMethod {
    ToneMappingMethod::Rec2408(GainHdrMetadata {
        display_max_brightness: 203f32,
        content_max_brightness: 1000f32,
    })
}

fn space() -> MappingColorSpace {
    MappingColorSpace::Rgb(RgbToneMapperParameters {
        gamut_clipping: GamutClipping::Clip,
        exposure: 1.0,
    })
}

#[test]
fn an_image_without_a_tone_mapper_is_left_as_it_was() {
    let before = pattern(2 * 19 + 1, 19);
    for error in [ForgeError::InvalidTrcCurve, ForgeError::InvalidIcc, ForgeError::UnknownError] {
        let mut image = before.clone();
        assert_eq!(
            tonemap_or_leave8(Err(error), &mut image, 19, 4, 2),
            Ok(ColorOutcome::PassedThrough)
        );
        assert_eq!(image, before);
    }
    for even in [true, false] {
        let (mut image, at) = place(&before, even);
        assert_eq!(
            tonemap_or_leave16(Err(ForgeError::InvalidTrcCurve), &mut image[at..at + 39], 19, 2, 2),
            Ok(ColorOutcome::PassedThrough)
        );
        assert_eq!(&image[at..at + 39], &before[..]);
    }
}

#[test]
fn content_that_no_tone_mapper_can_be_built_for_passes_through() {
    // A profile without a transfer function: the engine cannot linearise it.
    let before = pattern(2 * 35, 19);
    let mut image = before.clone();
    assert_eq!(
        apply_tone_mapping_rgba8(
            &mut image, 35, 8, 2, ColorProfile::default(), ToneMapping::Rec2408, method(),
            space(),
        ),
        Ok(ColorOutcome::PassedThrough)
    );
    assert_eq!(image, before);
    for depth in [10u32, 12, 16] {
        for even in [true, false] {
            let (mut image, at) = place(&before, even);
            assert_eq!(
                apply_tone_mapping_rgba16(
                    &mut image[at..at + 70], 35, depth, 4, 2, &ColorProfile::default(),
                    ToneMapping::Rec2408, method(), space(),
                ),
                Ok(ColorOutcome::PassedThrough)
            );
            assert_eq!(&image[at..at + 70], &before[..]);
        }
    }
}

#[test]
fn refusals_come_before_any_byte_is_written() {
    let rgba = pattern(64, 3);
    let mut y = vec![1u8; 16];
    let mut u = vec![2u8; 16];
    let mut v = vec![3u8; 16];
    assert_eq!(
        weave_rgba_to_yuv(
            &rgba, 16, &mut y, 5, &mut u, 4, &mut v, 4, 4, 4, YuvRange::Pc, YuvMatrix::Bt601,
            YuvType::Yuv444,
        ),
        Err(PixelError::GeometryViolation)
    );
    assert_eq!(
        weave_rgba8_to_yuv8(
            &mut y, 4, &mut u, 4, &mut v, 4, &rgba, 16, 4, 4, YuvRange::Pc, YuvMatrix::Identity,
            YuvType::Yuv422,
        ),
        Err(PixelError::UnsupportedCombination)
    );
    assert_eq!((y, u, v), (vec![1u8; 16], vec![2u8; 16], vec![3u8; 16]));
}

#[test]
fn decoders_write_the_pixels_and_keep_the_padding() {
    for (width, height) in [(37usize, 5usize), (3, 3), (1, 1), (66, 2)] {
        let luma = pattern(width * height, 17);
        let alpha = pattern(width * height, 59);
        for (matrix, layout) in descriptors() {
            let (cw, ch) = chroma_size(layout, width, height);
            let u = pattern(cw * ch, 5);
            let v = pattern(cw * ch, 43);
            for range in [YuvRange::Tv, YuvRange::Pc] {
                for with_alpha in [false, true] {
                    let run = |rgba: &mut [u8], stride: usize| {
                        if with_alpha {
                            weave_yuv8_with_alpha_to_rgba8(
                                &luma, width as u32, &u, cw as u32, &v, cw as u32, &alpha,
                                width as u32, rgba, stride as u32, width as u32, height as u32,
                                range, matrix, layout,
                            )
                        } else {
                            weave_yuv8_to_rgba8(
                                &luma, width as u32, &u, cw as u32, &v, cw as u32, rgba,
                                stride as u32, width as u32, height as u32, range, matrix, layout,
                            )
                        }
                    };
                    let mut packed = vec![0u8; 4 * width * height];
                    assert_eq!(run(&mut packed, 4 * width), Ok(()));
                    for stride in [4 * width + 1, 4 * width + 64] {
                        let mut padded = vec![0xc3u8; stride * height + 5];
                        assert_eq!(run(&mut padded, stride), Ok(()));
                        check_plane(&padded, stride, &packed, 4 * width, height, 0xc3);
                    }
                }
            }
        }
    }
}

#[test]
fn luma_decoders_write_the_pixels_and_keep_the_padding() {
    let (width, height) = (37usize, 3usize);
    let luma = pattern(width * height, 17);
    let alpha = pattern(width * height, 59);
    for matrix in [YuvMatrix::Bt601, YuvMatrix::Bt709, YuvMatrix::Bt2020] {
        for range in [YuvRange::Tv, YuvRange::Pc] {
            for with_alpha in [false, true] {
                let run = |rgba: &mut [u8], stride: usize| {
                    if with_alpha {
                        weave_yuv400_with_alpha_to_rgba8(
                            &luma, width as u32, &alpha, width as u32, rgba, stride as u32,
                            width as u32, height as u32, range, matrix,
                        )
                    } else {
                        weave_yuv400_to_rgba8(
                            &luma, width as u32, rgba, stride as u32, width as u32,
                            height as u32, range, matrix,
                        )
                    }
                };
                let mut packed = vec![0u8; 4 * width * height];
                assert_eq!(run(&mut packed, 4 * width), Ok(()));
                let stride = 4 * width + 9;
                let mut padded = vec![0xc3u8; stride * height + 5];
                assert_eq!(run(&mut padded, stride), Ok(()));
                check_plane(&padded, stride, &packed, 4 * width, height, 0xc3);
            }
        }
    }
}

#[test]
fn scaling_reads_and_writes_pixels_only() {
    let (width, height) = (6usize, 4usize);
    let pixels = pattern(4 * width * height, 67);
    let src_stride = 4 * width + 5;
    let mut padded_source = vec![0xffu8; src_stride * height];
    for row in 0..height {
        padded_source[row * src_stride..row * src_stride + 4 * width]
            .copy_from_slice(&pixels[row * 4 * width..(row + 1) * 4 * width]);
    }
    for (new_width, new_height) in [(3usize, 2usize), (6, 2), (3, 4), (12, 8), (6, 4)] {
        for method in [1u32, 0, 3] {
            let mut packed = vec![0u8; 4 * new_width * new_height];
            assert_eq!(
                weave_scale_u8(
                    &pixels, 4 * width as u32, width as u32, height as u32, &mut packed,
                    4 * new_width as u32, new_width as u32, new_height as u32, method, false,
                ),
                Ok(())
            );
            let dst_stride = 4 * new_width + 3;
            let mut padded = vec![0x99u8; dst_stride * new_height + 2];
            assert_eq!(
                weave_scale_u8(
                    &padded_source, src_stride as u32, width as u32, height as u32, &mut padded,
                    dst_stride as u32, new_width as u32, new_height as u32, method, false,
                ),
                Ok(())
            );
            check_plane(&padded, dst_stride, &packed, 4 * new_width, new_height, 0x99);
        }
    }
}

#[test]
fn decoders_store_an_opaque_alpha_or_that_of_the_alpha_plane() {
    for (width, height) in [(37usize, 3usize), (2, 2), (66, 1), (1, 1), (35, 5)] {
        for pad in [0usize, 3] {
            let (ys, as_) = (width + pad, width + 2 * pad);
            let luma = pattern(ys * height, 17);
            let alpha = pattern(as_ * height, 59);
            for (matrix, layout) in descriptors() {
                let (cw, ch) = chroma_size(layout, width, height);
                let cs = cw + pad;
                let u = pattern(cs * ch, 5);
                let v = pattern(cs * ch, 43);
                for range in [YuvRange::Tv, YuvRange::Pc] {
                    for stride in [4 * width, 4 * width + 6] {
                        let mut rgba = vec![0x31u8; stride * height];
                        assert_eq!(
                            weave_yuv8_with_alpha_to_rgba8(
                                &luma, ys as u32, &u, cs as u32, &v, cs as u32, &alpha, as_ as u32,
                                &mut rgba, stride as u32, width as u32, height as u32, range,
                                matrix, layout,
                            ),
                            Ok(())
                        );
                        for row in 0..height {
                            for col in 0..width {
                                assert_eq!(
                                    rgba[row * stride + 4 * col + 3],
                                    alpha[row * as_ + col],
                                    "{matrix:?} {layout:?} {range:?} {width}x{height} {row} {col}"
                                );
                            }
                        }
                        if matrix == YuvMatrix::YCgCo {
                            continue;
                        }
                        let mut rgba = vec![0x31u8; stride * height];
                        assert_eq!(
                            weave_yuv8_to_rgba8(
                                &luma, ys as u32, &u, cs as u32, &v, cs as u32, &mut rgba,
                                stride as u32, width as u32, height as u32, range, matrix, layout,
                            ),
                            Ok(())
                        );
                        for row in 0..height {
                            for col in 0..width {
                                assert_eq!(rgba[row * stride + 4 * col + 3], 255);
                            }
                        }
                    }
                }
            }
        }
    }
}

#[test]
fn the_working_space_of_tone_mapping_goes_by_the_depth() {
    assert_eq!(avifpixart::ToneSpace::for_bits(8), avifpixart::ToneSpace::RgbClipped);
    assert_eq!(avifpixart::ToneSpace::for_bits(10), avifpixart::ToneSpace::Rgb);
    assert_eq!(avifpixart::ToneSpace::for_bits(12), avifpixart::ToneSpace::Rgb);
    assert_eq!(avifpixart::ToneSpace::for_bits(16), avifpixart::ToneSpace::YRgb);
    assert_eq!(avifpixart::ToneSpace::for_bits(14), avifpixart::ToneSpace::YRgb);
}

#[test]
fn a_mapper_that_builds_maps_the_image() {
    let mut profile = ColorProfile::new_bt2020();
    profile.cicp = Some(moxcms::CicpProfile {
        full_range: true,
        color_primaries: moxcms::CicpColorPrimaries::Bt2020,
        transfer_characteristics: moxcms::TransferCharacteristics::Smpte2084,
        matrix_coefficients: moxcms::MatrixCoefficients::Bt2020Ncl,
    });
    let before = pattern(4 * 5 * 3, 19);
    for mapping in [ToneMapping::Rec2408, ToneMapping::Skip] {
        let mut image = before.clone();
        assert_eq!(
            apply_tone_mapping_rgba8(&mut image, 20, 5, 3, profile.clone(), mapping, method(), space()),
            Ok(ColorOutcome::Transformed)
        );
        assert_ne!(image, before);
        for depth in [10u32, 12, 16] {
            let words: Vec<u16> =
                (0..4 * 5 * 3).map(|k| ((k * 211 + 7) % (1usize << depth)) as u16).collect();
            for even in [true, false] {
                let (mut image, at) = place(&bytes_of(&words), even);
                assert_eq!(
                    apply_tone_mapping_rgba16(
                        &mut image[at..at + 120], 40, depth, 5, 3, &profile, mapping, method(),
                        space(),
                    ),
                    Ok(ColorOutcome::Transformed)
                );
                assert_ne!(&image[at..at + 120], &bytes_of(&words)[..]);
            }
        }
    }
}

#[test]
fn a_mapper_takes_every_sample() {
    let mut profile = ColorProfile::new_bt2020();
    profile.cicp = Some(moxcms::CicpProfile {
        full_range: true,
        color_primaries: moxcms::CicpColorPrimaries::Bt2020,
        transfer_characteristics: moxcms::TransferCharacteristics::Smpte2084,
        matrix_coefficients: moxcms::MatrixCoefficients::Bt2020Ncl,
    });
    let words: Vec<u16> = (0..4 * 8 * 2).map(|k| (k * 1031 + 0x7ff0) as u16).collect();
    for depth in [10u32, 12, 16] {
        let mut image = bytes_of(&words);
        assert_eq!(
            apply_tone_mapping_rgba16(
                &mut image, 64, depth, 8, 2, &profile, ToneMapping::Rec2408, method(), space(),
            ),
            Ok(ColorOutcome::Transformed)
        );
    }
}
