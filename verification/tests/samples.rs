use avifpixart::planes::samples_fit;
use avifpixart::yuv_to_rgb::{stage_planar16, stage_yuv16_to_rgba_f16};
use avifpixart::{
    weave_yuv16_to_rgba16, weave_yuv16_with_alpha_to_rgba16, weave_yuv400_p16_to_rgba16,
    weave_yuv400_p16_with_alpha_to_rgba16, PixelError, YuvMatrix, YuvRange, YuvType,
};

const WIDTH: u32 = 19;
const HEIGHT: u32 = 3;

fn bytes_of(words: &[u16]) -> Vec<u8> {
    words.iter().flat_map(|w| w.to_ne_bytes()).collect()
}

fn chroma_size(layout: YuvType) -> (u32, u32) {
    match layout {
        YuvType::Yuv420 => (WIDTH.div_ceil(2), HEIGHT.div_ceil(2)),
        YuvType::Yuv422 => (WIDTH.div_ceil(2), HEIGHT),
        YuvType::Yuv444 => (WIDTH, HEIGHT),
    }
}

/// The three planes of an image of `WIDTH` by `HEIGHT` whose samples are all
/// `fill`, but for the sample at `at` of plane `plane`, which is `sample`.
fn planes(layout: YuvType, fill: u16, plane: usize, at: usize, sample: u16) -> [Vec<u16>; 3] {
    let (cw, ch) = chroma_size(layout);
    let mut all = [
        vec![fill; (WIDTH * HEIGHT) as usize],
        vec![fill; (cw * ch) as usize],
        vec![fill; (cw * ch) as usize],
    ];
    let len = all[plane].len();
    all[plane][at % len] = sample;
    all
}

fn decode(
    all: &[Vec<u16>; 3],
    layout: YuvType,
    bits: u32,
    range: YuvRange,
    matrix: YuvMatrix,
    rgba: &mut [u8],
) -> Result<(), PixelError> {
    let (cw, _) = chroma_size(layout);
    weave_yuv16_to_rgba16(
        &bytes_of(&all[0]), 2 * WIDTH,
        &bytes_of(&all[1]), 2 * cw,
        &bytes_of(&all[2]), 2 * cw,
        rgba, 8 * WIDTH, bits, WIDTH, HEIGHT, range, matrix, layout,
    )
}

fn decode_with_alpha(
    all: &[Vec<u16>; 3],
    alpha: &[u16],
    layout: YuvType,
    bits: u32,
    range: YuvRange,
    matrix: YuvMatrix,
    rgba: &mut [u8],
) -> Result<(), PixelError> {
    let (cw, _) = chroma_size(layout);
    weave_yuv16_with_alpha_to_rgba16(
        &bytes_of(&all[0]), 2 * WIDTH,
        &bytes_of(&all[1]), 2 * cw,
        &bytes_of(&all[2]), 2 * cw,
        &bytes_of(alpha), 2 * WIDTH,
        rgba, 8 * WIDTH, bits, WIDTH, HEIGHT, range, matrix, layout,
    )
}

/// The descriptors whose routines compute in 16 bits.
fn narrow() -> Vec<(YuvMatrix, YuvType)> {
    let mut all = vec![(YuvMatrix::Identity, YuvType::Yuv444)];
    for layout in [YuvType::Yuv420, YuvType::Yuv422, YuvType::Yuv444] {
        all.push((YuvMatrix::YCgCo, layout));
    }
    all
}

/// The descriptors of the Kr/Kb matrices, whose routines compute in 32 bits.
fn standard() -> Vec<(YuvMatrix, YuvType)> {
    let mut all = Vec::new();
    for matrix in [YuvMatrix::Bt601, YuvMatrix::Bt709, YuvMatrix::Bt2020] {
        for layout in [YuvType::Yuv420, YuvType::Yuv422, YuvType::Yuv444] {
            all.push((matrix, layout));
        }
    }
    all
}

fn descriptors() -> Vec<(YuvMatrix, YuvType)> {
    let mut all = narrow();
    all.extend(standard());
    all
}

fn top(bits: u32) -> u16 {
    ((1u32 << bits) - 1) as u16
}

#[test]
fn the_scan_accepts_samples_up_to_the_top_and_no_further() {
    assert!(samples_fit(&[], 1023));
    assert!(samples_fit(&[0, 1, 1022, 1023], 1023));
    assert!(!samples_fit(&[0, 1, 1024, 1023], 1023));
    assert!(!samples_fit(&[0x8000], 4095));
    assert!(!samples_fit(&[0, 0, 0, 0xffff], 4095));
    assert!(samples_fit(&[4095; 40], 4095));
    assert!(!samples_fit(&[4096], 4095));
    assert!(samples_fit(&[0xffff], 0xffff));
}

/// Whether the routine for the descriptor takes a bias off plane `plane`
/// in range `range`.
fn biased(matrix: YuvMatrix, range: YuvRange, plane: usize) -> bool {
    match matrix {
        YuvMatrix::Identity => range == YuvRange::Tv,
        YuvMatrix::YCgCo => plane != 0 || range == YuvRange::Tv,
        _ => false,
    }
}

#[test]
fn a_sample_is_refused_where_the_routine_cannot_take_it_and_nowhere_else() {
    for (matrix, layout) in descriptors() {
        for bits in [10u32, 12] {
            for range in [YuvRange::Tv, YuvRange::Pc] {
                for sample in [0x8000u16, 0xffff, 0x8000 + (1 << (bits - 4)) - 1, 0x8000 + (1 << (bits - 1)) - 1] {
                    for plane in 0..3 {
                        for at in [0usize, 7, 1000] {
                            let all = planes(layout, 512, plane, at, sample);
                            let mut rgba = vec![0x5au8; (8 * WIDTH * HEIGHT) as usize];
                            let r = decode(&all, layout, bits, range, matrix, &mut rgba);
                            if biased(matrix, range, plane) {
                                assert_eq!(
                                    r,
                                    Err(PixelError::SampleOutOfRange),
                                    "{matrix:?} {layout:?} {bits} {range:?} {sample:#x} in plane {plane}"
                                );
                                assert!(rgba.iter().all(|b| *b == 0x5a));
                            } else {
                                assert_eq!(
                                    r,
                                    Ok(()),
                                    "{matrix:?} {layout:?} {bits} {range:?} {sample:#x} in plane {plane}"
                                );
                            }
                            let opaque = vec![top(bits); (WIDTH * HEIGHT) as usize];
                            let with_alpha =
                                decode_with_alpha(&all, &opaque, layout, bits, range, matrix, &mut rgba);
                            assert_eq!(with_alpha, r);
                        }
                    }
                }
            }
        }
    }
}

#[test]
fn samples_above_the_depth_that_read_as_positive_are_converted() {
    for (matrix, layout) in descriptors() {
        for bits in [10u32, 12] {
            for range in [YuvRange::Tv, YuvRange::Pc] {
                for sample in [top(bits) + 1, 0x4000, 0x7fff] {
                    for plane in 0..3 {
                        let all = planes(layout, 512, plane, 11, sample);
                        let mut rgba = vec![0u8; (8 * WIDTH * HEIGHT) as usize];
                        assert_eq!(
                            decode(&all, layout, bits, range, matrix, &mut rgba),
                            Ok(()),
                            "{matrix:?} {layout:?} {bits} {range:?} {sample:#x} in plane {plane}"
                        );
                    }
                    let all = planes(layout, sample, 0, 0, sample);
                    let mut rgba = vec![0u8; (8 * WIDTH * HEIGHT) as usize];
                    assert_eq!(decode(&all, layout, bits, range, matrix, &mut rgba), Ok(()));
                }
            }
        }
    }
}

#[test]
fn the_alpha_plane_is_copied_whatever_it_holds() {
    for (matrix, layout) in descriptors() {
        for bits in [10u32, 12] {
            for range in [YuvRange::Tv, YuvRange::Pc] {
                let all = planes(layout, 512, 0, 0, 512);
                let alpha: Vec<u16> = (0..WIDTH * HEIGHT)
                    .map(|k| [0u16, 1, top(bits), top(bits) + 1, 0x7fff, 0x8000, 0xffff][k as usize % 7])
                    .collect();
                let mut rgba = vec![0u8; (8 * WIDTH * HEIGHT) as usize];
                assert_eq!(
                    decode_with_alpha(&all, &alpha, layout, bits, range, matrix, &mut rgba),
                    Ok(()),
                    "{matrix:?} {layout:?} {bits} {range:?}"
                );
                for (px, a) in rgba.chunks_exact(8).zip(&alpha) {
                    assert_eq!(u16::from_ne_bytes([px[6], px[7]]), *a);
                }
                let mut rgba = vec![0u8; (8 * WIDTH * HEIGHT) as usize];
                assert_eq!(decode(&all, layout, bits, range, matrix, &mut rgba), Ok(()));
                for px in rgba.chunks_exact(8) {
                    assert_eq!(u16::from_ne_bytes([px[6], px[7]]), top(bits));
                }
            }
        }
    }
}

#[test]
fn samples_at_the_ends_of_the_depth_are_converted_in_every_family_and_range() {
    for (matrix, layout) in descriptors() {
        for bits in [10u32, 12] {
            for range in [YuvRange::Tv, YuvRange::Pc] {
                for fill in [0u16, 1, top(bits) / 2, top(bits) - 1, top(bits)] {
                    for other in [0u16, top(bits)] {
                        for plane in 0..3 {
                            let all = planes(layout, fill, plane, 5, other);
                            let mut rgba = vec![0u8; (8 * WIDTH * HEIGHT) as usize];
                            assert_eq!(
                                decode(&all, layout, bits, range, matrix, &mut rgba),
                                Ok(()),
                                "{matrix:?} {layout:?} {bits} {range:?} {fill} {other}"
                            );
                        }
                    }
                }
            }
        }
    }
}

#[test]
fn a_luma_sample_is_refused_in_limited_range_only() {
    for matrix in [YuvMatrix::Bt601, YuvMatrix::Bt709, YuvMatrix::Bt2020] {
        for bits in [10u32, 12] {
            for range in [YuvRange::Tv, YuvRange::Pc] {
                for sample in [0x8000u16, 0xffff, 0x8000 + (1 << (bits - 4)) - 1] {
                    for at in [0usize, 20, 56] {
                        let mut luma = vec![300u16; (WIDTH * HEIGHT) as usize];
                        let opaque = vec![top(bits); (WIDTH * HEIGHT) as usize];
                        luma[at] = sample;
                        let mut rgba = vec![0x5au8; (8 * WIDTH * HEIGHT) as usize];
                        let expected = if range == YuvRange::Tv {
                            Err(PixelError::SampleOutOfRange)
                        } else {
                            Ok(())
                        };
                        assert_eq!(
                            weave_yuv400_p16_to_rgba16(
                                &bytes_of(&luma), 2 * WIDTH, &mut rgba, 8 * WIDTH, bits, WIDTH,
                                HEIGHT, range, matrix,
                            ),
                            expected
                        );
                        if expected.is_err() {
                            assert!(rgba.iter().all(|b| *b == 0x5a));
                        }
                        let mut rgba = vec![0x5au8; (8 * WIDTH * HEIGHT) as usize];
                        assert_eq!(
                            weave_yuv400_p16_with_alpha_to_rgba16(
                                &bytes_of(&luma), 2 * WIDTH, &bytes_of(&opaque), 2 * WIDTH,
                                &mut rgba, 8 * WIDTH, bits, WIDTH, HEIGHT, range, matrix,
                            ),
                            expected
                        );
                        if expected.is_err() {
                            assert!(rgba.iter().all(|b| *b == 0x5a));
                        }
                        // The same sample in the alpha plane is copied.
                        assert_eq!(
                            weave_yuv400_p16_with_alpha_to_rgba16(
                                &bytes_of(&opaque), 2 * WIDTH, &bytes_of(&luma), 2 * WIDTH,
                                &mut rgba, 8 * WIDTH, bits, WIDTH, HEIGHT, range, matrix,
                            ),
                            Ok(())
                        );
                        assert_eq!(
                            u16::from_ne_bytes([rgba[8 * at + 6], rgba[8 * at + 7]]),
                            sample
                        );
                    }
                }
            }
        }
    }
}

#[test]
fn luma_samples_give_grey_pixels() {
    for matrix in [YuvMatrix::Bt601, YuvMatrix::Bt709, YuvMatrix::Bt2020] {
        for bits in [10u32, 12] {
            for range in [YuvRange::Tv, YuvRange::Pc] {
                let mut luma = vec![0u16; (WIDTH * HEIGHT) as usize];
                let mut alpha = vec![0u16; (WIDTH * HEIGHT) as usize];
                for (i, (y, a)) in luma.iter_mut().zip(alpha.iter_mut()).enumerate() {
                    *y = ((i * 73) % (top(bits) as usize + 1)) as u16;
                    *a = ((i * 191) % (top(bits) as usize + 1)) as u16;
                }
                luma[0] = top(bits);
                luma[1] = 0;
                luma[2] = 0x7fff;
                let mut rgba = vec![0u8; (8 * WIDTH * HEIGHT) as usize];
                assert_eq!(
                    weave_yuv400_p16_to_rgba16(
                        &bytes_of(&luma), 2 * WIDTH, &mut rgba, 8 * WIDTH, bits, WIDTH, HEIGHT,
                        range, matrix,
                    ),
                    Ok(())
                );
                for (i, px) in rgba.chunks_exact(8).enumerate() {
                    let w: Vec<u16> =
                        px.chunks_exact(2).map(|p| u16::from_ne_bytes([p[0], p[1]])).collect();
                    assert!(w[0] == w[1] && w[1] == w[2]);
                    assert_eq!(w[3], top(bits));
                    if range == YuvRange::Pc {
                        assert_eq!(w[0], luma[i]);
                    }
                }
                assert_eq!(
                    weave_yuv400_p16_with_alpha_to_rgba16(
                        &bytes_of(&luma), 2 * WIDTH, &bytes_of(&alpha), 2 * WIDTH, &mut rgba,
                        8 * WIDTH, bits, WIDTH, HEIGHT, range, matrix,
                    ),
                    Ok(())
                );
                for (i, px) in rgba.chunks_exact(8).enumerate() {
                    let w: Vec<u16> =
                        px.chunks_exact(2).map(|p| u16::from_ne_bytes([p[0], p[1]])).collect();
                    assert!(w[0] == w[1] && w[1] == w[2]);
                    assert_eq!(w[3], alpha[i]);
                    if range == YuvRange::Pc {
                        assert_eq!(w[0], luma[i]);
                    }
                }
            }
        }
    }
}

#[test]
fn what_lies_in_the_padding_of_a_plane_is_no_sample() {
    // Two rows of three samples, eight bytes apart: the fourth word of each
    // row is padding and holds what no sample may.
    let luma = bytes_of(&[1023u16, 64, 512, 0xffff, 70, 80, 90, 0x8000]);
    let mut rgba = vec![0u8; 48];
    assert_eq!(
        weave_yuv400_p16_to_rgba16(&luma, 8, &mut rgba, 24, 10, 3, 2, YuvRange::Tv, YuvMatrix::Bt601),
        Ok(())
    );
    assert_eq!(
        weave_yuv400_p16_to_rgba16(&luma, 8, &mut rgba, 24, 10, 3, 2, YuvRange::Pc, YuvMatrix::Bt601),
        Ok(())
    );
    let words: Vec<u16> = rgba.chunks_exact(2).map(|p| u16::from_ne_bytes([p[0], p[1]])).collect();
    assert_eq!(&words[0..4], &[1023, 1023, 1023, 1023]);
    assert_eq!(&words[20..24], &[90, 90, 90, 1023]);
    assert_eq!(
        weave_yuv16_to_rgba16(
            &luma, 8, &luma, 8, &luma, 8, &mut rgba, 24, 10, 3, 2,
            YuvRange::Tv, YuvMatrix::YCgCo, YuvType::Yuv444,
        ),
        Ok(())
    );
}

#[test]
fn buffers_are_judged_before_samples() {
    let bad = bytes_of(&[0xffffu16; 4]);
    let mut short = vec![3u8; 31];
    assert_eq!(
        weave_yuv16_to_rgba16(
            &bad, 4, &bad, 4, &bad, 4, &mut short, 16, 10, 2, 2,
            YuvRange::Tv, YuvMatrix::Identity, YuvType::Yuv444,
        ),
        Err(PixelError::GeometryViolation)
    );
    assert_eq!(
        weave_yuv16_with_alpha_to_rgba16(
            &bad, 4, &bad, 4, &bad, 4, &bad[..7], 4, &mut [0u8; 32], 16, 10, 2, 2,
            YuvRange::Tv, YuvMatrix::YCgCo, YuvType::Yuv444,
        ),
        Err(PixelError::GeometryViolation)
    );
    assert_eq!(
        weave_yuv400_p16_to_rgba16(&bad, 4, &mut short, 16, 12, 2, 2, YuvRange::Tv, YuvMatrix::Bt709),
        Err(PixelError::GeometryViolation)
    );
    assert_eq!(
        weave_yuv400_p16_with_alpha_to_rgba16(
            &bad, 4, &bad[..6], 4, &mut [0u8; 32], 16, 12, 2, 2, YuvRange::Tv, YuvMatrix::Bt709
        ),
        Err(PixelError::GeometryViolation)
    );
    // A descriptor without a routine is refused before either.
    assert_eq!(
        weave_yuv16_to_rgba16(
            &bad, 4, &bad, 4, &bad, 4, &mut short, 16, 10, 2, 2,
            YuvRange::Tv, YuvMatrix::Identity, YuvType::Yuv420,
        ),
        Err(PixelError::UnsupportedCombination)
    );
    // An empty image has no samples.
    assert_eq!(
        weave_yuv16_to_rgba16(
            &bad, 4, &bad, 4, &bad, 4, &mut short, 16, 10, 0, 2,
            YuvRange::Tv, YuvMatrix::Identity, YuvType::Yuv444,
        ),
        Ok(())
    );
    assert_eq!(short, vec![3u8; 31]);
}

#[test]
fn staging_refuses_what_the_routine_cannot_take() {
    let good = bytes_of(&[1023u16; 4]);
    let bad = bytes_of(&[0u16, 0, 0x8000, 0]);
    let four = YuvType::Yuv444;
    for range in [YuvRange::Tv, YuvRange::Pc] {
        assert!(matches!(
            stage_planar16(&bad, 4, &bad, 4, &bad, 4, 10, 2, 2, range, YuvMatrix::Bt709, four, true),
            Ok(Some(_))
        ));
        assert!(matches!(
            stage_yuv16_to_rgba_f16(
                &good, 4, &bad, 4, &good, 4, 32, 16, 10, 2, 2, range, YuvMatrix::Bt2020, four
            ),
            Ok(Some(_))
        ));
        for matrix in [YuvMatrix::Identity, YuvMatrix::YCgCo] {
            assert!(matches!(
                stage_planar16(&good, 4, &good, 4, &good, 4, 10, 2, 2, range, matrix, four, false),
                Ok(Some(_))
            ));
            for plane in 0..3 {
                let all = [
                    if plane == 0 { &bad } else { &good },
                    if plane == 1 { &bad } else { &good },
                    if plane == 2 { &bad } else { &good },
                ];
                let staged = stage_planar16(
                    all[0], 4, all[1], 4, all[2], 4, 10, 2, 2, range, matrix, four, false,
                );
                let job = stage_yuv16_to_rgba_f16(
                    all[0], 4, all[1], 4, all[2], 4, 32, 16, 10, 2, 2, range, matrix, four,
                );
                if biased(matrix, range, plane) {
                    assert_eq!(staged.err(), Some(PixelError::SampleOutOfRange));
                    assert_eq!(job.err(), Some(PixelError::SampleOutOfRange));
                } else {
                    assert!(matches!(staged, Ok(Some(_))));
                    assert!(matches!(job, Ok(Some(_))));
                }
            }
            assert_eq!(
                stage_yuv16_to_rgba_f16(
                    &good, 4, &bad, 4, &good, 4, 31, 16, 10, 2, 2, YuvRange::Tv, matrix, four
                )
                .err(),
                Some(PixelError::GeometryViolation)
            );
        }
    }
}

#[test]
fn the_caller_answers_for_every_refusal_but_that_of_samples() {
    assert!(PixelError::UnsupportedCombination.blames_caller());
    assert!(PixelError::GeometryViolation.blames_caller());
    assert!(PixelError::KernelArithmeticFailure.blames_caller());
    assert!(!PixelError::SampleOutOfRange.blames_caller());
}
