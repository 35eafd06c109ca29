use avifpixart::{
    weave_rgba8_to_yuv8, weave_rgba_to_yuv, weave_yuv16_to_rgba16,
    weave_yuv16_with_alpha_to_rgba16, weave_yuv400_p16_to_rgba16,
    weave_yuv400_p16_with_alpha_to_rgba16, weave_yuv8_to_rgba8, weave_yuv8_with_alpha_to_rgba8,
    YuvMatrix, YuvRange, YuvType,
};

const MATRICES: [YuvMatrix; 5] = [
    YuvMatrix::Bt601,
    YuvMatrix::Bt709,
    YuvMatrix::Bt2020,
    YuvMatrix::Identity,
    YuvMatrix::YCgCo,
];
const LAYOUTS: [YuvType; 3] = [YuvType::Yuv420, YuvType::Yuv422, YuvType::Yuv444];
const RANGES: [YuvRange; 2] = [YuvRange::Tv, YuvRange::Pc];
const SIZES: [(u32, u32); 4] = [(1, 1), (2, 2), (5, 3), (17, 9)];

fn served(matrix: YuvMatrix, layout: YuvType) -> bool {
    matrix != YuvMatrix::Identity || layout == YuvType::Yuv444
}

fn words_to_bytes(words: &[u16]) -> Vec<u8> {
    words.iter().flat_map(|w| w.to_ne_bytes()).collect()
}

#[test]
fn every_8_bit_decoder_runs() {
    for matrix in MATRICES {
        for layout in LAYOUTS {
            for range in RANGES {
                for (w, h) in SIZES {
                    if !served(matrix, layout) {
                        continue;
                    }
                    let cw = layout.chroma_width(w);
                    let ch = layout.chroma_height(h);
                    let y = vec![120u8; (w * h) as usize];
                    let c = vec![128u8; (cw * ch) as usize];
                    let a = vec![200u8; (w * h) as usize];
                    let mut rgba = vec![0u8; (4 * w * h) as usize];
                    assert_eq!(
                        weave_yuv8_to_rgba8(
                            &y, w, &c, cw, &c, cw, &mut rgba, 4 * w, w, h, range, matrix, layout
                        ),
                        Ok(())
                    );
                    assert!(rgba.chunks_exact(4).all(|px| px[3] == 255));
                    assert_eq!(
                        weave_yuv8_with_alpha_to_rgba8(
                            &y, w, &c, cw, &c, cw, &a, w, &mut rgba, 4 * w, w, h, range, matrix,
                            layout
                        ),
                        Ok(())
                    );
                    assert!(rgba.chunks_exact(4).all(|px| px[3] == 200));
                }
            }
        }
    }
}

#[test]
fn every_wide_decoder_runs() {
    for matrix in MATRICES {
        for layout in LAYOUTS {
            for range in RANGES {
                for (w, h) in SIZES {
                    for (depth, top) in [(10u32, 1023u16), (12, 4095)] {
                        if !served(matrix, layout) {
                            continue;
                        }
                        let cw = layout.chroma_width(w);
                        let ch = layout.chroma_height(h);
                        let y = words_to_bytes(&vec![top / 2; (w * h) as usize]);
                        let c = words_to_bytes(&vec![top / 2 + 1; (cw * ch) as usize]);
                        let a = words_to_bytes(&vec![top / 4; (w * h) as usize]);
                        let mut rgba = vec![0u8; (8 * w * h) as usize];
                        assert_eq!(
                            weave_yuv16_to_rgba16(
                                &y, 2 * w, &c, 2 * cw, &c, 2 * cw, &mut rgba, 8 * w, depth, w, h,
                                range, matrix, layout
                            ),
                            Ok(())
                        );
                        assert!(rgba
                            .chunks_exact(8)
                            .all(|px| u16::from_ne_bytes([px[6], px[7]]) == top));
                        assert_eq!(
                            weave_yuv16_with_alpha_to_rgba16(
                                &y, 2 * w, &c, 2 * cw, &c, 2 * cw, &a, 2 * w, &mut rgba, 8 * w,
                                depth, w, h, range, matrix, layout
                            ),
                            Ok(())
                        );
                        assert!(rgba
                            .chunks_exact(8)
                            .all(|px| u16::from_ne_bytes([px[6], px[7]]) == top / 4));
                    }
                }
            }
        }
    }
}

#[test]
fn every_wide_luma_decoder_runs() {
    for matrix in [YuvMatrix::Bt601, YuvMatrix::Bt709, YuvMatrix::Bt2020] {
        for range in RANGES {
            for (w, h) in SIZES {
                for (depth, top) in [(10u32, 1023u16), (12, 4095)] {
                    let y = words_to_bytes(&vec![top / 2; (w * h) as usize]);
                    let a = words_to_bytes(&vec![top / 4; (w * h) as usize]);
                    let mut rgba = vec![0u8; (8 * w * h) as usize];
                    assert_eq!(
                        weave_yuv400_p16_to_rgba16(
                            &y, 2 * w, &mut rgba, 8 * w, depth, w, h, range, matrix
                        ),
                        Ok(())
                    );
                    assert_eq!(
                        weave_yuv400_p16_with_alpha_to_rgba16(
                            &y, 2 * w, &a, 2 * w, &mut rgba, 8 * w, depth, w, h, range, matrix
                        ),
                        Ok(())
                    );
                    assert!(rgba
                        .chunks_exact(8)
                        .all(|px| u16::from_ne_bytes([px[6], px[7]]) == top / 4));
                }
            }
        }
    }
}

#[test]
fn every_encoder_runs() {
    for matrix in MATRICES {
        for layout in LAYOUTS {
            for range in RANGES {
                for (w, h) in SIZES {
                    if !served(matrix, layout) {
                        continue;
                    }
                    let cw = layout.chroma_width(w);
                    let ch = layout.chroma_height(h);
                    let rgba = vec![128u8; (4 * w * h) as usize];
                    let mut y = vec![0u8; (w * h) as usize];
                    let mut u = vec![0u8; (cw * ch) as usize];
                    let mut v = vec![0u8; (cw * ch) as usize];
                    assert_eq!(
                        weave_rgba8_to_yuv8(
                            &mut y, w, &mut u, cw, &mut v, cw, &rgba, 4 * w, w, h, range, matrix,
                            layout
                        ),
                        Ok(())
                    );
                    let first = y[0];
                    assert!(y.iter().all(|&s| s == first));
                    assert_eq!(
                        weave_rgba_to_yuv(
                            &rgba, 4 * w, &mut y, w, &mut u, cw, &mut v, cw, w, h, range, matrix,
                            layout
                        ),
                        Ok(())
                    );
                    assert!(y.iter().all(|&s| s.abs_diff(first) <= 1));
                }
            }
        }
    }
}

const COPY_SIZES: [(u32, u32); 5] = [(1, 1), (5, 3), (17, 9), (40, 3), (67, 2)];

fn ramp8(n: usize, seed: usize) -> Vec<u8> {
    (0..n).map(|k| (k * 7 + seed * 31 + 3) as u8).collect()
}

fn ramp16(n: usize, seed: usize, top: u16) -> Vec<u16> {
    (0..n).map(|k| ((k * 13 + seed * 101 + 5) % (top as usize + 1)) as u16).collect()
}

#[test]
fn full_range_identity_decodes_to_the_planes_swapped() {
    for (w, h) in COPY_SIZES {
        let n = (w * h) as usize;
        let (g, b, r, a) = (ramp8(n, 1), ramp8(n, 2), ramp8(n, 3), ramp8(n, 4));
        let mut rgba = vec![0u8; 4 * n];
        assert_eq!(
            weave_yuv8_to_rgba8(
                &g, w, &b, w, &r, w, &mut rgba, 4 * w, w, h, YuvRange::Pc, YuvMatrix::Identity,
                YuvType::Yuv444
            ),
            Ok(())
        );
        for (k, px) in rgba.chunks_exact(4).enumerate() {
            assert_eq!(px, &[r[k], g[k], b[k], 255]);
        }
        assert_eq!(
            weave_yuv8_with_alpha_to_rgba8(
                &g, w, &b, w, &r, w, &a, w, &mut rgba, 4 * w, w, h, YuvRange::Pc,
                YuvMatrix::Identity, YuvType::Yuv444
            ),
            Ok(())
        );
        for (k, px) in rgba.chunks_exact(4).enumerate() {
            assert_eq!(px, &[r[k], g[k], b[k], a[k]]);
        }
        for (depth, top) in [(10u32, 1023u16), (12, 4095)] {
            let (g, b, r, a) =
                (ramp16(n, 1, top), ramp16(n, 2, top), ramp16(n, 3, top), ramp16(n, 4, top));
            let mut rgba = vec![0u8; 8 * n];
            assert_eq!(
                weave_yuv16_to_rgba16(
                    &words_to_bytes(&g), 2 * w, &words_to_bytes(&b), 2 * w, &words_to_bytes(&r),
                    2 * w, &mut rgba, 8 * w, depth, w, h, YuvRange::Pc, YuvMatrix::Identity,
                    YuvType::Yuv444
                ),
                Ok(())
            );
            for (k, px) in rgba.chunks_exact(8).enumerate() {
                assert_eq!(px, &words_to_bytes(&[r[k], g[k], b[k], top])[..]);
            }
            assert_eq!(
                weave_yuv16_with_alpha_to_rgba16(
                    &words_to_bytes(&g), 2 * w, &words_to_bytes(&b), 2 * w, &words_to_bytes(&r),
                    2 * w, &words_to_bytes(&a), 2 * w, &mut rgba, 8 * w, depth, w, h,
                    YuvRange::Pc, YuvMatrix::Identity, YuvType::Yuv444
                ),
                Ok(())
            );
            for (k, px) in rgba.chunks_exact(8).enumerate() {
                assert_eq!(px, &words_to_bytes(&[r[k], g[k], b[k], a[k]])[..]);
            }
        }
    }
}

#[test]
fn full_range_wide_luma_decodes_to_grey() {
    for (w, h) in COPY_SIZES {
        let n = (w * h) as usize;
        for (depth, top) in [(10u32, 1023u16), (12, 4095)] {
            let (y, a) = (ramp16(n, 5, top), ramp16(n, 6, top));
            let mut rgba = vec![0u8; 8 * n];
            for matrix in [YuvMatrix::Bt601, YuvMatrix::Bt2020] {
                assert_eq!(
                    weave_yuv400_p16_to_rgba16(
                        &words_to_bytes(&y), 2 * w, &mut rgba, 8 * w, depth, w, h, YuvRange::Pc,
                        matrix
                    ),
                    Ok(())
                );
                for (k, px) in rgba.chunks_exact(8).enumerate() {
                    assert_eq!(px, &words_to_bytes(&[y[k], y[k], y[k], top])[..]);
                }
                assert_eq!(
                    weave_yuv400_p16_with_alpha_to_rgba16(
                        &words_to_bytes(&y), 2 * w, &words_to_bytes(&a), 2 * w, &mut rgba, 8 * w,
                        depth, w, h, YuvRange::Pc, matrix
                    ),
                    Ok(())
                );
                for (k, px) in rgba.chunks_exact(8).enumerate() {
                    assert_eq!(px, &words_to_bytes(&[y[k], y[k], y[k], a[k]])[..]);
                }
            }
        }
    }
}

#[test]
fn full_range_identity_encodes_to_the_colours_split() {
    for (w, h) in COPY_SIZES {
        let n = (w * h) as usize;
        let rgba = ramp8(4 * n, 7);
        let mut g = vec![0u8; n];
        let mut b = vec![0u8; n];
        let mut r = vec![0u8; n];
        assert_eq!(
            weave_rgba8_to_yuv8(
                &mut g, w, &mut b, w, &mut r, w, &rgba, 4 * w, w, h, YuvRange::Pc,
                YuvMatrix::Identity, YuvType::Yuv444
            ),
            Ok(())
        );
        for (k, px) in rgba.chunks_exact(4).enumerate() {
            assert_eq!((r[k], g[k], b[k]), (px[0], px[1], px[2]));
        }
        let mut g = vec![0u8; n];
        let mut b = vec![0u8; n];
        let mut r = vec![0u8; n];
        assert_eq!(
            weave_rgba_to_yuv(
                &rgba, 4 * w, &mut g, w, &mut b, w, &mut r, w, w, h, YuvRange::Pc,
                YuvMatrix::Identity, YuvType::Yuv444
            ),
            Ok(())
        );
        for (k, px) in rgba.chunks_exact(4).enumerate() {
            assert_eq!((r[k], g[k], b[k]), (px[0], px[1], px[2]));
        }
    }
}
