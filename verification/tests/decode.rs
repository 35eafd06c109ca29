use avifpixart::dispatch::{run_planar16, run_planar8};
use avifpixart::planes::Planar;
use avifpixart::yuv_to_rgb::{stage_yuv16_to_rgba_f16, HalfRoutine};
use avifpixart::{
    weave_yuv16_to_rgba16, weave_yuv16_with_alpha_to_rgba16, weave_yuv400_p16_to_rgba16,
    weave_yuv400_p16_with_alpha_to_rgba16, weave_yuv400_to_rgba8,
    weave_yuv400_with_alpha_to_rgba8, weave_yuv8_to_rgba8, weave_yuv8_with_alpha_to_rgba8,
    Kernel, KernelFamily, PixelError, SampleDepth, StandardMatrix, YuvMatrix, YuvRange, YuvType,
};

fn words_to_bytes(words: &[u16]) -> Vec<u8> {
    words.iter().flat_map(|w| w.to_ne_bytes()).collect()
}

fn bytes_to_words(bytes: &[u8]) -> Vec<u16> {
    bytes.chunks_exact(2).map(|p| u16::from_ne_bytes([p[0], p[1]])).collect()
}

/// A copy of `payload` that starts at an even (`even`) or odd address
/// inside the returned backing store, with the offset of its first byte.
fn place(payload: &[u8], even: bool) -> (Vec<u8>, usize) {
    let mut backing = vec![0u8; payload.len() + 1];
    let at = if (backing.as_ptr() as usize % 2 == 0) == even { 0 } else { 1 };
    backing[at..at + payload.len()].copy_from_slice(payload);
    (backing, at)
}

#[test]
fn white_limited_bt709_444_decodes_to_white() {
    let y = vec![235u8; 16];
    let u = vec![128u8; 16];
    let v = vec![128u8; 16];
    let mut rgba = vec![0u8; 64];
    let r = weave_yuv8_to_rgba8(
        &y, 4, &u, 4, &v, 4, &mut rgba, 16, 4, 4,
        YuvRange::Tv, YuvMatrix::Bt709, YuvType::Yuv444,
    );
    assert_eq!(r, Ok(()));
    assert_eq!(rgba, vec![255u8; 64]);
}

#[test]
fn black_limited_420_decodes_to_black_with_opaque_alpha() {
    let y = vec![16u8; 5 * 3];
    let u = vec![128u8; 3 * 2];
    let v = vec![128u8; 3 * 2];
    let mut rgba = vec![7u8; 5 * 4 * 3];
    let r = weave_yuv8_to_rgba8(
        &y, 5, &u, 3, &v, 3, &mut rgba, 20, 5, 3,
        YuvRange::Tv, YuvMatrix::Bt601, YuvType::Yuv420,
    );
    assert_eq!(r, Ok(()));
    for px in rgba.chunks_exact(4) {
        assert_eq!(px, &[0, 0, 0, 255]);
    }
}

#[test]
fn identity_matrix_swaps_planes() {
    let g = vec![10u8; 4];
    let b = vec![20u8; 4];
    let r_plane = vec![30u8; 4];
    let mut rgba = vec![0u8; 16];
    let r = weave_yuv8_to_rgba8(
        &g, 2, &b, 2, &r_plane, 2, &mut rgba, 8, 2, 2,
        YuvRange::Pc, YuvMatrix::Identity, YuvType::Yuv444,
    );
    assert_eq!(r, Ok(()));
    for px in rgba.chunks_exact(4) {
        assert_eq!(px, &[30, 10, 20, 255]);
    }
}

#[test]
fn identity_on_subsampled_layout_is_refused_everywhere() {
    let plane = vec![1u8; 64];
    for layout in [YuvType::Yuv420, YuvType::Yuv422] {
        let mut rgba = vec![9u8; 128];
        let r = weave_yuv8_to_rgba8(
            &plane, 4, &plane, 4, &plane, 4, &mut rgba, 16, 4, 4,
            YuvRange::Pc, YuvMatrix::Identity, layout,
        );
        assert_eq!(r, Err(PixelError::UnsupportedCombination));
        assert_eq!(rgba, vec![9u8; 128]);
        let r = weave_yuv8_with_alpha_to_rgba8(
            &plane, 4, &plane, 4, &plane, 4, &plane, 4, &mut rgba, 16, 4, 4,
            YuvRange::Pc, YuvMatrix::Identity, layout,
        );
        assert_eq!(r, Err(PixelError::UnsupportedCombination));
        assert_eq!(rgba, vec![9u8; 128]);
        let r = weave_yuv16_to_rgba16(
            &plane, 8, &plane, 8, &plane, 8, &mut rgba, 32, 10, 4, 4,
            YuvRange::Pc, YuvMatrix::Identity, layout,
        );
        assert_eq!(r, Err(PixelError::UnsupportedCombination));
        assert_eq!(rgba, vec![9u8; 128]);
        let r = weave_yuv16_with_alpha_to_rgba16(
            &plane, 8, &plane, 8, &plane, 8, &plane, 8, &mut rgba, 32, 12, 4, 4,
            YuvRange::Pc, YuvMatrix::Identity, layout,
        );
        assert_eq!(r, Err(PixelError::UnsupportedCombination));
        assert_eq!(rgba, vec![9u8; 128]);
    }
}

#[test]
fn luma_only_conversions_know_no_identity_and_no_ycgco() {
    let y = vec![100u8; 64];
    for matrix in [YuvMatrix::Identity, YuvMatrix::YCgCo] {
        let mut rgba = vec![3u8; 128];
        assert_eq!(
            weave_yuv400_to_rgba8(&y, 4, &mut rgba, 16, 4, 4, YuvRange::Pc, matrix),
            Err(PixelError::UnsupportedCombination)
        );
        assert_eq!(
            weave_yuv400_with_alpha_to_rgba8(&y, 4, &y, 4, &mut rgba, 16, 4, 4, YuvRange::Pc, matrix),
            Err(PixelError::UnsupportedCombination)
        );
        assert_eq!(
            weave_yuv400_p16_to_rgba16(&y, 8, &mut rgba, 32, 10, 4, 4, YuvRange::Pc, matrix),
            Err(PixelError::UnsupportedCombination)
        );
        assert_eq!(
            weave_yuv400_p16_with_alpha_to_rgba16(
                &y, 8, &y, 8, &mut rgba, 32, 10, 4, 4, YuvRange::Pc, matrix
            ),
            Err(PixelError::UnsupportedCombination)
        );
        assert_eq!(rgba, vec![3u8; 128]);
    }
}

#[test]
fn wide_conversions_serve_ten_and_twelve_bits_only() {
    let plane = vec![0u8; 64];
    let mut rgba = vec![5u8; 128];
    for depth in [0, 8, 14, 16] {
        assert_eq!(
            weave_yuv16_to_rgba16(
                &plane, 8, &plane, 8, &plane, 8, &mut rgba, 32, depth, 4, 4,
                YuvRange::Tv, YuvMatrix::Bt709, YuvType::Yuv444,
            ),
            Err(PixelError::UnsupportedCombination)
        );
        assert_eq!(
            weave_yuv400_p16_to_rgba16(
                &plane, 8, &mut rgba, 32, depth, 4, 4, YuvRange::Tv, YuvMatrix::Bt709
            ),
            Err(PixelError::UnsupportedCombination)
        );
    }
    assert_eq!(rgba, vec![5u8; 128]);
}

#[test]
fn empty_image_is_accepted_and_left_alone() {
    let none: Vec<u8> = Vec::new();
    let mut rgba = vec![1u8; 8];
    assert_eq!(
        weave_yuv8_to_rgba8(
            &none, 0, &none, 0, &none, 0, &mut rgba, 0, 0, 4,
            YuvRange::Tv, YuvMatrix::Bt709, YuvType::Yuv420,
        ),
        Ok(())
    );
    assert_eq!(
        weave_yuv16_to_rgba16(
            &none, 0, &none, 0, &none, 0, &mut rgba, 0, 10, 4, 0,
            YuvRange::Tv, YuvMatrix::Bt709, YuvType::Yuv420,
        ),
        Ok(())
    );
    assert_eq!(rgba, vec![1u8; 8]);
}

#[test]
fn short_buffers_are_refused_before_anything_is_written() {
    let y = vec![235u8; 16];
    let u = vec![128u8; 16];
    let v = vec![128u8; 15];
    let mut rgba = vec![4u8; 64];
    assert_eq!(
        weave_yuv8_to_rgba8(
            &y, 4, &u, 4, &v, 4, &mut rgba, 16, 4, 4,
            YuvRange::Tv, YuvMatrix::Bt709, YuvType::Yuv444,
        ),
        Err(PixelError::GeometryViolation)
    );
    let mut short = vec![4u8; 63];
    assert_eq!(
        weave_yuv8_to_rgba8(
            &y, 4, &u, 4, &u, 4, &mut short, 16, 4, 4,
            YuvRange::Tv, YuvMatrix::Bt709, YuvType::Yuv444,
        ),
        Err(PixelError::GeometryViolation)
    );
    assert_eq!(
        weave_yuv8_to_rgba8(
            &y, 4, &u, 4, &u, 4, &mut rgba, 15, 4, 4,
            YuvRange::Tv, YuvMatrix::Bt709, YuvType::Yuv444,
        ),
        Err(PixelError::GeometryViolation)
    );
    assert_eq!(rgba, vec![4u8; 64]);
    assert_eq!(short, vec![4u8; 63]);
}

#[test]
fn luma_plane_expands_to_grey() {
    let y = vec![235u8; 6];
    let mut rgba = vec![0u8; 24];
    assert_eq!(
        weave_yuv400_to_rgba8(&y, 3, &mut rgba, 12, 3, 2, YuvRange::Tv, YuvMatrix::Bt601),
        Ok(())
    );
    assert_eq!(rgba, vec![255u8; 24]);
    let y = vec![0u8; 6];
    let a = vec![77u8; 6];
    assert_eq!(
        weave_yuv400_with_alpha_to_rgba8(
            &y, 3, &a, 3, &mut rgba, 12, 3, 2, YuvRange::Pc, YuvMatrix::Bt709
        ),
        Ok(())
    );
    for px in rgba.chunks_exact(4) {
        assert_eq!(px, &[0, 0, 0, 77]);
    }
}

#[test]
fn alpha_plane_is_carried_over() {
    let y = vec![235u8; 4];
    let c = vec![128u8; 4];
    let a = vec![9u8, 99, 199, 255];
    let mut rgba = vec![0u8; 16];
    assert_eq!(
        weave_yuv8_with_alpha_to_rgba8(
            &y, 2, &c, 2, &c, 2, &a, 2, &mut rgba, 8, 2, 2,
            YuvRange::Tv, YuvMatrix::Bt709, YuvType::Yuv444,
        ),
        Ok(())
    );
    assert_eq!(
        rgba,
        vec![255, 255, 255, 9, 255, 255, 255, 99, 255, 255, 255, 199, 255, 255, 255, 255]
    );
}

/// Decodes a 3x2 10-bit limited-range white 4:2:0 image whose planes and
/// destination each start at an address of the given parity; the
/// destination rows are `rgba_stride` bytes apart. Returns the destination.
fn decode_wide_white(even_source: bool, even_target: bool, rgba_stride: usize) -> Vec<u8> {
    let (y, y_at) = place(&words_to_bytes(&[940u16; 6]), even_source);
    let (u, u_at) = place(&words_to_bytes(&[512u16; 2]), even_source);
    let (v, v_at) = place(&words_to_bytes(&[512u16; 2]), even_source);
    let (mut rgba, at) = place(&vec![0xabu8; rgba_stride * 2], even_target);
    let r = weave_yuv16_to_rgba16(
        &y[y_at..y_at + 12], 6,
        &u[u_at..u_at + 4], 4,
        &v[v_at..v_at + 4], 4,
        &mut rgba[at..at + rgba_stride * 2], rgba_stride as u32,
        10, 3, 2,
        YuvRange::Tv, YuvMatrix::Bt2020, YuvType::Yuv420,
    );
    assert_eq!(r, Ok(()));
    rgba[at..at + rgba_stride * 2].to_vec()
}

#[test]
fn wide_decode_is_the_same_in_place_and_staged() {
    let direct = decode_wide_white(true, true, 24);
    let staged_target = decode_wide_white(true, false, 24);
    let staged_source = decode_wide_white(false, true, 24);
    let staged_both = decode_wide_white(false, false, 24);
    assert_eq!(bytes_to_words(&direct), vec![1023u16; 24]);
    assert_eq!(direct, staged_target);
    assert_eq!(direct, staged_source);
    assert_eq!(direct, staged_both);
}

#[test]
fn wide_decode_keeps_the_padding_of_the_destination() {
    let padded = decode_wide_white(true, true, 29);
    assert_eq!(bytes_to_words(&padded[0..24]), vec![1023u16; 12]);
    assert_eq!(&padded[24..29], &[0xab; 5]);
    assert_eq!(bytes_to_words(&padded[29..53]), vec![1023u16; 12]);
    assert_eq!(&padded[53..58], &[0xab; 5]);
}

#[test]
fn wide_luma_expands_to_grey() {
    let y = words_to_bytes(&[4095u16; 4]);
    let a = words_to_bytes(&[100u16, 200, 300, 4095]);
    let mut rgba = vec![0u8; 32];
    assert_eq!(
        weave_yuv400_p16_to_rgba16(&y, 4, &mut rgba, 16, 12, 2, 2, YuvRange::Pc, YuvMatrix::Bt709),
        Ok(())
    );
    assert_eq!(bytes_to_words(&rgba), vec![4095u16; 16]);
    assert_eq!(
        weave_yuv400_p16_with_alpha_to_rgba16(
            &y, 4, &a, 4, &mut rgba, 16, 12, 2, 2, YuvRange::Pc, YuvMatrix::Bt709
        ),
        Ok(())
    );
    let words = bytes_to_words(&rgba);
    assert_eq!(
        words,
        vec![4095, 4095, 4095, 100, 4095, 4095, 4095, 200, 4095, 4095, 4095, 300, 4095, 4095, 4095, 4095]
    );
}

#[test]
fn wide_planes_with_alpha_decode() {
    let g = words_to_bytes(&[100u16; 4]);
    let b = words_to_bytes(&[200u16; 4]);
    let r_plane = words_to_bytes(&[300u16; 4]);
    let a = words_to_bytes(&[1023u16; 4]);
    let mut rgba = vec![0u8; 32];
    assert_eq!(
        weave_yuv16_with_alpha_to_rgba16(
            &g, 4, &b, 4, &r_plane, 4, &a, 4, &mut rgba, 16, 10, 2, 2,
            YuvRange::Pc, YuvMatrix::Identity, YuvType::Yuv444,
        ),
        Ok(())
    );
    for px in bytes_to_words(&rgba).chunks_exact(4) {
        assert_eq!(px, &[300, 100, 200, 1023]);
    }
}

#[test]
fn nothing_behind_the_image_is_read_or_written() {
    let y = vec![235u8; 3 * 2];
    let c = vec![128u8; 3 * 2];
    let mut rgba = vec![0x5au8; 3 * 8 + 5];
    assert_eq!(
        weave_yuv8_to_rgba8(
            &y, 2, &c, 2, &c, 2, &mut rgba, 8, 2, 2,
            YuvRange::Tv, YuvMatrix::Bt709, YuvType::Yuv444,
        ),
        Ok(())
    );
    assert_eq!(&rgba[0..16], &[255u8; 16]);
    assert_eq!(&rgba[16..], &[0x5au8; 13]);
    let mut rgba = vec![0x5au8; 3 * 8 + 5];
    assert_eq!(
        weave_yuv400_to_rgba8(&y, 2, &mut rgba, 8, 2, 2, YuvRange::Tv, YuvMatrix::Bt709),
        Ok(())
    );
    assert_eq!(&rgba[0..16], &[255u8; 16]);
    assert_eq!(&rgba[16..], &[0x5au8; 13]);
}

#[test]
fn half_float_conversion_is_staged_and_named() {
    let y = words_to_bytes(&[940u16; 6]);
    let c = words_to_bytes(&[512u16; 2]);
    let (staged, routine) = stage_yuv16_to_rgba_f16(
        &y, 6, &c, 4, &c, 4, 48, 24, 10, 3, 2, YuvRange::Tv, YuvMatrix::Bt709, YuvType::Yuv420,
    )
    .unwrap()
    .unwrap();
    assert_eq!(
        routine,
        HalfRoutine::Yuv(YuvType::Yuv420, SampleDepth::Ten, StandardMatrix::Bt709)
    );
    assert_eq!(staged.y.borrow(), &[940u16; 6]);
    assert_eq!(staged.u.borrow(), &[512u16; 2]);
    assert_eq!((staged.chroma_width, staged.chroma_height), (2, 1));

    let planes = words_to_bytes(&[100u16; 4]);
    let (_, routine) = stage_yuv16_to_rgba_f16(
        &planes, 4, &planes, 4, &planes, 4, 32, 16, 12, 2, 2, YuvRange::Tv, YuvMatrix::Identity,
        YuvType::Yuv444,
    )
    .unwrap()
    .unwrap();
    assert_eq!(routine, HalfRoutine::Gbr(SampleDepth::Twelve));

    let (staged, routine) = stage_yuv16_to_rgba_f16(
        &planes, 4, &planes, 2, &planes, 2, 32, 16, 10, 2, 2, YuvRange::Tv, YuvMatrix::YCgCo, YuvType::Yuv422,
    )
    .unwrap()
    .unwrap();
    let kernel = Kernel {
        family: KernelFamily::YCgCo,
        layout: YuvType::Yuv422,
        depth: SampleDepth::Ten,
        alpha: false,
    };
    assert_eq!(routine, HalfRoutine::ViaIntegers(kernel));
    let image = Planar {
        y: staged.y.borrow(),
        y_stride: 2,
        u: staged.u.borrow(),
        u_stride: 1,
        v: staged.v.borrow(),
        v_stride: 1,
        width: 2,
        height: 2,
    };
    let mut integers = vec![0u16; 16];
    assert_eq!(run_planar16(kernel, &image, &mut integers, 8, YuvRange::Pc), Ok(()));
    assert!(integers.chunks_exact(4).all(|px| px[3] == 1023));

    assert!(matches!(
        stage_yuv16_to_rgba_f16(
            &planes, 4, &planes, 4, &planes, 4, 32, 16, 10, 0, 2, YuvRange::Tv, YuvMatrix::Bt601,
            YuvType::Yuv444
        ),
        Ok(None)
    ));
    assert_eq!(
        stage_yuv16_to_rgba_f16(
            &planes, 4, &planes, 4, &planes, 4, 31, 16, 10, 2, 2, YuvRange::Tv, YuvMatrix::Bt601,
            YuvType::Yuv444
        )
        .err(),
        Some(PixelError::GeometryViolation)
    );
    assert_eq!(
        stage_yuv16_to_rgba_f16(
            &planes, 4, &planes, 2, &planes, 2, 32, 16, 10, 2, 2, YuvRange::Tv, YuvMatrix::Identity,
            YuvType::Yuv422
        )
        .err(),
        Some(PixelError::UnsupportedCombination)
    );
    assert_eq!(
        stage_yuv16_to_rgba_f16(
            &planes, 4, &planes, 4, &planes, 4, 32, 16, 16, 2, 2, YuvRange::Tv, YuvMatrix::Bt601,
            YuvType::Yuv444
        )
        .err(),
        Some(PixelError::UnsupportedCombination)
    );
}

#[test]
fn a_failure_of_the_routine_is_reported_as_such() {
    // The entry points never hand a routine an image it refuses; handing it
    // one directly shows how its refusal is reported.
    let kernel = Kernel {
        family: KernelFamily::Standard(StandardMatrix::Bt601),
        layout: YuvType::Yuv444,
        depth: SampleDepth::Eight,
        alpha: false,
    };
    let plane = vec![0u8; 4];
    let image = Planar {
        y: &plane,
        y_stride: 2,
        u: &plane,
        u_stride: 2,
        v: &plane,
        v_stride: 2,
        width: 2,
        height: 2,
    };
    let mut short = vec![7u8; 15];
    assert_eq!(
        run_planar8(kernel, &image, &mut short, 8, YuvRange::Pc),
        Err(PixelError::KernelArithmeticFailure)
    );
    assert_eq!(short, vec![7u8; 15]);
}
