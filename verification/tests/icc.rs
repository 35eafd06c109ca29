use avifpixart::icc::{apply_icc_rgba16_impl, apply_icc_rgba8_impl, copy_rows};
use avifpixart::{
    apply_icc_rgba16, apply_icc_rgba8, new_adobe_rgb_profile, new_dci_p3_profile, straight_copy,
    ColorOutcome, PackedDepth, PixelError,
};

fn words_to_bytes(words: &[u16]) -> Vec<u8> {
    words.iter().flat_map(|w| w.to_ne_bytes()).collect()
}

fn place(payload: &[u8], even: bool) -> (Vec<u8>, usize) {
    let mut backing = vec![0u8; payload.len() + 1];
    let at = if (backing.as_ptr() as usize % 2 == 0) == even { 0 } else { 1 };
    backing[at..at + payload.len()].copy_from_slice(payload);
    (backing, at)
}

fn pattern(n: usize) -> Vec<u8> {
    (0..n).map(|k| (k * 37 + 11) as u8).collect()
}

#[test]
fn straight_copy_copies_pixels_and_skips_padding() {
    let src: Vec<u8> = (0u8..20).collect();
    let mut dst = vec![0xffu8; 27];
    straight_copy(10, 9, 2, &src, &mut dst, 1);
    let mut expected = vec![0xffu8; 27];
    expected[0..8].copy_from_slice(&src[0..8]);
    expected[9..17].copy_from_slice(&src[10..18]);
    assert_eq!(dst, expected);
}

#[test]
fn straight_copy_stops_at_the_shorter_buffer() {
    let src: Vec<u8> = (0u8..40).collect();
    let mut dst = vec![0u8; 17];
    straight_copy(8, 8, 1, &src, &mut dst, 2);
    let mut expected = vec![0u8; 17];
    expected[0..8].copy_from_slice(&src[0..8]);
    expected[8..16].copy_from_slice(&src[8..16]);
    assert_eq!(dst, expected);
}

#[test]
fn copy_rows_of_words() {
    let src: Vec<u16> = (0u16..12).collect();
    let mut dst = vec![99u16; 10];
    copy_rows(&src, 6, &mut dst, 5, 4, 2);
    assert_eq!(dst, vec![0, 1, 2, 3, 99, 6, 7, 8, 9, 99]);
}

#[test]
fn truncated_profile_passes_8_bit_pixels_through() {
    let src = pattern(4 * 4 * 3);
    let mut dst = vec![0u8; 4 * 4 * 3];
    for blob in [Vec::new(), vec![0u8; 1], vec![0x61u8; 127], pattern(64)] {
        dst.fill(0);
        let r = apply_icc_rgba8(&src, 16, &mut dst, 16, 4, 3, &blob);
        assert_eq!(r, Ok(ColorOutcome::PassedThrough));
        assert_eq!(dst, src);
    }
}

#[test]
fn corrupted_profile_passes_8_bit_pixels_through() {
    let mut blob = new_dci_p3_profile().data;
    assert!(blob.len() > 132);
    for b in blob.iter_mut().take(132) {
        *b = 0xff;
    }
    let src = pattern(64);
    let mut dst = vec![0u8; 64];
    assert_eq!(apply_icc_rgba8(&src, 16, &mut dst, 16, 4, 4, &blob), Ok(ColorOutcome::PassedThrough));
    assert_eq!(dst, src);
}

#[test]
fn pass_through_honours_both_strides() {
    let src = pattern(2 * 11);
    let mut dst = vec![0xeeu8; 2 * 9];
    assert_eq!(
        apply_icc_rgba8(&src, 11, &mut dst, 9, 2, 2, &[]),
        Ok(ColorOutcome::PassedThrough)
    );
    assert_eq!(&dst[0..8], &src[0..8]);
    assert_eq!(dst[8], 0xee);
    assert_eq!(&dst[9..17], &src[11..19]);
    assert_eq!(dst[17], 0xee);
}

#[test]
fn truncated_profile_passes_16_bit_pixels_through() {
    let payload = pattern(2 * 4 * 2 * 3);
    for even_source in [true, false] {
        for even_target in [true, false] {
            for depth in [10, 12, 16] {
                let (src, s_at) = place(&payload, even_source);
                let (mut dst, d_at) = place(&vec![0u8; payload.len()], even_target);
                let r = apply_icc_rgba16(
                    &src[s_at..s_at + payload.len()],
                    16,
                    &mut dst[d_at..d_at + payload.len()],
                    16,
                    depth,
                    2,
                    3,
                    &[1, 2, 3],
                );
                assert_eq!(r, Ok(ColorOutcome::PassedThrough));
                assert_eq!(&dst[d_at..d_at + payload.len()], &payload[..]);
            }
        }
    }
}

#[test]
fn a_depth_without_a_transform_is_refused() {
    let profile = new_dci_p3_profile().data;
    let src = pattern(32);
    let mut dst = vec![0u8; 32];
    for depth in [0, 8, 11, 14, 15, 17, 32] {
        assert_eq!(
            apply_icc_rgba16(&src, 16, &mut dst, 16, depth, 2, 2, &profile),
            Err(PixelError::UnsupportedCombination)
        );
        assert_eq!(
            apply_icc_rgba16(&src, 16, &mut dst, 16, depth, 2, 2, &[]),
            Err(PixelError::UnsupportedCombination)
        );
    }
    assert_eq!(dst, vec![0u8; 32]);
}

#[test]
fn a_profile_that_parses_transforms() {
    let profile = new_dci_p3_profile().data;
    let src: Vec<u8> = (0..4).flat_map(|_| [200u8, 40, 90, 255]).collect();
    let mut dst = vec![0u8; 16 + 2 * 3];
    let r = apply_icc_rgba8(&src, 8, &mut dst, 11, 2, 2, &profile);
    assert_eq!(r, Ok(ColorOutcome::Transformed));
    assert_ne!(&dst[0..3], &src[0..3]);
    assert_eq!(dst[3], 255);
    assert_eq!(&dst[8..11], &[0, 0, 0]);
    assert_eq!(&dst[19..22], &[0, 0, 0]);
    assert_eq!(&dst[0..8], &dst[11..19]);
}

#[test]
fn a_profile_that_parses_transforms_words_the_same_way_in_place_and_staged() {
    let profile = new_adobe_rgb_profile().data;
    let pixels: Vec<u16> = (0..6).flat_map(|_| [800u16, 100, 300, 1023]).collect();
    let payload = words_to_bytes(&pixels);
    let mut out = Vec::new();
    for even in [true, false] {
        let (src, s_at) = place(&payload, even);
        let (mut dst, d_at) = place(&vec![0u8; payload.len()], even);
        let r = apply_icc_rgba16(
            &src[s_at..s_at + payload.len()],
            24,
            &mut dst[d_at..d_at + payload.len()],
            24,
            10,
            3,
            2,
            &profile,
        );
        assert_eq!(r, Ok(ColorOutcome::Transformed));
        out.push(dst[d_at..d_at + payload.len()].to_vec());
    }
    assert_eq!(out[0], out[1]);
    assert_ne!(out[0], payload);
}

#[test]
fn icc_refuses_buffers_that_do_not_hold_the_image() {
    let src = pattern(64);
    let mut dst = vec![5u8; 64];
    assert_eq!(apply_icc_rgba8(&src, 15, &mut dst, 16, 4, 4, &[]), Err(PixelError::GeometryViolation));
    assert_eq!(apply_icc_rgba8(&src, 16, &mut dst, 16, 4, 5, &[]), Err(PixelError::GeometryViolation));
    assert_eq!(
        apply_icc_rgba16(&src, 16, &mut dst, 16, 10, 3, 2, &[]),
        Err(PixelError::GeometryViolation)
    );
    assert_eq!(dst, vec![5u8; 64]);
}

#[test]
fn icc_on_an_empty_image_touches_nothing() {
    let src = pattern(8);
    let mut dst = vec![5u8; 8];
    assert_eq!(apply_icc_rgba8(&src, 0, &mut dst, 0, 0, 9, &[]), Ok(ColorOutcome::PassedThrough));
    assert_eq!(apply_icc_rgba16(&src, 1, &mut dst, 1, 10, 4, 0, &[]), Ok(ColorOutcome::PassedThrough));
    assert_eq!(dst, vec![5u8; 8]);
}

#[test]
fn typed_transforms_with_a_built_in_profile() {
    let profile = moxcms::ColorProfile::new_bt2020();
    let src: Vec<u8> = (0..4).flat_map(|_| [200u8, 40, 90, 255]).collect();
    let mut dst = vec![0u8; 16];
    assert_eq!(
        apply_icc_rgba8_impl(&src, 8, &mut dst, 8, 2, 2, profile.clone()),
        Ok(ColorOutcome::Transformed)
    );
    assert_ne!(dst, src);
    let src: Vec<u16> = (0..4).flat_map(|_| [40000u16, 900, 12000, 65535]).collect();
    let mut dst = vec![0u16; 16];
    assert_eq!(
        apply_icc_rgba16_impl(&src, 8, &mut dst, 8, 2, 2, PackedDepth::Sixteen, &profile),
        Ok(ColorOutcome::Transformed)
    );
    assert_ne!(dst, src);
    assert_eq!(dst[3], 65535);
}

#[test]
fn encoded_profiles_are_well_formed() {
    for data in [new_dci_p3_profile(), new_adobe_rgb_profile()] {
        assert_eq!(data.size, data.data.len());
        assert!(data.capacity >= data.size);
        assert!(data.size >= 132);
        assert!(moxcms::ColorProfile::new_from_slice(&data.data).is_ok());
    }
    assert_ne!(new_dci_p3_profile().data, new_adobe_rgb_profile().data);
}

#[test]
fn wrapping_a_profile_is_what_the_two_constructors_do() {
    let p3 = avifpixart::icc::wrap_profile(avifpixart::BuiltinProfile::DciP3);
    let adobe = avifpixart::icc::wrap_profile(avifpixart::BuiltinProfile::AdobeRgb);
    assert_eq!(p3.size, p3.data.len());
    assert!(p3.size > 128 && p3.size <= p3.capacity);
    assert_eq!(adobe.size, adobe.data.len());
    assert!(adobe.size > 128 && adobe.size <= adobe.capacity);
    assert_eq!(p3.data.len(), new_dci_p3_profile().data.len());
    assert_eq!(adobe.data.len(), new_adobe_rgb_profile().data.len());
    assert_ne!(p3.data, adobe.data);
}
