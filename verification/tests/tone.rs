use avifpixart::{
    apply_tone_mapping_rgba16, apply_tone_mapping_rgba8, ColorOutcome, FfiTrc, PixelError,
    ToneMapping,
};
use gainforge::{
    CommonToneMapperParameters, GainHdrMetadata, GamutClipping, MappingColorSpace,
    RgbToneMapperParameters, ToneMappingMethod,
};
use moxcms::{
    CicpColorPrimaries, CicpProfile, ColorProfile, MatrixCoefficients, TransferCharacteristics,
};

fn words_to_bytes(words: &[u16]) -> Vec<u8> {
    words.iter().flat_map(|w| w.to_ne_bytes()).collect()
}

fn place(payload: &[u8], even: bool) -> (Vec<u8>, usize) {
    let mut backing = vec![0u8; payload.len() + 1];
    let at = if (backing.as_ptr() as usize % 2 == 0) == even { 0 } else { 1 };
    backing[at..at + payload.len()].copy_from_slice(payload);
    (backing, at)
}

fn pq_profile() -> ColorProfile {
    let mut profile = ColorProfile::new_bt2020();
    profile.cicp = Some(CicpProfile {
        full_range: true,
        color_primaries: CicpColorPrimaries::Bt2020,
        transfer_characteristics: TransferCharacteristics::Smpte2084,
        matrix_coefficients: MatrixCoefficients::Bt2020Ncl,
    });
    profile
}

fn method() -> ToneMappingMethod {
    ToneMappingMethod::Rec2408(GainHdrMetadata {
        display_max_brightness: 203f32,
        content_max_brightness: 1000f32,
    })
}

fn rgb(clip: GamutClipping) -> MappingColorSpace {
    MappingColorSpace::Rgb(RgbToneMapperParameters { gamut_clipping: clip, exposure: 1.0 })
}

fn yrgb() -> MappingColorSpace {
    MappingColorSpace::YRgb(CommonToneMapperParameters {
        gamut_clipping: GamutClipping::NoClip,
        exposure: 1.0,
    })
}

#[test]
fn tone_mapping_8_bit_maps_pixels_and_keeps_padding() {
    let mut image = vec![0xeeu8; 2 * 11];
    for row in 0..2 {
        for px in 0..2 {
            image[row * 11 + px * 4..row * 11 + px * 4 + 4].copy_from_slice(&[180, 140, 90, 255]);
        }
    }
    let before = image.clone();
    let r = apply_tone_mapping_rgba8(
        &mut image, 11, 2, 2, pq_profile(), ToneMapping::Rec2408, method(),
        rgb(GamutClipping::Clip),
    );
    assert_eq!(r, Ok(ColorOutcome::Transformed));
    assert_ne!(image, before);
    assert_eq!(&image[8..11], &[0xee; 3]);
    assert_eq!(&image[19..22], &[0xee; 3]);
    assert_eq!(&image[0..4], &image[4..8]);
    assert_eq!(&image[0..8], &image[11..19]);
    assert_eq!(image[3], 255);
}

#[test]
fn skipping_tone_mapping_runs_the_colour_transform() {
    let mut image: Vec<u8> = (0..4).flat_map(|_| [180u8, 140, 90, 255]).collect();
    let before = image.clone();
    let r = apply_tone_mapping_rgba8(
        &mut image, 8, 2, 2, ColorProfile::new_bt2020(), ToneMapping::Skip, method(),
        rgb(GamutClipping::Clip),
    );
    assert_eq!(r, Ok(ColorOutcome::Transformed));
    assert_ne!(image, before);
}

#[test]
fn tone_mapping_settles_like_every_entry_point() {
    let mut image = vec![9u8; 64];
    assert_eq!(
        apply_tone_mapping_rgba8(
            &mut image, 16, 0, 4, pq_profile(), ToneMapping::Rec2408, method(),
            rgb(GamutClipping::Clip),
        ),
        Ok(ColorOutcome::PassedThrough)
    );
    assert_eq!(
        apply_tone_mapping_rgba8(
            &mut image, 15, 4, 4, pq_profile(), ToneMapping::Rec2408, method(),
            rgb(GamutClipping::Clip),
        ),
        Err(PixelError::GeometryViolation)
    );
    assert_eq!(
        apply_tone_mapping_rgba16(
            &mut image, 16, 10, 4, 0, &pq_profile(), ToneMapping::Rec2408, method(),
            rgb(GamutClipping::NoClip),
        ),
        Ok(ColorOutcome::PassedThrough)
    );
    assert_eq!(
        apply_tone_mapping_rgba16(
            &mut image, 16, 10, 4, 2, &pq_profile(), ToneMapping::Rec2408, method(),
            rgb(GamutClipping::NoClip),
        ),
        Err(PixelError::GeometryViolation)
    );
    assert_eq!(image, vec![9u8; 64]);
}

#[test]
fn wide_tone_mapping_is_the_same_in_place_and_staged() {
    for (depth, top, space) in [
        (10u32, 1023u16, rgb(GamutClipping::NoClip)),
        (12, 4095, rgb(GamutClipping::NoClip)),
        (16, 65535, yrgb()),
    ] {
        let pixels: Vec<u16> = (0..6).flat_map(|_| [top / 2, top / 3, top / 5, top]).collect();
        let payload = words_to_bytes(&pixels);
        let mut out = Vec::new();
        for even in [true, false] {
            let (mut image, at) = place(&payload, even);
            let r = apply_tone_mapping_rgba16(
                &mut image[at..at + payload.len()], 24, depth, 3, 2, &pq_profile(),
                ToneMapping::Rec2408, method(), space,
            );
            assert_eq!(r, Ok(ColorOutcome::Transformed));
            out.push(image[at..at + payload.len()].to_vec());
        }
        assert_eq!(out[0], out[1]);
        assert_ne!(out[0], payload);
    }
}

#[test]
fn wide_tone_mapping_keeps_padding() {
    let mut image = vec![0xeeu8; 2 * 19];
    let row = words_to_bytes(&[500, 400, 300, 1023, 500, 400, 300, 1023]);
    image[0..16].copy_from_slice(&row);
    image[19..35].copy_from_slice(&row);
    let r = apply_tone_mapping_rgba16(
        &mut image, 19, 10, 2, 2, &pq_profile(), ToneMapping::Skip, method(),
        rgb(GamutClipping::NoClip),
    );
    assert_eq!(r, Ok(ColorOutcome::Transformed));
    assert_eq!(&image[16..19], &[0xee; 3]);
    assert_eq!(&image[35..38], &[0xee; 3]);
    assert_eq!(&image[0..16], &image[19..35]);
    assert_ne!(&image[0..16], &row[..]);
}

#[test]
fn transfer_characteristics_convert_by_code_point() {
    assert_eq!(FfiTrc::Reserved.to_characteristics(), TransferCharacteristics::Reserved);
    assert_eq!(FfiTrc::Bt709.to_characteristics(), TransferCharacteristics::Bt709);
    assert_eq!(FfiTrc::Unspecified.to_characteristics(), TransferCharacteristics::Unspecified);
    assert_eq!(FfiTrc::Bt470M.to_characteristics(), TransferCharacteristics::Bt470M);
    assert_eq!(FfiTrc::Bt470Bg.to_characteristics(), TransferCharacteristics::Bt470Bg);
    assert_eq!(FfiTrc::Bt601.to_characteristics(), TransferCharacteristics::Bt601);
    assert_eq!(FfiTrc::Smpte240.to_characteristics(), TransferCharacteristics::Smpte240);
    assert_eq!(FfiTrc::Linear.to_characteristics(), TransferCharacteristics::Linear);
    assert_eq!(FfiTrc::Log100.to_characteristics(), TransferCharacteristics::Log100);
    assert_eq!(FfiTrc::Log100sqrt10.to_characteristics(), TransferCharacteristics::Log100sqrt10);
    assert_eq!(FfiTrc::Iec61966.to_characteristics(), TransferCharacteristics::Iec61966);
    assert_eq!(FfiTrc::Bt1361.to_characteristics(), TransferCharacteristics::Bt1361);
    assert_eq!(FfiTrc::Srgb.to_characteristics(), TransferCharacteristics::Srgb);
    assert_eq!(FfiTrc::Bt202010bit.to_characteristics(), TransferCharacteristics::Bt202010bit);
    assert_eq!(FfiTrc::Bt202012bit.to_characteristics(), TransferCharacteristics::Bt202012bit);
    assert_eq!(FfiTrc::Smpte2084.to_characteristics(), TransferCharacteristics::Smpte2084);
    assert_eq!(FfiTrc::Smpte428.to_characteristics(), TransferCharacteristics::Smpte428);
    assert_eq!(FfiTrc::Hlg.to_characteristics(), TransferCharacteristics::Hlg);
}

#[test]
fn a_depth_without_a_tone_mapper_is_refused() {
    let mut image = vec![9u8; 64];
    for depth in [0, 8, 14, 15, 32] {
        for mapping in [ToneMapping::Skip, ToneMapping::Rec2408] {
            assert_eq!(
                apply_tone_mapping_rgba16(
                    &mut image, 16, depth, 2, 4, &pq_profile(), mapping, method(),
                    rgb(GamutClipping::NoClip),
                ),
                Err(PixelError::UnsupportedCombination)
            );
        }
    }
    assert_eq!(image, vec![9u8; 64]);
}
