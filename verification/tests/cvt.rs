use avifpixart::{weave_cvt_rgba16_to_ar30, weave_cvt_rgba8_to_ar30, PixelError};

fn words_to_bytes(words: &[u16]) -> Vec<u8> {
    words.iter().flat_map(|w| w.to_ne_bytes()).collect()
}

fn place(payload: &[u8], even: bool) -> (Vec<u8>, usize) {
    let mut backing = vec![0u8; payload.len() + 1];
    let at = if (backing.as_ptr() as usize % 2 == 0) == even { 0 } else { 1 };
    backing[at..at + payload.len()].copy_from_slice(payload);
    (backing, at)
}

#[test]
fn white_packs_to_all_ones() {
    let rgba = vec![255u8; 2 * 2 * 4];
    let mut ar30 = vec![0u8; 2 * 9];
    assert_eq!(weave_cvt_rgba8_to_ar30(&rgba, 8, &mut ar30, 9, 2, 2), Ok(()));
    assert_eq!(&ar30[0..8], &[255u8; 8]);
    assert_eq!(ar30[8], 0);
    assert_eq!(&ar30[9..17], &[255u8; 8]);
    assert_eq!(ar30[17], 0);
}

#[test]
fn opaque_black_packs_to_the_alpha_bits() {
    let rgba: Vec<u8> = (0..4).flat_map(|_| [0u8, 0, 0, 255]).collect();
    let mut ar30 = vec![0u8; 16];
    assert_eq!(weave_cvt_rgba8_to_ar30(&rgba, 8, &mut ar30, 8, 2, 2), Ok(()));
    for px in ar30.chunks_exact(4) {
        assert_eq!(u32::from_ne_bytes([px[0], px[1], px[2], px[3]]), 0xc000_0000);
    }
}

#[test]
fn wide_white_packs_to_all_ones_from_any_address() {
    for (depth, top) in [(10usize, 1023u16), (12, 4095)] {
        let payload = words_to_bytes(&vec![top; 2 * 2 * 4]);
        for even in [true, false] {
            let (src, at) = place(&payload, even);
            let mut ar30 = vec![0u8; 16];
            assert_eq!(
                weave_cvt_rgba16_to_ar30(&src[at..at + 32], 16, depth, &mut ar30, 8, 2, 2),
                Ok(())
            );
            assert_eq!(ar30, vec![255u8; 16]);
        }
    }
}

#[test]
fn packing_settles_like_every_entry_point() {
    let rgba = vec![255u8; 32];
    let mut ar30 = vec![3u8; 16];
    assert_eq!(
        weave_cvt_rgba16_to_ar30(&rgba, 16, 16, &mut ar30, 8, 2, 2),
        Err(PixelError::UnsupportedCombination)
    );
    assert_eq!(
        weave_cvt_rgba16_to_ar30(&rgba, 16, 8, &mut ar30, 8, 2, 2),
        Err(PixelError::UnsupportedCombination)
    );
    assert_eq!(weave_cvt_rgba16_to_ar30(&rgba, 16, 10, &mut ar30, 8, 0, 2), Ok(()));
    assert_eq!(weave_cvt_rgba8_to_ar30(&rgba, 8, &mut ar30, 8, 2, 0), Ok(()));
    assert_eq!(
        weave_cvt_rgba16_to_ar30(&rgba, 15, 10, &mut ar30, 8, 2, 2),
        Err(PixelError::GeometryViolation)
    );
    assert_eq!(
        weave_cvt_rgba8_to_ar30(&rgba, 8, &mut ar30, 7, 2, 2),
        Err(PixelError::GeometryViolation)
    );
    assert_eq!(
        weave_cvt_rgba8_to_ar30(&rgba, 8, &mut ar30, 8, 2, 3),
        Err(PixelError::GeometryViolation)
    );
    assert_eq!(ar30, vec![3u8; 16]);
}

#[test]
fn packing_touches_nothing_behind_the_image() {
    let rgba = vec![255u8; 3 * 8];
    let mut ar30 = vec![0u8; 3 * 9 + 2];
    assert_eq!(weave_cvt_rgba8_to_ar30(&rgba, 8, &mut ar30, 9, 2, 2), Ok(()));
    assert_eq!(&ar30[0..8], &[255u8; 8]);
    assert_eq!(ar30[8], 0);
    assert_eq!(&ar30[9..17], &[255u8; 8]);
    assert_eq!(&ar30[17..], &[0u8; 12]);
}
