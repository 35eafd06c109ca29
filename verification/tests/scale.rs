use avifpixart::{weave_scale_u16, weave_scale_u8, PixelError};

fn words_to_bytes(words: &[u16]) -> Vec<u8> {
    words.iter().flat_map(|w| w.to_ne_bytes()).collect()
}

fn place(payload: &[u8], even: bool) -> (Vec<u8>, usize) {
    let mut backing = vec![0u8; payload.len() + 1];
    let at = if (backing.as_ptr() as usize % 2 == 0) == even { 0 } else { 1 };
    backing[at..at + payload.len()].copy_from_slice(payload);
    (backing, at)
}

fn pattern(n: usize) -> Vec<u8> {
    (0..n).map(|k| (k * 53 + 5) as u8).collect()
}

#[test]
fn scaling_to_the_same_size_reproduces_the_image() {
    let src = pattern(5 * 4 * 3);
    for method in [1, 0, 3] {
        for premultiply in [false, true] {
            let mut dst = vec![0u8; 60];
            assert_eq!(
                weave_scale_u8(&src, 20, 5, 3, &mut dst, 20, 5, 3, method, premultiply),
                Ok(())
            );
            assert_eq!(dst, src);
        }
    }
}

#[test]
fn scaling_to_the_same_size_honours_both_strides() {
    let src = pattern(23 * 3);
    let mut dst = vec![0xeeu8; 21 * 3 + 4];
    assert_eq!(weave_scale_u8(&src, 23, 5, 3, &mut dst, 21, 5, 3, 1, false), Ok(()));
    for row in 0..3 {
        assert_eq!(&dst[row * 21..row * 21 + 20], &src[row * 23..row * 23 + 20]);
    }
    assert_eq!(&dst[63..67], &[0xee; 4]);
}

#[test]
fn a_flat_image_stays_flat_at_any_size() {
    let src: Vec<u8> = (0..64).flat_map(|_| [10u8, 200, 30, 255]).collect();
    let mut dst = vec![0u8; 3 * 4 * 5];
    assert_eq!(weave_scale_u8(&src, 32, 8, 8, &mut dst, 12, 3, 5, 1, false), Ok(()));
    for px in dst.chunks_exact(4) {
        assert_eq!(px, &[10, 200, 30, 255]);
    }
    for method in [0, 3] {
        let mut dst = vec![0u8; 3 * 4 * 5];
        assert_eq!(weave_scale_u8(&src, 32, 8, 8, &mut dst, 12, 3, 5, method, false), Ok(()));
        for px in dst.chunks_exact(4) {
            for (got, want) in px.iter().zip([10u8, 200, 30, 255]) {
                assert!(got.abs_diff(want) <= 2);
            }
        }
    }
}

#[test]
fn scaling_settles_like_every_entry_point() {
    let src = pattern(64);
    let mut dst = vec![1u8; 64];
    assert_eq!(weave_scale_u8(&src, 16, 0, 4, &mut dst, 16, 4, 4, 1, false), Ok(()));
    assert_eq!(weave_scale_u8(&src, 16, 4, 4, &mut dst, 16, 4, 0, 1, false), Ok(()));
    assert_eq!(
        weave_scale_u8(&src, 15, 4, 4, &mut dst, 16, 4, 4, 1, false),
        Err(PixelError::GeometryViolation)
    );
    assert_eq!(
        weave_scale_u8(&src, 16, 4, 4, &mut dst, 16, 4, 5, 1, false),
        Err(PixelError::GeometryViolation)
    );
    assert_eq!(dst, vec![1u8; 64]);
    assert_eq!(
        weave_scale_u16(&src, 32, 4, 2, &mut dst, 4, 2, 0, 1, false),
        Err(PixelError::UnsupportedCombination)
    );
    assert_eq!(
        weave_scale_u16(&src, 32, 4, 2, &mut dst, 4, 2, 17, 1, false),
        Err(PixelError::UnsupportedCombination)
    );
    assert_eq!(
        weave_scale_u16(&src, 32, 4, 2, &mut dst, 4, 3, 10, 1, false),
        Err(PixelError::GeometryViolation)
    );
    assert_eq!(
        weave_scale_u16(&src, 31, 4, 2, &mut dst, 4, 2, 10, 1, false),
        Err(PixelError::GeometryViolation)
    );
    assert_eq!(weave_scale_u16(&src, 32, 4, 0, &mut dst, 4, 2, 10, 1, false), Ok(()));
    assert_eq!(dst, vec![1u8; 64]);
}

#[test]
fn wide_scaling_to_the_same_size_reproduces_the_samples() {
    let pixels: Vec<u16> = (0u16..48).map(|k| (k * 19 + 3) % 1024).collect();
    let payload = words_to_bytes(&pixels);
    for even_source in [true, false] {
        for even_target in [true, false] {
            for method in [1, 3] {
                let (src, s_at) = place(&payload, even_source);
                let (mut dst, d_at) = place(&vec![0u8; payload.len()], even_target);
                let r = weave_scale_u16(
                    &src[s_at..s_at + payload.len()],
                    32,
                    4,
                    3,
                    &mut dst[d_at..d_at + payload.len()],
                    4,
                    3,
                    10,
                    method,
                    false,
                );
                assert_eq!(r, Ok(()));
                assert_eq!(&dst[d_at..d_at + payload.len()], &payload[..]);
            }
        }
    }
}

#[test]
fn wide_scaling_reads_a_padded_source() {
    let mut payload = Vec::new();
    for row in 0u16..2 {
        payload.extend(words_to_bytes(&[row + 1, row + 2, row + 3, 1023]));
        payload.extend([0xaau8; 3]);
    }
    let mut dst = vec![0u8; 16];
    assert_eq!(weave_scale_u16(&payload, 11, 1, 2, &mut dst, 1, 2, 10, 1, false), Ok(()));
    assert_eq!(dst, words_to_bytes(&[1, 2, 3, 1023, 2, 3, 4, 1023]));
}

#[test]
fn wide_flat_image_stays_flat_at_any_size() {
    let pixels: Vec<u16> = (0..36).flat_map(|_| [100u16, 2000, 300, 4095]).collect();
    let payload = words_to_bytes(&pixels);
    for even_target in [true, false] {
        let (mut dst, d_at) = place(&vec![0u8; 2 * 3 * 8], even_target);
        let r = weave_scale_u16(&payload, 48, 6, 6, &mut dst[d_at..d_at + 48], 2, 3, 12, 0, false);
        assert_eq!(r, Ok(()));
        let expected: Vec<u16> = (0..6).flat_map(|_| [100u16, 2000, 300, 4095]).collect();
        assert_eq!(&dst[d_at..d_at + 48], &words_to_bytes(&expected)[..]);
    }
}
