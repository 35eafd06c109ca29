use avifpixart::{
    weave_rgba8_to_y08, weave_rgba8_to_yuv8, weave_rgba_to_yuv, weave_rgba_to_yuv400,
    weave_yuv8_to_rgba8, PixelError, YuvMatrix, YuvRange, YuvType,
};

fn near(value: u8, target: u8) -> bool {
    value.abs_diff(target) <= 1
}

#[test]
fn test_yuv_encoding422() {
    let width = 550;
    let height: usize = 333;
    let mut y_0 = vec![0u8; width * height];
    let mut u = vec![0u8; 275 * height.div_ceil(2)];
    let mut v = vec![0u8; 275 * height.div_ceil(2)];
    let rgba = vec![0u8; width * height * 4];
    let r = weave_rgba8_to_yuv8(
        &mut y_0,
        width as u32,
        &mut u,
        275,
        &mut v,
        275,
        &rgba,
        width as u32 * 4,
        width as u32,
        height as u32,
        YuvRange::Pc,
        YuvMatrix::Bt601,
        YuvType::Yuv422,
    );
    // Chroma planes of half the rows do not hold a 4:2:2 image.
    assert_eq!(r, Err(PixelError::GeometryViolation));
    assert_eq!(y_0, vec![0u8; width * height]);
}

#[test]
fn yuv_encoding422_with_full_height_chroma() {
    let width = 550;
    let height: usize = 333;
    let mut y_0 = vec![9u8; width * height];
    let mut u = vec![9u8; 275 * height];
    let mut v = vec![9u8; 275 * height];
    let rgba = vec![0u8; width * height * 4];
    let r = weave_rgba8_to_yuv8(
        &mut y_0, width as u32, &mut u, 275, &mut v, 275, &rgba, width as u32 * 4,
        width as u32, height as u32, YuvRange::Pc, YuvMatrix::Bt601, YuvType::Yuv422,
    );
    assert_eq!(r, Ok(()));
    assert_eq!(y_0, vec![0u8; width * height]);
    assert_eq!(u, vec![128u8; 275 * height]);
    assert_eq!(v, vec![128u8; 275 * height]);
}

#[test]
fn white_round_trip_through_limited_bt709() {
    let y = vec![235u8; 16];
    let c = vec![128u8; 16];
    let mut rgba = vec![0u8; 64];
    assert_eq!(
        weave_yuv8_to_rgba8(
            &y, 4, &c, 4, &c, 4, &mut rgba, 16, 4, 4,
            YuvRange::Tv, YuvMatrix::Bt709, YuvType::Yuv444,
        ),
        Ok(())
    );
    assert_eq!(rgba, vec![255u8; 64]);
    let mut y_back = vec![0u8; 16];
    let mut u_back = vec![0u8; 16];
    let mut v_back = vec![0u8; 16];
    assert_eq!(
        weave_rgba8_to_yuv8(
            &mut y_back, 4, &mut u_back, 4, &mut v_back, 4, &rgba, 16, 4, 4,
            YuvRange::Tv, YuvMatrix::Bt709, YuvType::Yuv444,
        ),
        Ok(())
    );
    assert!(y_back.iter().all(|&s| near(s, 235)));
    assert!(u_back.iter().all(|&s| near(s, 128)));
    assert!(v_back.iter().all(|&s| near(s, 128)));
    let mut y_back = vec![0u8; 16];
    let mut u_back = vec![0u8; 16];
    let mut v_back = vec![0u8; 16];
    assert_eq!(
        weave_rgba_to_yuv(
            &rgba, 16, &mut y_back, 4, &mut u_back, 4, &mut v_back, 4, 4, 4,
            YuvRange::Tv, YuvMatrix::Bt709, YuvType::Yuv444,
        ),
        Ok(())
    );
    assert!(y_back.iter().all(|&s| near(s, 235)));
    assert!(u_back.iter().all(|&s| near(s, 128)));
    assert!(v_back.iter().all(|&s| near(s, 128)));
}

#[test]
fn encoders_split_planes_with_the_identity_matrix() {
    let rgba: Vec<u8> = (0..4).flat_map(|_| [30u8, 10, 20, 255]).collect();
    let mut g = vec![0u8; 4];
    let mut b = vec![0u8; 4];
    let mut r_plane = vec![0u8; 4];
    assert_eq!(
        weave_rgba8_to_yuv8(
            &mut g, 2, &mut b, 2, &mut r_plane, 2, &rgba, 8, 2, 2,
            YuvRange::Pc, YuvMatrix::Identity, YuvType::Yuv444,
        ),
        Ok(())
    );
    assert_eq!((g, b, r_plane), (vec![10u8; 4], vec![20u8; 4], vec![30u8; 4]));
    let mut g = vec![0u8; 4];
    let mut b = vec![0u8; 4];
    let mut r_plane = vec![0u8; 4];
    assert_eq!(
        weave_rgba_to_yuv(
            &rgba, 8, &mut g, 2, &mut b, 2, &mut r_plane, 2, 2, 2,
            YuvRange::Pc, YuvMatrix::Identity, YuvType::Yuv444,
        ),
        Ok(())
    );
    assert_eq!((g, b, r_plane), (vec![10u8; 4], vec![20u8; 4], vec![30u8; 4]));
}

#[test]
fn encoders_refuse_identity_outside_444() {
    let rgba = vec![0u8; 64];
    for layout in [YuvType::Yuv420, YuvType::Yuv422] {
        let mut y = vec![1u8; 16];
        let mut u = vec![2u8; 16];
        let mut v = vec![3u8; 16];
        assert_eq!(
            weave_rgba8_to_yuv8(
                &mut y, 4, &mut u, 4, &mut v, 4, &rgba, 16, 4, 4,
                YuvRange::Pc, YuvMatrix::Identity, layout,
            ),
            Err(PixelError::UnsupportedCombination)
        );
        assert_eq!(
            weave_rgba_to_yuv(
                &rgba, 16, &mut y, 4, &mut u, 4, &mut v, 4, 4, 4,
                YuvRange::Pc, YuvMatrix::Identity, layout,
            ),
            Err(PixelError::UnsupportedCombination)
        );
        assert_eq!((y, u, v), (vec![1u8; 16], vec![2u8; 16], vec![3u8; 16]));
    }
}

#[test]
fn luma_encoders() {
    let rgba = vec![255u8; 24];
    let mut y = vec![0u8; 6];
    assert_eq!(
        weave_rgba8_to_y08(&mut y, 3, &rgba, 12, 3, 2, YuvRange::Pc, YuvMatrix::Bt601),
        Ok(())
    );
    assert_eq!(y, vec![255u8; 6]);
    let mut y = vec![0u8; 6];
    assert_eq!(
        weave_rgba_to_yuv400(&rgba, 12, &mut y, 3, 3, 2, YuvRange::Tv, YuvMatrix::Bt709),
        Ok(())
    );
    assert!(y.iter().all(|&s| near(s, 235)));
    let mut y = vec![7u8; 6];
    assert_eq!(
        weave_rgba8_to_y08(&mut y, 3, &rgba, 12, 3, 2, YuvRange::Pc, YuvMatrix::YCgCo),
        Err(PixelError::UnsupportedCombination)
    );
    assert_eq!(
        weave_rgba_to_yuv400(&rgba, 12, &mut y, 3, 3, 2, YuvRange::Pc, YuvMatrix::Identity),
        Err(PixelError::UnsupportedCombination)
    );
    assert_eq!(
        weave_rgba_to_yuv400(&rgba, 11, &mut y, 3, 3, 2, YuvRange::Pc, YuvMatrix::Bt601),
        Err(PixelError::GeometryViolation)
    );
    assert_eq!(
        weave_rgba8_to_y08(&mut y, 3, &rgba, 12, 0, 2, YuvRange::Pc, YuvMatrix::Bt601),
        Ok(())
    );
    assert_eq!(y, vec![7u8; 6]);
}

#[test]
fn encoders_touch_nothing_behind_the_image() {
    let rgba = vec![255u8; 3 * 8];
    let mut y = vec![1u8; 3 * 2 + 1];
    let mut u = vec![2u8; 3 * 2 + 1];
    let mut v = vec![3u8; 3 * 2 + 1];
    assert_eq!(
        weave_rgba8_to_yuv8(
            &mut y, 2, &mut u, 2, &mut v, 2, &rgba, 8, 2, 2,
            YuvRange::Pc, YuvMatrix::Identity, YuvType::Yuv444,
        ),
        Ok(())
    );
    assert_eq!(y, vec![255, 255, 255, 255, 1, 1, 1]);
    assert_eq!(u, vec![255, 255, 255, 255, 2, 2, 2]);
    assert_eq!(v, vec![255, 255, 255, 255, 3, 3, 3]);
    let mut y = vec![1u8; 3 * 2 + 1];
    assert_eq!(
        weave_rgba_to_yuv400(&rgba, 8, &mut y, 2, 2, 2, YuvRange::Pc, YuvMatrix::Bt601),
        Ok(())
    );
    assert_eq!(y, vec![255, 255, 255, 255, 1, 1, 1]);
}
