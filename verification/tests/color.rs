use maze_grid::color::from_u8_rgb;

#[test]
fn packs_channels_into_their_bytes() {
    assert_eq!(from_u8_rgb(0x12, 0x34, 0x56), 0x0012_3456);
    assert_eq!(from_u8_rgb(0xAB, 0xCD, 0xEF), 0x00AB_CDEF);
}

#[test]
fn packs_the_extremes() {
    assert_eq!(from_u8_rgb(0, 0, 0), 0);
    assert_eq!(from_u8_rgb(255, 255, 255), 0x00FF_FFFF);
}

#[test]
fn each_channel_has_its_own_weight() {
    assert_eq!(from_u8_rgb(1, 0, 0), 65_536);
    assert_eq!(from_u8_rgb(0, 1, 0), 256);
    assert_eq!(from_u8_rgb(0, 0, 1), 1);
    assert_eq!(from_u8_rgb(255, 0, 0), 0x00FF_0000);
    assert_eq!(from_u8_rgb(0, 255, 0), 0x0000_FF00);
    assert_eq!(from_u8_rgb(0, 0, 255), 0x0000_00FF);
}

#[test]
fn packed_color_is_the_weighted_sum() {
    let samples: [u8; 7] = [0, 1, 2, 127, 128, 254, 255];
    for &r in samples.iter() {
        for &g in samples.iter() {
            for &b in samples.iter() {
                let expected = u32::from(r) * 65_536 + u32::from(g) * 256 + u32::from(b);
                assert_eq!(from_u8_rgb(r, g, b), expected);
            }
        }
    }
}

#[test]
fn channels_read_back_and_top_byte_is_zero() {
    let samples: [u8; 7] = [0, 1, 2, 127, 128, 254, 255];
    for &r in samples.iter() {
        for &g in samples.iter() {
            for &b in samples.iter() {
                let color = from_u8_rgb(r, g, b);
                assert_eq!((color >> 16) & 0xFF, u32::from(r));
                assert_eq!((color >> 8) & 0xFF, u32::from(g));
                assert_eq!(color & 0xFF, u32::from(b));
                assert_eq!(color >> 24, 0);
            }
        }
    }
}
