use cheval::pixel::Pixel;

#[test]
fn mix_byte_works() {
    // full left/a
    for j in 0..=255 {
        for i in 0..=255 {
            assert_eq!(i, Pixel::mix_byte(i, j, 0xff));
        }
    }
    // full right/b
    for j in 0..=255 {
        for i in 0..=255 {
            assert_eq!(j, Pixel::mix_byte(i, j, 0x00));
        }
    }

    for i in 0..=255 {
        assert_eq!(i, Pixel::mix_byte(0xff, 0x00, i));
    }
}

#[test]
fn blending_with_alpha_works() {
    assert_eq!(Pixel::from_u32(0xffffffff), Pixel::blend_with_alpha(&(0xffffffff.into()), &(0x00000000.into())));
    assert_eq!(Pixel::from_u32(0xffffffff), Pixel::blend_with_alpha(&(0x00000000.into()), &(0xffffffff.into())));
    assert_eq!(Pixel::from_u32(0xff000000), Pixel::blend_with_alpha(&(0xff000000.into()), &(0x00000000.into())));
    assert_eq!(Pixel::from_u32(0xff000000), Pixel::blend_with_alpha(&(0x00000000.into()), &(0xff000000.into())));
    assert_eq!(Pixel::from_u32(0xffff0000), Pixel::blend_with_alpha(&(0xffff0000.into()), &(0x00000000.into())));
    assert_eq!(Pixel::from_u32(0xffff0000), Pixel::blend_with_alpha(&(0x00000000.into()), &(0xffff0000.into())));
    assert_eq!(Pixel::from_u32(0x80808080), Pixel::blend_with_alpha(&(0x80ffffff.into()), &(0x00000000.into())));
    assert_eq!(Pixel::from_u32(0x80606060), Pixel::blend_with_alpha(&(0x80808080.into()), &(0x00404040.into())));

    assert_eq!(Pixel::from_u32(0x80800000), Pixel::blend_with_alpha(&(0x80ff0000.into()), &(0x00000000.into())));
    assert_eq!(Pixel::from_u32(0xffbf3f3f), Pixel::blend_with_alpha(&(0x80ff0000.into()), &(0xff808080.into())));

    assert_eq!(Pixel::from_u32(0x80404040), Pixel::blend_with_alpha(&(0x80808080.into()), &(0x00000000.into())));
}

#[test]
fn pixel_round_trips_through_u32() {
    let p = Pixel::from_u32(0x12345678);
    assert_eq!(0x12345678, p.to_u32());
    let q: Pixel = 0x12345678.into();
    assert_eq!(p, q);
    let c: u32 = q.into();
    assert_eq!(0x12345678, c);
}

#[test]
fn mix_byte_rounds_down() {
    // (200 * 100 + 50 * 155) / 255 = 27750 / 255 = 108.8..
    assert_eq!(108, Pixel::mix_byte(200, 50, 100));
    // (0 * 128 + 255 * 127) / 255 = 127
    assert_eq!(127, Pixel::mix_byte(0x00, 0xff, 0x80));
    assert_eq!(0, Pixel::mix_byte(0, 0, 0));
    assert_eq!(255, Pixel::mix_byte(255, 255, 77));
}

#[test]
fn blend_adds_alpha_and_caps_it() {
    let p = Pixel::blend_with_alpha(&Pixel::from_u32(0x40000000), &Pixel::from_u32(0x30000000));
    assert_eq!(0x70000000, p.to_u32());
    let p = Pixel::blend_with_alpha(&Pixel::from_u32(0xc0000000), &Pixel::from_u32(0xc0000000));
    assert_eq!(0xff000000, p.to_u32());
}

#[test]
fn blend_mixes_each_channel_by_the_upper_alpha() {
    // alpha 0x40 = 64: red (0x10*64 + 0xf0*191)/255 = 46864/255 = 183 = 0xb7
    //                  green (0x20*64 + 0x00*191)/255 = 2048/255 = 8
    //                  blue (0xff*64 + 0x01*191)/255 = 16511/255 = 64 = 0x40
    let p = Pixel::blend_with_alpha(&Pixel::from_u32(0x401020ff), &Pixel::from_u32(0x10f00001));
    assert_eq!(0x50b70840, p.to_u32());
}
