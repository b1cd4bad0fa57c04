use superkit_rust_code_for_raspberrypi::RgbPwm;

#[test]
fn starts_dark() {
    let leds = RgbPwm::new();
    assert_eq!((leds.red(), leds.green(), leds.blue()), (0, 0, 0));
}

#[test]
fn set_color_splits_the_three_bytes() {
    let mut leds = RgbPwm::new();
    leds.set_color(0xBF3F00);
    assert_eq!((leds.red(), leds.green(), leds.blue()), (0xBF, 0x3F, 0x00));
    leds.set_color(0x003FBF);
    assert_eq!((leds.red(), leds.green(), leds.blue()), (0x00, 0x3F, 0xBF));
    leds.set_color(0xFFFFFF);
    assert_eq!((leds.red(), leds.green(), leds.blue()), (255, 255, 255));
    leds.set_color(0x000000);
    assert_eq!(leds, RgbPwm::new());
}

#[test]
fn set_color_ignores_the_top_byte() {
    let mut leds = RgbPwm::new();
    leds.set_color(0xFF123456);
    assert_eq!((leds.red(), leds.green(), leds.blue()), (0x12, 0x34, 0x56));
}

#[test]
fn channels_make_up_the_color_again() {
    let mut leds = RgbPwm::new();
    for color in [0x000000u32, 0x3F0000, 0x7F7F00, 0x00BF3F, 0xABCDEF] {
        leds.set_color(color);
        let again =
            u32::from(leds.red()) * 0x10000 + u32::from(leds.green()) * 0x100 + u32::from(leds.blue());
        assert_eq!(again, color);
    }
}
