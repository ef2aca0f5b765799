use lifx_client::color::{degrees_to_u16, denormalize, Color};
use lifx_client::protocol::message::Hsbk;

#[test]
fn rgb_primaries() {
    assert_eq!(Color::rgb(255, 0, 0), Color::red());
    assert_eq!(
        Color::rgb(0, 255, 0),
        Color { hue: 21845, saturation: 0xffff, brightness: 0xffff, kelvin: None }
    );
    assert_eq!(
        Color::rgb(0, 0, 255),
        Color { hue: 43690, saturation: 0xffff, brightness: 0xffff, kelvin: None }
    );
}

#[test]
fn rgb_grey_has_no_hue_and_no_saturation() {
    for level in [0u8, 1, 77, 128, 255] {
        let color = Color::rgb(level, level, level);
        assert_eq!(color.hue, 0);
        assert_eq!(color.saturation, 0);
        assert_eq!(color.brightness, 257 * level as u16);
        assert_eq!(color.kelvin, None);
    }
}

#[test]
fn rgb_mixed_colour() {
    let color = Color::rgb(12, 200, 77);
    assert_eq!(color.brightness, 51400);
    assert_eq!(color.saturation, 61602);
    assert_eq!(color.hue, 25621);
    assert_eq!(Color::rgb(255, 0, 1).hue, 65492);
}

#[test]
fn denormalize_clamps_and_scales() {
    assert_eq!(denormalize(-1, 2), 0);
    assert_eq!(denormalize(0, 2), 0);
    assert_eq!(denormalize(1, 2), 32767);
    assert_eq!(denormalize(2, 2), 0xffff);
    assert_eq!(denormalize(5, 2), 0xffff);
}

#[test]
fn degrees_wrap_round_the_circle() {
    assert_eq!(degrees_to_u16(0, 1), 0);
    assert_eq!(degrees_to_u16(360, 1), 0);
    assert_eq!(degrees_to_u16(180, 1), 32767);
    assert_eq!(degrees_to_u16(-90, 1), degrees_to_u16(270, 1));
    assert_eq!(degrees_to_u16(45 + 360, 1), degrees_to_u16(45, 1));
}

#[test]
fn colour_without_kelvin_gets_the_default() {
    let hsbk = Hsbk::from(Color::from_hue_u16(0x1234));
    assert_eq!(hsbk, Hsbk::new(0x1234, 0xffff, 0xffff, 5750));
    let color = Color::from(Hsbk::new(1, 2, 3, 4));
    assert_eq!(color, Color { hue: 1, saturation: 2, brightness: 3, kelvin: Some(4) });
    assert_eq!(Hsbk::from(color), Hsbk::new(1, 2, 3, 4));
}

#[test]
fn colour_setters_take_fractions() {
    let color = Color { hue: 0xf000, saturation: 1, brightness: 2, kelvin: Some(3) };
    assert_eq!(color.with_hue(180, 1), Color { hue: 32767, ..color });
    assert_eq!(color.with_hue(-45, 2), color.with_hue(675, 2));
    assert_eq!(color.with_saturation(1, 4), Color { saturation: 16383, ..color });
    assert_eq!(color.with_saturation(7, 4), Color { saturation: 0xffff, ..color });
    assert_eq!(color.with_brightness(-1, 4), Color { brightness: 0, ..color });
    assert_eq!(color.with_brightness(3, 4), Color { brightness: 49151, ..color });
    assert_eq!(color.plus_degrees(0, 1), color);
    assert_eq!(color.plus_degrees(90, 1), Color { hue: 0xf000u16.wrapping_add(16383), ..color });
    assert_eq!(color.plus_degrees(360, 1), color);
}

#[test]
fn named_colours() {
    assert_eq!(Color::white(), Color { hue: 0, saturation: 0, brightness: 0xffff, kelvin: None });
    assert_eq!(Color::red().hue, 0x0000);
    assert_eq!(Color::yellow().hue, 0x2aaa);
    assert_eq!(Color::green().hue, 0x5555);
    assert_eq!(Color::cyan().hue, 0x7fff);
    assert_eq!(Color::blue().hue, 0xaaaa);
    assert_eq!(Color::magenta().hue, 0xd555);
    assert_eq!(Color::magenta().saturation, 0xffff);
    assert_eq!(Color::magenta().brightness, 0xffff);
}

#[test]
fn denormalize_never_goes_down() {
    let mut last = 0;
    for numerator in -10..=1010 {
        let level = denormalize(numerator, 1000);
        assert!(level >= last);
        last = level;
    }
    assert_eq!(last, 0xffff);
}
