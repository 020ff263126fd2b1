use vga_buffers::color::Color;
use vga_buffers::color::ColorCode;

const ALL_COLORS: [Color; 16] = [
    Color::Black,
    Color::Blue,
    Color::Green,
    Color::Cyan,
    Color::Red,
    Color::Magenta,
    Color::Brown,
    Color::LightGray,
    Color::DarkGray,
    Color::LightBlue,
    Color::LightGreen,
    Color::LightCyan,
    Color::LightRed,
    Color::Pink,
    Color::Yellow,
    Color::White,
];

#[test]
fn palette_codes_are_the_hardware_indices() {
    for (i, color) in ALL_COLORS.iter().enumerate() {
        assert_eq!(color.code(), i as u8);
    }
}

#[test]
fn attribute_byte_packs_background_high_foreground_low() {
    for fg in ALL_COLORS.iter() {
        for bg in ALL_COLORS.iter() {
            let cc = ColorCode::new(*fg, *bg);
            assert_eq!(cc.byte(), (bg.code() << 4) | fg.code());
        }
    }
}

#[test]
fn attribute_byte_example() {
    // Yellow (14) on black (0): attribute 0x0e.
    assert_eq!(ColorCode::new(Color::Yellow, Color::Black).byte(), 0x0e);
    // Blue (1) on magenta (5): attribute 0x51.
    assert_eq!(ColorCode::new(Color::Blue, Color::Magenta).byte(), 0x51);
}
