use vga_buffers::color::Color;
use vga_buffers::color::ColorCode;
use vga_buffers::screen::Buffer;
use vga_buffers::screen::ScreenChar;
use vga_buffers::writer::Writer;
use vga_buffers::BUFFER_HEIGHT;
use vga_buffers::BUFFER_WIDTH;

fn construct_writer() -> Writer {
    let buffer = construct_buffer();
    Writer::new(ColorCode::new(Color::Blue, Color::Magenta), buffer)
}

fn construct_buffer() -> Buffer {
    Buffer::new(empty_char())
}

fn empty_char() -> ScreenChar {
    ScreenChar {
        ascii_character: b' ',
        color_code: ColorCode::new(Color::Green, Color::Brown),
    }
}

fn blank_char(writer: &Writer) -> ScreenChar {
    ScreenChar {
        ascii_character: b' ',
        color_code: writer.color_code(),
    }
}

#[test]
fn write_byte() {
    let mut writer = construct_writer();
    writer.write_byte(b'X');
    writer.write_byte(b'Y');

    for i in 0..BUFFER_HEIGHT {
        for j in 0..BUFFER_WIDTH {
            let screen_char = writer.char_at(i, j);
            if i == BUFFER_HEIGHT - 1 && j == 0 {
                assert_eq!(screen_char.ascii_character, b'X');
                assert_eq!(screen_char.color_code, writer.color_code());
            } else if i == BUFFER_HEIGHT - 1 && j == 1 {
                assert_eq!(screen_char.ascii_character, b'Y');
                assert_eq!(screen_char.color_code, writer.color_code());
            } else {
                assert_eq!(screen_char, empty_char());
            }
        }
    }
}

#[test]
fn write_formatted() {
    let mut writer = construct_writer();
    writer.write_string(&format!("{}\n", "a"));
    writer.write_string(&format!("b{}\n", "c"));

    for i in 0..BUFFER_HEIGHT {
        for j in 0..BUFFER_WIDTH {
            let screen_char = writer.char_at(i, j);
            if i == BUFFER_HEIGHT - 3 && j == 0 {
                assert_eq!(screen_char.ascii_character, b'a');
                assert_eq!(screen_char.color_code, writer.color_code());
            } else if i == BUFFER_HEIGHT - 2 && j == 0 {
                assert_eq!(screen_char.ascii_character, b'b');
                assert_eq!(screen_char.color_code, writer.color_code());
            } else if i == BUFFER_HEIGHT - 2 && j == 1 {
                assert_eq!(screen_char.ascii_character, b'c');
                assert_eq!(screen_char.color_code, writer.color_code());
            } else if i >= BUFFER_HEIGHT - 2 {
                assert_eq!(screen_char.ascii_character, b' ');
                assert_eq!(screen_char.color_code, writer.color_code());
            } else {
                assert_eq!(screen_char, empty_char());
            }
        }
    }
}

#[test]
fn foo() {}

#[test]
fn unprintable_byte_becomes_fallback_glyph() {
    let mut writer = construct_writer();
    writer.write_string("\u{1}");
    let cell = writer.char_at(BUFFER_HEIGHT - 1, 0);
    assert_eq!(cell.ascii_character, 0xfe);
    assert_eq!(writer.column_position(), 1);

    // A multi-byte character is substituted byte by byte.
    let mut writer = construct_writer();
    writer.write_string("\u{e9}");
    assert_eq!(writer.char_at(BUFFER_HEIGHT - 1, 0).ascii_character, 0xfe);
    assert_eq!(writer.char_at(BUFFER_HEIGHT - 1, 1).ascii_character, 0xfe);
    assert_eq!(writer.column_position(), 2);
}

#[test]
fn full_row_wraps_on_next_byte_only() {
    let mut writer = construct_writer();
    writer.write_string(&"x".repeat(BUFFER_WIDTH));

    // The row is exactly full: no scroll has happened yet.
    assert_eq!(writer.column_position(), BUFFER_WIDTH);
    for j in 0..BUFFER_WIDTH {
        assert_eq!(writer.char_at(BUFFER_HEIGHT - 1, j).ascii_character, b'x');
        assert_eq!(writer.char_at(BUFFER_HEIGHT - 2, j), empty_char());
    }

    // One further byte scrolls the filled row up and lands at column 0.
    writer.write_byte(b'y');
    assert_eq!(writer.column_position(), 1);
    assert_eq!(writer.char_at(BUFFER_HEIGHT - 1, 0).ascii_character, b'y');
    for j in 0..BUFFER_WIDTH {
        assert_eq!(writer.char_at(BUFFER_HEIGHT - 2, j).ascii_character, b'x');
    }
    for j in 1..BUFFER_WIDTH {
        assert_eq!(writer.char_at(BUFFER_HEIGHT - 1, j), blank_char(&writer));
    }
}

#[test]
fn newline_scrolls_even_at_column_zero() {
    let mut writer = construct_writer();
    writer.write_byte(b'a');
    assert_eq!(writer.column_position(), 1);

    writer.write_byte(b'\n');
    assert_eq!(writer.column_position(), 0);
    assert_eq!(writer.char_at(BUFFER_HEIGHT - 2, 0).ascii_character, b'a');

    // At column 0 a newline still scrolls.
    writer.write_byte(b'\n');
    assert_eq!(writer.column_position(), 0);
    assert_eq!(writer.char_at(BUFFER_HEIGHT - 3, 0).ascii_character, b'a');
    assert_eq!(writer.char_at(BUFFER_HEIGHT - 2, 0), blank_char(&writer));
}

#[test]
fn scroll_preserves_order_and_discards_top_row() {
    let mut writer = construct_writer();

    // Fill every row with a distinct letter: 'A' ends up on the top row.
    for i in 0..BUFFER_HEIGHT as u8 {
        let letter = (b'A' + i) as char;
        if i as usize == BUFFER_HEIGHT - 1 {
            writer.write_string(&format!("{}", letter));
        } else {
            writer.write_string(&format!("{}\n", letter));
        }
    }
    for i in 0..BUFFER_HEIGHT {
        assert_eq!(writer.char_at(i, 0).ascii_character, b'A' + i as u8);
    }

    // One scroll: every surviving row moves up one, the bottom row is
    // blank, and 'A' is nowhere in the grid.
    writer.write_byte(b'\n');
    for i in 0..BUFFER_HEIGHT - 1 {
        assert_eq!(writer.char_at(i, 0).ascii_character, b'B' + i as u8);
    }
    for j in 0..BUFFER_WIDTH {
        assert_eq!(writer.char_at(BUFFER_HEIGHT - 1, j), blank_char(&writer));
    }
    for i in 0..BUFFER_HEIGHT {
        for j in 0..BUFFER_WIDTH {
            assert_ne!(writer.char_at(i, j).ascii_character, b'A');
        }
    }
}

#[test]
fn empty_string_changes_nothing() {
    let mut writer = construct_writer();
    writer.write_string("");
    assert_eq!(writer.column_position(), 0);
    for i in 0..BUFFER_HEIGHT {
        for j in 0..BUFFER_WIDTH {
            assert_eq!(writer.char_at(i, j), empty_char());
        }
    }
}
