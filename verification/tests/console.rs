use vga_console::Color;
use vga_console::ColorCode;
use vga_console::ScreenChar;
use vga_console::Writer;
use vga_console::BUFFER_HEIGHT;
use vga_console::BUFFER_WIDTH;

fn default_code() -> ColorCode {
    ColorCode::new(Color::White, Color::Black)
}

fn blank(attr: ColorCode) -> ScreenChar {
    ScreenChar { ascii_char: 0x20, color_code: attr }
}

fn assert_row(writer: &Writer, row: usize, text: &str, attr: ColorCode) {
    let bytes = text.as_bytes();
    assert!(bytes.len() <= BUFFER_WIDTH);
    for col in 0..BUFFER_WIDTH {
        let cell = writer.read_cell(row, col);
        if col < bytes.len() {
            assert_eq!(cell.ascii_char, bytes[col], "row {} col {}", row, col);
        } else {
            assert_eq!(cell.ascii_char, 0x20, "row {} col {}", row, col);
        }
        assert_eq!(cell.color_code, attr, "row {} col {}", row, col);
    }
}

#[test]
fn color_code_packs_nibbles() {
    assert_eq!(ColorCode::new(Color::White, Color::Black).0, 0x0f);
    assert_eq!(ColorCode::new(Color::Blue, Color::Green).0, 0x21);
    assert_eq!(ColorCode::new(Color::LightBrown, Color::Red).0, 0x4e);
    assert_eq!(ColorCode::new(Color::Black, Color::White).0, 0xf0);
}

#[test]
fn new_writer_is_blank() {
    let writer = Writer::new();
    assert_eq!(writer.cursor(), 0);
    assert_eq!(writer.color(), default_code());
    for row in 0..BUFFER_HEIGHT {
        assert_row(&writer, row, "", default_code());
    }
}

#[test]
fn hello_world_layout() {
    let mut writer = Writer::new();
    writer.write_string("hello\nworld");
    assert_eq!(writer.cursor(), 5);
    assert_row(&writer, BUFFER_HEIGHT - 2, "hello", default_code());
    assert_row(&writer, BUFFER_HEIGHT - 1, "world", default_code());
    for row in 0..BUFFER_HEIGHT - 2 {
        assert_row(&writer, row, "", default_code());
    }
}

#[test]
fn height_newlines_blank_everything() {
    let mut writer = Writer::new();
    writer.write_string("some text\nmore text");
    for _ in 0..BUFFER_HEIGHT {
        writer.write_byte(0x0a);
    }
    assert_eq!(writer.cursor(), 0);
    for row in 0..BUFFER_HEIGHT {
        assert_row(&writer, row, "", default_code());
    }
}

#[test]
fn extra_newline_changes_nothing() {
    let mut first = Writer::new();
    let mut second = Writer::new();
    first.write_string("abc");
    second.write_string("abc");
    for _ in 0..BUFFER_HEIGHT {
        first.write_byte(0x0a);
    }
    for _ in 0..BUFFER_HEIGHT + 1 {
        second.write_byte(0x0a);
    }
    for row in 0..BUFFER_HEIGHT {
        for col in 0..BUFFER_WIDTH {
            assert_eq!(first.read_cell(row, col), second.read_cell(row, col));
        }
    }
    assert_eq!(first.cursor(), second.cursor());
}

#[test]
fn twenty_six_newlines_blank_everything() {
    let mut writer = Writer::new();
    writer.write_string("top line");
    for _ in 0..26 {
        writer.write_byte(0x0a);
    }
    assert_eq!(writer.cursor(), 0);
    for row in 0..BUFFER_HEIGHT {
        assert_row(&writer, row, "", default_code());
    }
}

#[test]
fn wrap_boundary_fills_row_then_scrolls() {
    let mut writer = Writer::new();
    for _ in 0..BUFFER_WIDTH {
        writer.write_byte(b'a');
    }
    assert_eq!(writer.cursor(), BUFFER_WIDTH);
    for col in 0..BUFFER_WIDTH {
        assert_eq!(writer.read_cell(BUFFER_HEIGHT - 1, col).ascii_char, b'a');
    }
    writer.write_byte(b'b');
    assert_eq!(writer.cursor(), 1);
    assert_eq!(writer.read_cell(BUFFER_HEIGHT - 1, 0).ascii_char, b'b');
    assert_eq!(writer.read_cell(BUFFER_HEIGHT - 1, 1).ascii_char, 0x20);
    for col in 0..BUFFER_WIDTH {
        assert_eq!(writer.read_cell(BUFFER_HEIGHT - 2, col).ascii_char, b'a');
    }
}

#[test]
fn unprintable_bytes_become_tilde() {
    let mut writer = Writer::new();
    writer.write_bytes(&[0x01, 0x41, 0x80, 0xff, 0x07, 0x1f, 0x7f]);
    let expected = [0x7e, 0x41, 0x7e, 0x7e, 0x7e, 0x7e, 0x7e];
    for (col, want) in expected.iter().enumerate() {
        assert_eq!(writer.read_cell(BUFFER_HEIGHT - 1, col).ascii_char, *want);
    }
    assert_eq!(writer.cursor(), expected.len());
}

#[test]
fn tab_and_multibyte_become_tilde() {
    let mut writer = Writer::new();
    writer.write_string("a\tz");
    assert_row(&writer, BUFFER_HEIGHT - 1, "a~z", default_code());
    let mut other = Writer::new();
    // A two-byte UTF-8 character substitutes one tilde per encoded byte.
    other.write_string("\u{e9}");
    assert_row(&other, BUFFER_HEIGHT - 1, "~~", default_code());
    assert_eq!(other.cursor(), 2);
}

#[test]
fn write_byte_places_raw_byte() {
    let mut writer = Writer::new();
    writer.write_byte(0x01);
    assert_eq!(writer.read_cell(BUFFER_HEIGHT - 1, 0).ascii_char, 0x01);
    assert_eq!(writer.cursor(), 1);
}

#[test]
fn color_applies_only_to_later_characters() {
    let mut writer = Writer::new();
    let red = ColorCode::new(Color::Red, Color::Black);
    writer.write_string("ab");
    writer.set_cursor_color(red);
    writer.write_string("cd");
    assert_eq!(writer.read_cell(BUFFER_HEIGHT - 1, 0).color_code, default_code());
    assert_eq!(writer.read_cell(BUFFER_HEIGHT - 1, 1).color_code, default_code());
    assert_eq!(writer.read_cell(BUFFER_HEIGHT - 1, 2).color_code, red);
    assert_eq!(writer.read_cell(BUFFER_HEIGHT - 1, 3).color_code, red);
    assert_eq!(writer.read_cell(BUFFER_HEIGHT - 1, 0).ascii_char, b'a');
    assert_eq!(writer.read_cell(BUFFER_HEIGHT - 1, 2).ascii_char, b'c');
    // Cells never written keep the attribute they were blanked with.
    assert_eq!(writer.read_cell(BUFFER_HEIGHT - 1, 4).color_code, default_code());
}

#[test]
fn scroll_blanks_with_active_color() {
    let mut writer = Writer::new();
    let green = ColorCode::new(Color::Green, Color::Black);
    writer.set_cursor_color(green);
    writer.write_byte(0x0a);
    for col in 0..BUFFER_WIDTH {
        assert_eq!(writer.read_cell(BUFFER_HEIGHT - 1, col), blank(green));
    }
    // Rows that merely moved up keep their old attributes.
    for col in 0..BUFFER_WIDTH {
        assert_eq!(writer.read_cell(BUFFER_HEIGHT - 2, col), blank(default_code()));
    }
}

#[test]
fn print_str_resets_color_first() {
    let mut writer = Writer::new();
    writer.set_cursor_color(ColorCode::new(Color::Red, Color::Blue));
    writer.print_str("ok");
    assert_eq!(writer.color(), default_code());
    assert_eq!(writer.read_cell(BUFFER_HEIGHT - 1, 0).color_code, default_code());
    assert_eq!(writer.read_cell(BUFFER_HEIGHT - 1, 0).ascii_char, b'o');
    assert_eq!(writer.read_cell(BUFFER_HEIGHT - 1, 1).ascii_char, b'k');
}

#[test]
fn empty_string_changes_nothing() {
    let mut writer = Writer::new();
    writer.write_string("xy");
    let before: Vec<ScreenChar> =
        (0..BUFFER_WIDTH).map(|col| writer.read_cell(BUFFER_HEIGHT - 1, col)).collect();
    writer.write_string("");
    assert_eq!(writer.cursor(), 2);
    for col in 0..BUFFER_WIDTH {
        assert_eq!(writer.read_cell(BUFFER_HEIGHT - 1, col), before[col]);
    }
}

#[test]
fn screen_char_read_and_write() {
    let mut cell = ScreenChar { ascii_char: b'x', color_code: ColorCode::new(Color::White, Color::Black) };
    assert_eq!(cell.read(), cell);
    let replacement = ScreenChar { ascii_char: b'y', color_code: ColorCode::new(Color::Cyan, Color::Black) };
    cell.write(replacement);
    assert_eq!(cell.read(), replacement);
}
