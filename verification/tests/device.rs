use vga_console::Buffer;
use vga_console::Color;
use vga_console::ColorCode;
use vga_console::ScreenChar;
use vga_console::BUFFER_HEIGHT;
use vga_console::BUFFER_WIDTH;

#[test]
fn buffer_starts_blank() {
    let attr = ColorCode::new(Color::LightGray, Color::Black);
    let buffer = Buffer::new(attr);
    for row in 0..BUFFER_HEIGHT {
        for col in 0..BUFFER_WIDTH {
            let cell = buffer.read_cell(row, col);
            assert_eq!(cell.ascii_char, 0x20);
            assert_eq!(cell.color_code, attr);
        }
    }
}

#[test]
fn buffer_write_cell_is_isolated() {
    let attr = ColorCode::new(Color::White, Color::Black);
    let mut buffer = Buffer::new(attr);
    let written = ScreenChar { ascii_char: b'Q', color_code: ColorCode::new(Color::Red, Color::Blue) };
    buffer.write_cell(10, 40, written);
    for row in 0..BUFFER_HEIGHT {
        for col in 0..BUFFER_WIDTH {
            let cell = buffer.read_cell(row, col);
            if row == 10 && col == 40 {
                assert_eq!(cell, written);
            } else {
                assert_eq!(cell.ascii_char, 0x20);
                assert_eq!(cell.color_code, attr);
            }
        }
    }
}
