use rust_os::vga_buffer::{Color, ColorCode, ScreenChar, Writer, BUFFER_HEIGHT, BUFFER_WIDTH};

fn writer() -> Writer {
    Writer::new(ColorCode::new(Color::LightGreen, Color::Black))
}

fn row_text(writer: &Writer, row: usize) -> String {
    (0..BUFFER_WIDTH).map(|col| char::from(writer.read(row, col).ascii_character)).collect()
}

#[test]
fn color_code_packs_two_colors() {
    assert_eq!(ColorCode::new(Color::LightGreen, Color::Black), ColorCode(0x0a));
    assert_eq!(ColorCode::new(Color::Yellow, Color::Blue), ColorCode(0x1e));
    assert_eq!(ColorCode::new(Color::Black, Color::White), ColorCode(0xf0));
    assert_eq!(ColorCode::new(Color::White, Color::White), ColorCode(0xff));
    assert_eq!(Color::Pink.as_u8(), 13);
    assert_eq!(Color::Black.as_u8(), 0);
}

#[test]
fn new_writer_shows_blanks() {
    let w = writer();
    assert_eq!(w.column_position(), 0);
    assert_eq!(w.chars().len(), BUFFER_HEIGHT * BUFFER_WIDTH);
    let blank = ScreenChar { ascii_character: b' ', color_code: ColorCode(0x0a) };
    assert!(w.chars().iter().all(|c| *c == blank));
}

#[test]
fn test_println_simple() {
    let mut w = writer();
    w.write_string("test_println_simple output\n");
    assert_eq!(row_text(&w, BUFFER_HEIGHT - 2).trim_end(), "test_println_simple output");
    assert_eq!(w.column_position(), 0);
}

#[test]
fn test_println_many() {
    let mut w = writer();
    for _ in 0..200 {
        w.write_string("test_println_many output\n");
    }
    for row in 0..BUFFER_HEIGHT - 1 {
        assert_eq!(row_text(&w, row).trim_end(), "test_println_many output");
    }
    assert_eq!(row_text(&w, BUFFER_HEIGHT - 1).trim_end(), "");
}

#[test]
fn test_println_output() {
    let s = "Some string that fits on one line";
    let mut w = writer();
    w.write_string("\n");
    w.write_string(s);
    w.write_string("\n");
    for (i, c) in s.chars().enumerate() {
        let screen_char = w.read(BUFFER_HEIGHT - 2, i);
        assert_eq!(char::from(screen_char.ascii_character), c);
    }
}

#[test]
fn bytes_go_to_the_bottom_row() {
    let mut w = writer();
    w.write_byte(b'H');
    w.write_byte(b'i');
    assert_eq!(w.column_position(), 2);
    assert_eq!(w.read(24, 0), ScreenChar { ascii_character: b'H', color_code: ColorCode(0x0a) });
    assert_eq!(w.read(24, 1), ScreenChar { ascii_character: b'i', color_code: ColorCode(0x0a) });
    assert_eq!(w.read(24, 2).ascii_character, b' ');
    assert_eq!(w.read(23, 0).ascii_character, b' ');
}

#[test]
fn full_row_wraps_to_a_new_line() {
    let mut w = writer();
    for _ in 0..80 {
        w.write_byte(b'x');
    }
    assert_eq!(w.column_position(), 80);
    assert_eq!(row_text(&w, 24), "x".repeat(80));
    w.write_byte(b'y');
    assert_eq!(w.column_position(), 1);
    assert_eq!(row_text(&w, 23), "x".repeat(80));
    assert_eq!(row_text(&w, 24).trim_end(), "y");
}

#[test]
fn unprintable_bytes_show_as_squares() {
    let mut w = writer();
    w.write_string("a\u{7f}b\tö");
    let shown: Vec<u8> = (0..6).map(|col| w.read(24, col).ascii_character).collect();
    assert_eq!(shown, vec![b'a', 0xfe, b'b', 0xfe, 0xfe, 0xfe]);
    assert_eq!(w.column_position(), 6);
}

#[test]
fn backspace_removes_the_last_byte() {
    let mut w = writer();
    w.write_string("ab\u{8}");
    assert_eq!(w.column_position(), 1);
    assert_eq!(w.read(24, 0).ascii_character, b'a');
    assert_eq!(w.read(24, 1), ScreenChar { ascii_character: 0, color_code: ColorCode(0) });
    w.remove_byte();
    assert_eq!(w.column_position(), 0);
    assert_eq!(w.read(24, 0), ScreenChar { ascii_character: 0, color_code: ColorCode(0) });
    // at the start of the row nothing is removed
    w.remove_byte();
    assert_eq!(w.column_position(), 0);
    w.write_string("\u{8}c");
    assert_eq!(w.read(24, 0).ascii_character, b'c');
    assert_eq!(w.column_position(), 1);
}
