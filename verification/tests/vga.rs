use heorot::BUFFER_HEIGHT;
use heorot::BUFFER_WIDTH;
use heorot::buffer::Buffer;
use heorot::cell::ScreenChar;
use heorot::color::Color;
use heorot::color::ColorCode;
use heorot::writer::Writer;

fn all_colors() -> Vec<Color> {
    vec![
        Color::Black,
        Color::Blue,
        Color::Green,
        Color::Cyan,
        Color::Red,
        Color::Magenta,
        Color::Brown,
        Color::LightGray,
        Color::DarkGray,
        Color::LightBlue,
        Color::LightGreen,
        Color::LightCyan,
        Color::LightRed,
        Color::Pink,
        Color::Yellow,
        Color::White,
    ]
}

fn blank(attr: ColorCode) -> ScreenChar {
    ScreenChar { ascii_character: 0x20, color_code: attr }
}

fn fresh_writer() -> Writer {
    let attr = ColorCode::new(Color::Yellow, Color::Black);
    let buffer = Buffer::new(blank(attr));
    Writer::new(Color::Yellow, Color::Black, buffer)
}

#[test]
fn color_codes_are_fixed() {
    let colors = all_colors();
    for (i, c) in colors.iter().enumerate() {
        assert_eq!(c.code() as usize, i);
    }
}

#[test]
fn attribute_round_trips_for_all_pairs() {
    for fg in all_colors() {
        for bg in all_colors() {
            let attr = ColorCode::new(fg, bg);
            assert_eq!(attr.0 & 0x0f, fg.code());
            assert_eq!(attr.0 >> 4, bg.code());
        }
    }
}

#[test]
fn attribute_concrete_values() {
    assert_eq!(ColorCode::new(Color::Yellow, Color::Black).0, 0x0e);
    assert_eq!(ColorCode::new(Color::Black, Color::White).0, 0xf0);
    assert_eq!(ColorCode::new(Color::White, Color::Blue).0, 0x1f);
}

#[test]
fn new_buffer_is_filled() {
    let fill = ScreenChar { ascii_character: 0x20, color_code: ColorCode(0x07) };
    let b = Buffer::new(fill);
    for r in 0..BUFFER_HEIGHT {
        for c in 0..BUFFER_WIDTH {
            assert_eq!(b.read_cell(r, c), fill);
        }
    }
}

#[test]
fn cell_write_is_read_back() {
    let fill = ScreenChar { ascii_character: 0x20, color_code: ColorCode(0x07) };
    let mut b = Buffer::new(fill);
    let sc = ScreenChar { ascii_character: 0x41, color_code: ColorCode(0x1f) };
    b.write_cell(3, 17, sc);
    assert_eq!(b.read_cell(3, 17), sc);
    assert_eq!(b.read_cell(3, 16), fill);
    assert_eq!(b.read_cell(2, 17), fill);
}

#[test]
fn printable_byte_advances_column() {
    let mut w = fresh_writer();
    let attr = w.color_code;
    w.write_byte(b'A');
    assert_eq!(w.column_position, 1);
    let cell = w.buffer.read_cell(BUFFER_HEIGHT - 1, 0);
    assert_eq!(cell.ascii_character, b'A');
    assert_eq!(cell.color_code, attr);
    for r in 0..BUFFER_HEIGHT - 1 {
        for c in 0..BUFFER_WIDTH {
            assert_eq!(w.buffer.read_cell(r, c), blank(attr));
        }
    }
}

#[test]
fn newline_scrolls_and_resets_column() {
    let mut w = fresh_writer();
    let attr = w.color_code;
    w.write_byte(b'A');
    w.write_byte(b'B');
    w.write_byte(b'\n');
    assert_eq!(w.column_position, 0);
    let moved = w.buffer.read_cell(BUFFER_HEIGHT - 2, 0);
    assert_eq!(moved.ascii_character, b'A');
    assert_eq!(w.buffer.read_cell(BUFFER_HEIGHT - 2, 1).ascii_character, b'B');
    for c in 0..BUFFER_WIDTH {
        assert_eq!(w.buffer.read_cell(BUFFER_HEIGHT - 1, c), blank(attr));
    }
}

#[test]
fn full_line_wraps_through_one_scroll() {
    let mut w = fresh_writer();
    let attr = w.color_code;
    for _ in 0..BUFFER_WIDTH {
        w.write_byte(b'X');
    }
    assert_eq!(w.column_position, BUFFER_WIDTH);
    w.write_byte(b'Y');
    assert_eq!(w.column_position, 1);
    for c in 0..BUFFER_WIDTH {
        assert_eq!(w.buffer.read_cell(BUFFER_HEIGHT - 2, c).ascii_character, b'X');
    }
    assert_eq!(w.buffer.read_cell(BUFFER_HEIGHT - 1, 0).ascii_character, b'Y');
    for c in 1..BUFFER_WIDTH {
        assert_eq!(w.buffer.read_cell(BUFFER_HEIGHT - 1, c), blank(attr));
    }
    for c in 0..BUFFER_WIDTH {
        assert_eq!(w.buffer.read_cell(BUFFER_HEIGHT - 3, c), blank(attr));
    }
}

#[test]
fn newline_after_full_line_scrolls_once() {
    let mut w = fresh_writer();
    let attr = w.color_code;
    for _ in 0..BUFFER_WIDTH {
        w.write_byte(b'X');
    }
    w.write_byte(b'\n');
    assert_eq!(w.column_position, 0);
    for c in 0..BUFFER_WIDTH {
        assert_eq!(w.buffer.read_cell(BUFFER_HEIGHT - 2, c).ascii_character, b'X');
        assert_eq!(w.buffer.read_cell(BUFFER_HEIGHT - 1, c), blank(attr));
        assert_eq!(w.buffer.read_cell(BUFFER_HEIGHT - 3, c), blank(attr));
    }
}

#[test]
fn non_printable_bytes_become_placeholder() {
    let mut w = fresh_writer();
    w.write_string("\x00");
    w.write_string("\x7f");
    assert_eq!(w.column_position, 2);
    assert_eq!(w.buffer.read_cell(BUFFER_HEIGHT - 1, 0).ascii_character, 0xfe);
    assert_eq!(w.buffer.read_cell(BUFFER_HEIGHT - 1, 1).ascii_character, 0xfe);
}

#[test]
fn multibyte_char_becomes_placeholders() {
    let mut w = fresh_writer();
    w.write_string("\u{00e9}");
    assert_eq!(w.column_position, 2);
    assert_eq!(w.buffer.read_cell(BUFFER_HEIGHT - 1, 0).ascii_character, 0xfe);
    assert_eq!(w.buffer.read_cell(BUFFER_HEIGHT - 1, 1).ascii_character, 0xfe);
}

#[test]
fn single_line_round_trip() {
    let mut w = fresh_writer();
    let attr = w.color_code;
    let s = "Test string that fits on a single line";
    assert_eq!(s.len(), 38);
    w.write_string(s);
    assert_eq!(w.column_position, 38);
    for (i, byte) in s.bytes().enumerate() {
        let cell = w.buffer.read_cell(BUFFER_HEIGHT - 1, i);
        assert_eq!(cell.ascii_character, byte);
        assert_eq!(cell.color_code, attr);
    }
    for c in 38..BUFFER_WIDTH {
        assert_eq!(w.buffer.read_cell(BUFFER_HEIGHT - 1, c), blank(attr));
    }
}

#[test]
fn back_to_back_writes_equal_one_sequential_write() {
    let mut w1 = fresh_writer();
    w1.write_string("first call\n");
    w1.write_string("second call");

    let mut w2 = fresh_writer();
    w2.write_string("first call\nsecond call");

    assert_eq!(w1.column_position, w2.column_position);
    for r in 0..BUFFER_HEIGHT {
        for c in 0..BUFFER_WIDTH {
            assert_eq!(w1.buffer.read_cell(r, c), w2.buffer.read_cell(r, c));
        }
    }
}

#[test]
fn repeated_lines_keep_only_the_most_recent() {
    let mut w = fresh_writer();
    let attr = w.color_code;
    for _ in 0..200 {
        w.write_string("hello\n");
    }
    assert_eq!(w.column_position, 0);
    for r in 0..BUFFER_HEIGHT - 1 {
        assert_eq!(w.buffer.read_cell(r, 0).ascii_character, b'h');
        assert_eq!(w.buffer.read_cell(r, 1).ascii_character, b'e');
        assert_eq!(w.buffer.read_cell(r, 2).ascii_character, b'l');
        assert_eq!(w.buffer.read_cell(r, 3).ascii_character, b'l');
        assert_eq!(w.buffer.read_cell(r, 4).ascii_character, b'o');
        for c in 5..BUFFER_WIDTH {
            assert_eq!(w.buffer.read_cell(r, c), blank(attr));
        }
    }
    for c in 0..BUFFER_WIDTH {
        assert_eq!(w.buffer.read_cell(BUFFER_HEIGHT - 1, c), blank(attr));
    }
}

#[test]
fn empty_string_changes_nothing() {
    let mut w = fresh_writer();
    let attr = w.color_code;
    w.write_string("");
    assert_eq!(w.column_position, 0);
    for r in 0..BUFFER_HEIGHT {
        for c in 0..BUFFER_WIDTH {
            assert_eq!(w.buffer.read_cell(r, c), blank(attr));
        }
    }
}
