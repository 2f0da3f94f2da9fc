use rustkernel::hex::hex_string;
use rustkernel::vga_buffer::Color;
use rustkernel::vga_buffer::ColorCode;
use rustkernel::vga_buffer::Writer;
use rustkernel::vga_buffer::BUFFER_HEIGHT;
use rustkernel::vga_buffer::BUFFER_WIDTH;

fn writer() -> Writer {
    Writer::new(ColorCode::new(Color::LightGray, Color::Black))
}

#[test]
fn color_code_packs_background_high() {
    assert_eq!(ColorCode::new(Color::LightGray, Color::Black).0, 0x07);
    assert_eq!(ColorCode::new(Color::Yellow, Color::Blue).0, 0x1e);
}

#[test]
fn test_print_simple() {
    let mut w = writer();
    w.write_string("vga buffer output tested");
    for (i, byte) in "vga buffer output tested".bytes().enumerate() {
        assert_eq!(w.buffer[BUFFER_HEIGHT - 1][i].ascii_character, byte);
    }
}

#[test]
fn test_print_many() {
    let mut w = writer();
    for _ in 0..200 {
        w.write_string("vga buffer output tested");
    }
    assert!(w.column_position <= BUFFER_WIDTH);
}

#[test]
fn test_println_output() {
    let mut w = writer();
    let s = "this is a test output string";
    w.write_string("\n");
    w.write_string(s);
    w.write_string("\n");
    for (i, c) in s.chars().enumerate() {
        let screen_char = w.buffer[BUFFER_HEIGHT - 2][i];
        assert_eq!(char::from(screen_char.ascii_character), c);
    }
}

#[test]
fn long_lines_wrap_to_a_new_line() {
    let mut w = writer();
    for _ in 0..85 {
        w.write_byte(b'x');
    }
    // The first 80 'x's scrolled up one row; five follow on the bottom.
    assert_eq!(w.column_position, 5);
    for i in 0..80 {
        assert_eq!(w.buffer[BUFFER_HEIGHT - 2][i].ascii_character, b'x');
    }
    for i in 0..5 {
        assert_eq!(w.buffer[BUFFER_HEIGHT - 1][i].ascii_character, b'x');
    }
}

#[test]
fn unprintable_bytes_become_replacement_blocks() {
    let mut w = writer();
    w.write_string("a\u{7f}b");
    assert_eq!(w.buffer[BUFFER_HEIGHT - 1][0].ascii_character, b'a');
    assert_eq!(w.buffer[BUFFER_HEIGHT - 1][1].ascii_character, 0xfe);
    assert_eq!(w.buffer[BUFFER_HEIGHT - 1][2].ascii_character, b'b');
}

#[test]
fn hex_rendering_matches_the_reports() {
    assert_eq!(hex_string(0), "0x0");
    assert_eq!(hex_string(255), "0xff");
    assert_eq!(hex_string(0xdead_beef), "0xdeadbeef");
    assert_eq!(hex_string(u64::MAX), "0xffffffffffffffff");
}
