use xv0::vga::{Writer, COLOR_BG, COLOR_FG, COLS, FB_LEN, ROWS, WIDTH};

fn glyph_pixel(c: u8, y: usize, x: usize) -> u8 {
    let g = font8x8::legacy::BASIC_LEGACY[if c < 127 { c as usize } else { 127 }];
    if (g[y] >> x) & 1 == 1 {
        COLOR_FG
    } else {
        COLOR_BG
    }
}

fn cell_shows(w: &Writer, col: usize, row: usize, c: u8) -> bool {
    let p = w.pixels();
    for y in 0..8 {
        for x in 0..8 {
            if p[(row * 8 + y) * WIDTH + col * 8 + x] != glyph_pixel(c, y, x) {
                return false;
            }
        }
    }
    true
}

#[test]
fn new_writer_is_blank_at_origin() {
    let w = Writer::new();
    assert_eq!(w.col(), 0);
    assert_eq!(w.row(), 0);
    assert_eq!(w.pixels().len(), FB_LEN);
    assert!(w.pixels().iter().all(|&p| p == COLOR_BG));
}

#[test]
fn write_byte_draws_the_font_glyph() {
    let mut w = Writer::new();
    w.write_byte(b'A');
    assert_eq!(w.col(), 1);
    assert_eq!(w.row(), 0);
    assert!(cell_shows(&w, 0, 0, b'A'));
    // The glyph is not blank, so the font table was really consulted.
    assert!(w.pixels().iter().any(|&p| p == COLOR_FG));
    // Nothing outside the first cell changed.
    for i in 0..FB_LEN {
        let (x, y) = (i % WIDTH, i / WIDTH);
        if x >= 8 || y >= 8 {
            assert_eq!(w.pixels()[i], COLOR_BG);
        }
    }
}

#[test]
fn line_feed_moves_to_next_row() {
    let mut w = Writer::new();
    w.write_byte(b'x');
    w.write_byte(b'\n');
    assert_eq!(w.col(), 0);
    assert_eq!(w.row(), 1);
}

#[test]
fn full_row_wraps_before_drawing() {
    let mut w = Writer::new();
    for _ in 0..COLS {
        w.write_byte(b'a');
    }
    assert_eq!(w.col(), COLS);
    assert_eq!(w.row(), 0);
    w.write_byte(b'b');
    assert_eq!(w.col(), 1);
    assert_eq!(w.row(), 1);
    assert!(cell_shows(&w, 0, 1, b'b'));
}

#[test]
fn last_row_line_feed_scrolls() {
    let mut w = Writer::new();
    w.write_byte(b'\n');
    w.write_byte(b'Z');
    for _ in 0..(ROWS - 2) {
        w.write_byte(b'\n');
    }
    assert_eq!(w.row(), ROWS - 1);
    assert!(cell_shows(&w, 0, 1, b'Z'));
    w.write_byte(b'\n');
    assert_eq!(w.row(), ROWS - 1);
    assert_eq!(w.col(), 0);
    assert!(cell_shows(&w, 0, 0, b'Z'));
    assert!(cell_shows(&w, 0, 1, b' '));
}

#[test]
fn backspace_at_origin_does_nothing() {
    let mut w = Writer::new();
    w.backspace();
    assert_eq!(w.col(), 0);
    assert_eq!(w.row(), 0);
}

#[test]
fn backspace_erases_the_last_character() {
    let mut w = Writer::new();
    w.write_byte(b'A');
    w.write_byte(b'B');
    w.backspace();
    assert_eq!(w.col(), 1);
    assert!(cell_shows(&w, 0, 0, b'A'));
    assert!(cell_shows(&w, 1, 0, b' '));
}

#[test]
fn backspace_from_column_zero_goes_to_previous_row_end() {
    let mut w = Writer::new();
    w.write_byte(b'\n');
    w.backspace();
    assert_eq!(w.row(), 0);
    assert_eq!(w.col(), COLS - 1);
}

#[test]
fn write_str_replaces_unprintable_bytes() {
    let mut w = Writer::new();
    w.write_str("h\u{e9}\t");
    // 'h', two bytes of the accented letter, and the tab: four cells.
    assert_eq!(w.col(), 4);
    assert!(cell_shows(&w, 0, 0, b'h'));
    assert!(cell_shows(&w, 1, 0, b'?'));
    assert!(cell_shows(&w, 2, 0, b'?'));
    assert!(cell_shows(&w, 3, 0, b'?'));
}

#[test]
fn write_str_keeps_line_feeds() {
    let mut w = Writer::new();
    w.write_str("ab\ncd");
    assert_eq!(w.row(), 1);
    assert_eq!(w.col(), 2);
    assert!(cell_shows(&w, 1, 1, b'd'));
}

#[test]
fn high_bytes_use_the_last_glyph() {
    let mut w = Writer::new();
    w.write_byte(200);
    assert!(cell_shows(&w, 0, 0, 127));
}

#[test]
fn clear_screen_blanks_and_homes() {
    let mut w = Writer::new();
    w.write_str("hello\nworld");
    w.clear_screen();
    assert_eq!(w.col(), 0);
    assert_eq!(w.row(), 0);
    assert!(w.pixels().iter().all(|&p| p == COLOR_BG));
}

#[test]
fn draw_pixel_only_on_screen() {
    let mut w = Writer::new();
    w.draw_pixel(319, 199, 7);
    assert_eq!(w.pixels()[199 * 320 + 319], 7);
    w.draw_pixel(320, 0, 9);
    w.draw_pixel(0, 200, 9);
    assert_eq!(w.pixels().iter().filter(|&&p| p != COLOR_BG).count(), 1);
}

#[test]
fn writing_in_pieces_equals_writing_at_once() {
    let mut a = Writer::new();
    a.write_str("Unknown command: ");
    a.write_str("foo");
    a.write_str("\n");
    let mut b = Writer::new();
    b.write_str("Unknown command: foo\n");
    assert_eq!(a.col(), b.col());
    assert_eq!(a.row(), b.row());
    assert_eq!(a.pixels(), b.pixels());
}

#[test]
fn cursor_stays_on_screen_after_long_text() {
    let mut w = Writer::new();
    for i in 0..3000u32 {
        w.write_byte((i % 96) as u8 + 10);
        assert!(w.col() <= COLS);
        assert!(w.row() < ROWS);
    }
}
