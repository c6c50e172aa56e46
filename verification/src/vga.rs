//! Text output on the 320x200, 256-colour VGA framebuffer.
//!
//! A [`Writer`] keeps a text cursor over a grid of 8x8 character cells and a
//! copy of the framebuffer it draws into. Glyphs come from the `font8x8`
//! legacy table.
use vstd::prelude::*;
use vstd::string::StringSliceAdditionalSpecFns;

verus! {

/// Framebuffer width in pixels.
pub const WIDTH: usize = 320;
/// Framebuffer height in pixels.
pub const HEIGHT: usize = 200;
/// Number of pixels in the framebuffer.
pub const FB_LEN: usize = 64000;
/// Width of one character cell in pixels.
pub const CHAR_W: usize = 8;
/// Height of one character cell in pixels.
pub const CHAR_H: usize = 8;
/// Number of character columns on screen.
pub const COLS: usize = 40;
/// Number of character rows on screen.
pub const ROWS: usize = 25;
/// Palette index of the background colour.
pub const COLOR_BG: u8 = 0;
/// Palette index of the text colour.
pub const COLOR_FG: u8 = 15;
/// Number of glyphs in the legacy font table.
pub const GLYPH_COUNT: u8 = 128;

/// The eight rows of the legacy `font8x8` glyph with the given index; bit `x`
/// of row `y` is the pixel in column `x`.
pub uninterp spec fn basic_legacy_glyph(index: u8) -> Seq<u8>;

/// Reads `font8x8::legacy::BASIC_LEGACY[index]`, the bitmap of one glyph of
/// the legacy 128-glyph table. The table is a constant of that crate: the
/// result is named by `basic_legacy_glyph`, and nothing more is claimed.
#[verifier::external_body]
fn legacy_glyph_rows(index: u8) -> (rows: [u8; 8])
    requires
        index < GLYPH_COUNT,
    ensures
        rows@ == basic_legacy_glyph(index),
{
    font8x8::legacy::BASIC_LEGACY[index as usize]
}

/// What the screen holds: the cursor and every pixel.
pub struct Screen {
    pub col: nat,
    pub row: nat,
    pub pixels: Seq<u8>,
}

/// The glyph drawn for byte `c`: bytes above 127 use glyph 127.
pub open spec fn glyph_index(c: u8) -> u8 {
    if c < 127 { c } else { 127 }
}

/// Whether pixel (`x`, `y`) of the glyph for `c` is set.
pub open spec fn glyph_bit(c: u8, y: int, x: int) -> bool {
    (basic_legacy_glyph(glyph_index(c))[y] >> (x as usize)) & 1u8 == 1u8
}

/// The colour of pixel (`x`, `y`) of a cell that shows `c`.
pub open spec fn glyph_color(c: u8, y: int, x: int) -> u8 {
    if glyph_bit(c, y, x) { COLOR_FG } else { COLOR_BG }
}

/// Whether framebuffer index `i` lies in the character cell (`col`, `row`).
pub open spec fn in_cell(i: int, col: int, row: int) -> bool {
    &&& row * 8 <= i / 320 < row * 8 + 8
    &&& col * 8 <= i % 320 < col * 8 + 8
}

/// The framebuffer after drawing `c` into cell (`col`, `row`): every pixel
/// of the cell takes the glyph's colour, every other pixel is kept.
pub open spec fn draw_char_spec(pixels: Seq<u8>, col: int, row: int, c: u8) -> Seq<u8> {
    Seq::new(
        pixels.len(),
        |i: int|
            if in_cell(i, col, row) {
                glyph_color(c, i / 320 - row * 8, i % 320 - col * 8)
            } else {
                pixels[i]
            },
    )
}

/// The framebuffer moved up by one text row, the freed bottom row cleared.
pub open spec fn scroll_spec(pixels: Seq<u8>) -> Seq<u8> {
    Seq::new(
        pixels.len(),
        |i: int| if i < 61440 { pixels[i + 2560] } else { COLOR_BG },
    )
}

/// The screen after a line feed: the cursor goes to the start of the next
/// row, or the screen scrolls when the cursor is on the last row.
pub open spec fn new_line_spec(s: Screen) -> Screen {
    if s.row < ROWS - 1 {
        Screen { col: 0, row: s.row + 1, pixels: s.pixels }
    } else {
        Screen { col: 0, row: s.row, pixels: scroll_spec(s.pixels) }
    }
}

/// The screen after writing one byte: a line feed moves to the next line;
/// any other byte wraps to the next line when the row is full, is drawn at
/// the cursor, and moves the cursor right.
pub open spec fn write_byte_spec(s: Screen, b: u8) -> Screen {
    if b == 10 {
        new_line_spec(s)
    } else {
        let t = if s.col >= COLS { new_line_spec(s) } else { s };
        Screen { col: t.col + 1, row: t.row, pixels: draw_char_spec(t.pixels, t.col as int, t.row as int, b) }
    }
}

/// The byte that `write_str` writes for `b`: printable ASCII and line feeds
/// pass, anything else becomes `?`.
pub open spec fn printable_or_placeholder(b: u8) -> u8 {
    if (0x20 <= b && b <= 0x7e) || b == 10 { b } else { 0x3f }
}

/// The screen after writing each byte of `bytes` in turn, through
/// `printable_or_placeholder`.
pub open spec fn write_bytes_spec(s: Screen, bytes: Seq<u8>) -> Screen
    decreases bytes.len(),
{
    if bytes.len() == 0 {
        s
    } else {
        write_byte_spec(write_bytes_spec(s, bytes.drop_last()), printable_or_placeholder(bytes.last()))
    }
}

/// The screen after a backspace: the cursor moves one cell back (to the end
/// of the previous row from column 0; not at all from the top left corner)
/// and that cell is blanked.
pub open spec fn backspace_spec(s: Screen) -> Screen {
    if s.col == 0 && s.row == 0 {
        s
    } else {
        let col: nat = if s.col == 0 { (COLS - 1) as nat } else { (s.col - 1) as nat };
        let row: nat = if s.col == 0 { (s.row - 1) as nat } else { s.row };
        Screen { col, row, pixels: draw_char_spec(s.pixels, col as int, row as int, 0x20) }
    }
}

/// A well-formed screen: the cursor is on screen (a column equal to `COLS`
/// means the row is full) and the framebuffer has every pixel.
pub open spec fn screen_wf(s: Screen) -> bool {
    &&& s.col <= COLS
    &&& s.row < ROWS
    &&& s.pixels.len() == FB_LEN
}

/// The text cursor and the framebuffer it draws into.
pub struct Writer {
    col: usize,
    row: usize,
    fb: Vec<u8>,
}

impl Writer {
    /// The screen that this writer holds.
    pub closed spec fn screen(&self) -> Screen {
        Screen { col: self.col as nat, row: self.row as nat, pixels: self.fb@ }
    }

    /// The writer's invariant.
    pub open spec fn wf(&self) -> bool {
        screen_wf(self.screen())
    }

    /// A writer with the cursor at the top left of a blank screen.
    pub fn new() -> (w: Writer)
        ensures
            w.wf(),
            w.screen().col == 0,
            w.screen().row == 0,
            w.screen().pixels == Seq::new(FB_LEN as nat, |i: int| COLOR_BG),
    {
        let mut fb: Vec<u8> = Vec::new();
        let mut i: usize = 0;
        while i < FB_LEN
            invariant
                i <= FB_LEN,
                fb@.len() == i,
                forall|j: int| 0 <= j < i ==> fb@[j] == COLOR_BG,
            decreases FB_LEN - i,
        {
            fb.push(COLOR_BG);
            i = i + 1;
        }
        assert(fb@ == Seq::new(FB_LEN as nat, |i: int| COLOR_BG));
        Writer { col: 0, row: 0, fb }
    }

    /// The cursor's column.
    pub fn col(&self) -> (c: usize)
        ensures
            c == self.screen().col,
    {
        self.col
    }

    /// The cursor's row.
    pub fn row(&self) -> (r: usize)
        ensures
            r == self.screen().row,
    {
        self.row
    }

    /// The framebuffer's pixels, row by row.
    pub fn pixels(&self) -> (p: &[u8])
        ensures
            p@ == self.screen().pixels,
    {
        self.fb.as_slice()
    }

    /// Writes one byte at the cursor; see [`write_byte_spec`].
    pub fn write_byte(&mut self, byte: u8)
        requires
            old(self).wf(),
        ensures
            final(self).wf(),
            final(self).screen() == write_byte_spec(old(self).screen(), byte),
    {
        if byte == 10 {
            self.new_line();
        } else {
            if self.col >= COLS {
                self.new_line();
            }
            let col = self.col;
            let row = self.row;
            self.draw_char(col, row, byte);
            self.col = self.col + 1;
        }
    }

    /// Writes the bytes of `s`, each printable ASCII byte or line feed as it
    /// is and every other byte as `?`.
    pub fn write_str(&mut self, s: &str)
        requires
            old(self).wf(),
        ensures
            final(self).wf(),
            final(self).screen() == write_bytes_spec(old(self).screen(), s.spec_bytes()),
    {
        let bytes = s.as_bytes();
        let mut i: usize = 0;
        while i < bytes.len()
            invariant
                i <= bytes@.len(),
                bytes@ == s.spec_bytes(),
                self.wf(),
                self.screen() == write_bytes_spec(old(self).screen(), bytes@.subrange(0, i as int)),
            decreases bytes@.len() - i,
        {
            let b = bytes[i];
            let c = if (0x20 <= b && b <= 0x7e) || b == 10 { b } else { 0x3f };
            self.write_byte(c);
            assert(bytes@.subrange(0, i + 1).drop_last() == bytes@.subrange(0, i as int));
            i = i + 1;
        }
        assert(bytes@.subrange(0, bytes@.len() as int) == bytes@);
    }

    /// Moves the cursor back one cell and blanks it; see [`backspace_spec`].
    pub fn backspace(&mut self)
        requires
            old(self).wf(),
        ensures
            final(self).wf(),
            final(self).screen() == backspace_spec(old(self).screen()),
    {
        if self.col == 0 {
            if self.row == 0 {
                return;
            }
            self.row = self.row - 1;
            self.col = COLS - 1;
        } else {
            self.col = self.col - 1;
        }
        let col = self.col;
        let row = self.row;
        self.draw_char(col, row, 0x20);
    }

    /// Blanks the whole framebuffer and puts the cursor at the top left.
    pub fn clear_screen(&mut self)
        requires
            old(self).wf(),
        ensures
            final(self).wf(),
            final(self).screen().col == 0,
            final(self).screen().row == 0,
            final(self).screen().pixels == Seq::new(FB_LEN as nat, |i: int| COLOR_BG),
    {
        let mut i: usize = 0;
        while i < FB_LEN
            invariant
                i <= FB_LEN,
                self.fb@.len() == FB_LEN,
                self.col == old(self).col,
                self.row == old(self).row,
                forall|j: int| 0 <= j < i ==> self.fb@[j] == COLOR_BG,
            decreases FB_LEN - i,
        {
            self.fb.set(i, COLOR_BG);
            i = i + 1;
        }
        assert(self.fb@ == Seq::new(FB_LEN as nat, |i: int| COLOR_BG));
        self.col = 0;
        self.row = 0;
    }

    /// Sets pixel (`x`, `y`) to `color` when it is on screen; does nothing
    /// otherwise.
    pub fn draw_pixel(&mut self, x: usize, y: usize, color: u8)
        requires
            old(self).wf(),
        ensures
            final(self).wf(),
            final(self).screen().col == old(self).screen().col,
            final(self).screen().row == old(self).screen().row,
            final(self).screen().pixels == if x < WIDTH && y < HEIGHT {
                old(self).screen().pixels.update(y * 320 + x, color)
            } else {
                old(self).screen().pixels
            },
    {
        if x < WIDTH && y < HEIGHT {
            self.fb.set(y * WIDTH + x, color);
        }
    }

    fn new_line(&mut self)
        requires
            old(self).wf(),
        ensures
            final(self).wf(),
            final(self).screen() == new_line_spec(old(self).screen()),
    {
        if self.row < ROWS - 1 {
            self.row = self.row + 1;
        } else {
            self.scroll();
        }
        self.col = 0;
    }

    fn scroll(&mut self)
        requires
            old(self).wf(),
        ensures
            final(self).wf(),
            final(self).col == old(self).col,
            final(self).row == old(self).row,
            final(self).fb@ == scroll_spec(old(self).fb@),
    {
        let ghost before = self.fb@;
        let mut i: usize = 0;
        while i < 61440
            invariant
                i <= 61440,
                self.fb@.len() == FB_LEN,
                self.col == old(self).col,
                self.row == old(self).row,
                before.len() == FB_LEN,
                forall|j: int| 0 <= j < i ==> self.fb@[j] == before[j + 2560],
                forall|j: int| i <= j < FB_LEN ==> self.fb@[j] == before[j],
            decreases 61440 - i,
        {
            let v = self.fb[i + 2560];
            self.fb.set(i, v);
            i = i + 1;
        }
        while i < FB_LEN
            invariant
                61440 <= i <= FB_LEN,
                self.fb@.len() == FB_LEN,
                self.col == old(self).col,
                self.row == old(self).row,
                before.len() == FB_LEN,
                forall|j: int| 0 <= j < 61440 ==> self.fb@[j] == before[j + 2560],
                forall|j: int| 61440 <= j < i ==> self.fb@[j] == COLOR_BG,
            decreases FB_LEN - i,
        {
            self.fb.set(i, COLOR_BG);
            i = i + 1;
        }
        assert(self.fb@ == scroll_spec(before));
    }

    fn draw_char(&mut self, col: usize, row: usize, c: u8)
        requires
            old(self).wf(),
            col < COLS,
            row < ROWS,
        ensures
            final(self).col == old(self).col,
            final(self).row == old(self).row,
            final(self).fb@ == draw_char_spec(old(self).fb@, col as int, row as int, c),
    {
        let ghost before = self.fb@;
        let glyph = legacy_glyph_rows(if c < 127 { c } else { 127 });
        let base_x = col * CHAR_W;
        let base_y = row * CHAR_H;
        let mut y: usize = 0;
        while y < CHAR_H
            invariant
                y <= CHAR_H,
                col < COLS,
                row < ROWS,
                base_x == col * 8,
                base_y == row * 8,
                glyph@ == basic_legacy_glyph(glyph_index(c)),
                self.fb@.len() == FB_LEN,
                self.col == old(self).col,
                self.row == old(self).row,
                before.len() == FB_LEN,
                forall|i: int|
                    0 <= i < FB_LEN ==> #[trigger] self.fb@[i] == if in_cell(i, col as int, row as int)
                        && i / 320 - row * 8 < y {
                        glyph_color(c, i / 320 - row * 8, i % 320 - col * 8)
                    } else {
                        before[i]
                    },
            decreases CHAR_H - y,
        {
            let row_bits = glyph[y];
            let mut x: usize = 0;
            while x < CHAR_W
                invariant
                    y < CHAR_H,
                    x <= CHAR_W,
                    col < COLS,
                    row < ROWS,
                    base_x == col * 8,
                    base_y == row * 8,
                    row_bits == basic_legacy_glyph(glyph_index(c))[y as int],
                    self.fb@.len() == FB_LEN,
                    self.col == old(self).col,
                    self.row == old(self).row,
                    before.len() == FB_LEN,
                    forall|i: int|
                        0 <= i < FB_LEN ==> #[trigger] self.fb@[i] == if in_cell(i, col as int, row as int)
                            && (i / 320 - row * 8 < y || (i / 320 - row * 8 == y && i % 320 - col * 8 < x)) {
                            glyph_color(c, i / 320 - row * 8, i % 320 - col * 8)
                        } else {
                            before[i]
                        },
                decreases CHAR_W - x,
            {
                let on = (row_bits >> x) & 1 == 1;
                let color = if on { COLOR_FG } else { COLOR_BG };
                let p = (base_y + y) * WIDTH + base_x + x;
                proof {
                    vstd::arithmetic::div_mod::lemma_fundamental_div_mod_converse(
                        p as int,
                        320,
                        (base_y + y) as int,
                        (base_x + x) as int,
                    );
                    assert(glyph_color(c, y as int, x as int) == color);
                }
                self.fb.set(p, color);
                x = x + 1;
            }
            y = y + 1;
        }
        assert(self.fb@ == draw_char_spec(before, col as int, row as int, c));
    }
}

/// Drawing into a cell twice leaves only the second character: a cell's
/// pixels depend only on the last character drawn there.
pub proof fn lemma_draw_char_overwrites(pixels: Seq<u8>, col: int, row: int, a: u8, b: u8)
    ensures
        draw_char_spec(draw_char_spec(pixels, col, row, a), col, row, b) == draw_char_spec(
            pixels,
            col,
            row,
            b,
        ),
{
    assert(draw_char_spec(draw_char_spec(pixels, col, row, a), col, row, b) =~= draw_char_spec(
        pixels,
        col,
        row,
        b,
    ));
}

/// Backspace erases the character just written: writing a byte other than
/// a line feed into a row that is not full and then backing up returns the
/// cursor to where it was, with that cell blank.
pub proof fn lemma_backspace_erases_written_char(s: Screen, b: u8)
    requires
        screen_wf(s),
        s.col < COLS,
        b != 10,
    ensures
        backspace_spec(write_byte_spec(s, b)) == (Screen {
            col: s.col,
            row: s.row,
            pixels: draw_char_spec(s.pixels, s.col as int, s.row as int, 0x20),
        }),
{
    lemma_draw_char_overwrites(s.pixels, s.col as int, s.row as int, b, 0x20);
}

/// Writing `a` and then `b` is writing `a + b`: output does not depend on
/// how the text is cut into pieces.
pub proof fn lemma_write_bytes_append(s: Screen, a: Seq<u8>, b: Seq<u8>)
    ensures
        write_bytes_spec(write_bytes_spec(s, a), b) == write_bytes_spec(s, a + b),
    decreases b.len(),
{
    if b.len() == 0 {
        assert(a + b =~= a);
    } else {
        lemma_write_bytes_append(s, a, b.drop_last());
        assert((a + b).drop_last() =~= a + b.drop_last());
        assert((a + b).last() == b.last());
    }
}

/// The cursor never leaves the screen and the framebuffer keeps its size,
/// whatever bytes are written.
pub proof fn lemma_write_keeps_screen_wf(s: Screen, bytes: Seq<u8>)
    requires
        screen_wf(s),
    ensures
        screen_wf(write_bytes_spec(s, bytes)),
    decreases bytes.len(),
{
    if bytes.len() > 0 {
        lemma_write_keeps_screen_wf(s, bytes.drop_last());
    }
}

/// A backspace keeps the cursor on screen and the framebuffer's size.
pub proof fn lemma_backspace_keeps_screen_wf(s: Screen)
    requires
        screen_wf(s),
    ensures
        screen_wf(backspace_spec(s)),
{
}

/// `write_str` writes every printable ASCII byte (space through tilde) and
/// the line feed as itself, and every other byte as `?`; so writing one
/// such byte is `write_byte` of that byte.
pub proof fn lemma_printable_bytes_written_as_is(s: Screen, b: u8)
    ensures
        0x20 <= b <= 0x7e ==> printable_or_placeholder(b) == b,
        b == 10 ==> printable_or_placeholder(b) == b,
        !(0x20 <= b <= 0x7e) && b != 10 ==> printable_or_placeholder(b) == 0x3f,
        0x20 <= b <= 0x7e || b == 10 ==> write_bytes_spec(s, seq![b]) == write_byte_spec(s, b),
        !(0x20 <= b <= 0x7e) && b != 10 ==> write_bytes_spec(s, seq![b]) == write_byte_spec(s, 0x3f),
{
    assert(seq![b].drop_last() =~= Seq::<u8>::empty());
    assert(seq![b].last() == b);
    assert(write_bytes_spec(s, Seq::<u8>::empty()) == s);
    assert(write_bytes_spec(s, seq![b]) == write_byte_spec(
        write_bytes_spec(s, seq![b].drop_last()),
        printable_or_placeholder(b),
    ));
}

/// Every backspace that moves the cursor blanks the cell it moves to: back
/// one column within a row, or from column 0 to the last column of the row
/// above; only at the top left corner does it do nothing.
pub proof fn lemma_backspace_blanks_the_cell_it_moves_to(s: Screen)
    requires
        screen_wf(s),
    ensures
        s.col == 0 && s.row == 0 ==> backspace_spec(s) == s,
        s.col == 0 && s.row > 0 ==> backspace_spec(s) == (Screen {
            col: (COLS - 1) as nat,
            row: (s.row - 1) as nat,
            pixels: draw_char_spec(s.pixels, COLS - 1, s.row - 1, 0x20),
        }),
        s.col > 0 ==> backspace_spec(s) == (Screen {
            col: (s.col - 1) as nat,
            row: s.row,
            pixels: draw_char_spec(s.pixels, s.col - 1, s.row as int, 0x20),
        }),
{
}

} // verus!
