//! A model of the text-mode console writer: a 20-row, 80-column screen of
//! colored characters, with the column tracking, line wrapping and
//! scrolling the console performs. On the machine the buffer is the
//! memory-mapped video frame; here it is owned data, and the code that
//! copies it to the frame is the kernel's hardware boundary.

use vstd::prelude::*;
use vstd::string::StringSliceAdditionalSpecFns;

verus! {

/// The sixteen hardware text-mode colors, in their hardware order.
#[allow(dead_code)]
#[derive(Clone, Copy, Debug, PartialEq, Eq, Structural)]
pub enum Color {
    Black,
    Blue,
    Green,
    Cyan,
    Red,
    Magenta,
    Brown,
    LightGray,
    DarkGray,
    LightBlue,
    LightGreen,
    LightCyan,
    LightRed,
    Pink,
    Yellow,
    White,
}

impl Color {
    /// The 4-bit color number the hardware uses.
    pub open spec fn spec_as_u8(self) -> u8 {
        match self {
            Color::Black => 0,
            Color::Blue => 1,
            Color::Green => 2,
            Color::Cyan => 3,
            Color::Red => 4,
            Color::Magenta => 5,
            Color::Brown => 6,
            Color::LightGray => 7,
            Color::DarkGray => 8,
            Color::LightBlue => 9,
            Color::LightGreen => 10,
            Color::LightCyan => 11,
            Color::LightRed => 12,
            Color::Pink => 13,
            Color::Yellow => 14,
            Color::White => 15,
        }
    }

    /// The 4-bit color number the hardware uses.
    pub fn as_u8(self) -> (r: u8)
        ensures
            r == self.spec_as_u8(),
            r < 16,
    {
        match self {
            Color::Black => 0,
            Color::Blue => 1,
            Color::Green => 2,
            Color::Cyan => 3,
            Color::Red => 4,
            Color::Magenta => 5,
            Color::Brown => 6,
            Color::LightGray => 7,
            Color::DarkGray => 8,
            Color::LightBlue => 9,
            Color::LightGreen => 10,
            Color::LightCyan => 11,
            Color::LightRed => 12,
            Color::Pink => 13,
            Color::Yellow => 14,
            Color::White => 15,
        }
    }
}

/// A packed color byte: background in the high nibble, foreground in the
/// low one.
#[derive(Clone, Copy, Debug, PartialEq, Eq, Structural)]
pub struct ColorCode(pub u8);

impl ColorCode {
    /// Packs a foreground and background color.
    pub fn new(foreground: Color, background: Color) -> (r: ColorCode)
        ensures
            r.0 == background.spec_as_u8() * 16 + foreground.spec_as_u8(),
    {
        let f = foreground.as_u8();
        let b = background.as_u8();
        proof {
            assert(f < 16 && b < 16 ==> ((b << 4) | f) == b * 16 + f) by (bit_vector);
        }
        ColorCode((b << 4) | f)
    }
}

/// One screen cell: a code-page character and its colors.
#[derive(Clone, Copy, Debug, PartialEq, Eq, Structural)]
pub struct ScreenChar {
    pub ascii_character: u8,
    pub color_code: ColorCode,
}

/// The screen's fixed width in columns.
pub const BUFFER_WIDTH: usize = 80;

/// The screen's fixed height in rows.
pub const BUFFER_HEIGHT: usize = 20;

/// A blank cell in the given colors.
pub open spec fn blank_char(color: ColorCode) -> ScreenChar {
    ScreenChar { ascii_character: 32, color_code: color }
}

/// A blank row in the given colors.
pub open spec fn blank_row(color: ColorCode) -> Seq<ScreenChar> {
    Seq::new(80, |c: int| blank_char(color))
}

/// The screen after scrolling: every row moves up one, and a blank row
/// enters at the bottom.
pub open spec fn scrolled(rows: Seq<Seq<ScreenChar>>, color: ColorCode) -> Seq<Seq<ScreenChar>> {
    rows.subrange(1, rows.len() as int).push(blank_row(color))
}

/// The screen and column after writing one byte: a newline scrolls, any
/// other byte lands at the cursor on the bottom row, scrolling first when
/// the line is full.
pub open spec fn spec_write_byte(
    rows: Seq<Seq<ScreenChar>>,
    col: int,
    color: ColorCode,
    byte: u8,
) -> (Seq<Seq<ScreenChar>>, int) {
    if byte == 10 {
        (scrolled(rows, color), 0)
    } else {
        let rows0 = if col >= 80 {
            scrolled(rows, color)
        } else {
            rows
        };
        let col0: int = if col >= 80 {
            0
        } else {
            col
        };
        (
            rows0.update(
                19,
                rows0[19].update(col0, ScreenChar { ascii_character: byte, color_code: color }),
            ),
            col0 + 1,
        )
    }
}

/// The screen and column after writing a byte string, one byte at a time:
/// printable bytes and newlines as they are, anything else as the
/// replacement character 0xfe.
pub open spec fn spec_write_bytes(
    rows: Seq<Seq<ScreenChar>>,
    col: int,
    color: ColorCode,
    bytes: Seq<u8>,
) -> (Seq<Seq<ScreenChar>>, int)
    decreases bytes.len(),
{
    if bytes.len() == 0 {
        (rows, col)
    } else {
        let b = bytes[0];
        let printed: u8 = if 0x20 <= b <= 0x7e || b == 10 {
            b
        } else {
            0xfe
        };
        let step = spec_write_byte(rows, col, color, printed);
        spec_write_bytes(step.0, step.1, color, bytes.drop_first())
    }
}

/// The console writer: the screen contents, the cursor column on the
/// bottom row, and the colors new characters take.
pub struct Writer {
    pub column_position: usize,
    pub color_code: ColorCode,
    pub buffer: Vec<Vec<ScreenChar>>,
}

impl Writer {
    /// The screen holds its 20 rows of 80 columns, and the cursor is
    /// within the line.
    pub open spec fn wf(self) -> bool {
        &&& self.buffer.len() == 20
        &&& (forall|r: int| 0 <= r < 20 ==> (#[trigger] self.buffer[r]).len() == 80)
        &&& self.column_position <= 80
    }

    /// The screen contents as a sequence of rows.
    pub open spec fn rows(self) -> Seq<Seq<ScreenChar>> {
        Seq::new(self.buffer@.len(), |r: int| self.buffer[r]@)
    }

    /// A blank screen in the given colors, cursor at the line start.
    pub fn new(color_code: ColorCode) -> (w: Writer)
        ensures
            w.wf(),
            w.column_position == 0,
            w.color_code == color_code,
            w.rows() == Seq::new(20, |r: int| blank_row(color_code)),
    {
        let mut buffer: Vec<Vec<ScreenChar>> = Vec::new();
        let mut r: usize = 0;
        while r < 20
            invariant
                r <= 20,
                buffer.len() == r,
                forall|i: int| 0 <= i < r ==> (#[trigger] buffer[i])@ == blank_row(color_code),
            decreases 20 - r,
        {
            let mut row: Vec<ScreenChar> = Vec::new();
            let mut c: usize = 0;
            while c < 80
                invariant
                    c <= 80,
                    row.len() == c,
                    forall|i: int| 0 <= i < c ==> row[i] == blank_char(color_code),
                decreases 80 - c,
            {
                row.push(ScreenChar { ascii_character: 32, color_code });
                c = c + 1;
            }
            proof {
                assert(row@ =~= blank_row(color_code));
            }
            buffer.push(row);
            r = r + 1;
        }
        let w = Writer { column_position: 0, color_code, buffer };
        proof {
            assert(w.rows() =~= Seq::new(20, |r: int| blank_row(color_code)));
        }
        w
    }

    /// Clears one row to blanks in the current colors.
    fn clear_row(&mut self, row: usize)
        requires
            old(self).wf(),
            row < 20,
        ensures
            final(self).wf(),
            final(self).color_code == old(self).color_code,
            final(self).column_position == old(self).column_position,
            final(self).rows() == old(self).rows().update(row as int, blank_row(
                old(self).color_code,
            )),
    {
        let blank = ScreenChar { ascii_character: 32u8, color_code: self.color_code };
        let mut col: usize = 0;
        while col < 80
            invariant
                old(self).wf(),
                row < 20,
                col <= 80,
                blank == blank_char(old(self).color_code),
                self.color_code == old(self).color_code,
                self.column_position == old(self).column_position,
                self.buffer.len() == 20,
                forall|r: int| 0 <= r < 20 ==> (#[trigger] self.buffer[r]).len() == 80,
                forall|r: int|
                    0 <= r < 20 && r != row ==> (#[trigger] self.buffer[r])@ == old(
                        self,
                    ).buffer[r]@,
                forall|c: int|
                    0 <= c < col ==> self.buffer[row as int]@[c] == blank_char(
                        old(self).color_code,
                    ),
                forall|c: int|
                    col <= c < 80 ==> self.buffer[row as int]@[c] == old(
                        self,
                    ).buffer[row as int]@[c],
            decreases 80 - col,
        {
            self.buffer[row][col] = blank;
            col = col + 1;
        }
        proof {
            assert(self.buffer[row as int]@ =~= blank_row(old(self).color_code));
            assert(self.rows() =~~= old(self).rows().update(
                row as int,
                blank_row(old(self).color_code),
            ));
        }
    }

    /// Scrolls the screen: each row moves up one, the bottom row is
    /// cleared, and the cursor returns to the line start.
    fn new_line(&mut self)
        requires
            old(self).wf(),
        ensures
            final(self).wf(),
            final(self).color_code == old(self).color_code,
            final(self).column_position == 0,
            final(self).rows() == scrolled(old(self).rows(), old(self).color_code),
    {
        let mut row: usize = 0;
        while row < 19
            invariant
                old(self).wf(),
                row <= 19,
                self.color_code == old(self).color_code,
                self.column_position == old(self).column_position,
                self.buffer.len() == 20,
                forall|r: int| 0 <= r < 20 ==> (#[trigger] self.buffer[r]).len() == 80,
                forall|r: int|
                    0 <= r < row ==> (#[trigger] self.buffer[r])@ == old(self).buffer[r + 1]@,
                forall|r: int|
                    row <= r < 20 ==> (#[trigger] self.buffer[r])@ == old(self).buffer[r]@,
            decreases 19 - row,
        {
            let mut col: usize = 0;
            while col < 80
                invariant
                    old(self).wf(),
                    row < 19,
                    col <= 80,
                    self.color_code == old(self).color_code,
                    self.column_position == old(self).column_position,
                    self.buffer.len() == 20,
                    forall|r: int| 0 <= r < 20 ==> (#[trigger] self.buffer[r]).len() == 80,
                    forall|r: int|
                        0 <= r < row ==> (#[trigger] self.buffer[r])@ == old(self).buffer[r + 1]@,
                    forall|r: int|
                        row < r < 20 ==> (#[trigger] self.buffer[r])@ == old(self).buffer[r]@,
                    forall|c: int|
                        0 <= c < col ==> self.buffer[row as int]@[c] == old(self).buffer[row
                            + 1]@[c],
                    forall|c: int|
                        col <= c < 80 ==> self.buffer[row as int]@[c] == old(
                            self,
                        ).buffer[row as int]@[c],
                decreases 80 - col,
            {
                let character = self.buffer[row + 1][col];
                self.buffer[row][col] = character;
                col = col + 1;
            }
            proof {
                assert(self.buffer[row as int]@ =~= old(self).buffer[row as int + 1]@);
            }
            row = row + 1;
        }
        self.clear_row(BUFFER_HEIGHT - 1);
        self.column_position = 0;
        proof {
            assert(self.rows() =~~= scrolled(old(self).rows(), old(self).color_code));
        }
    }

    /// Writes one byte at the cursor: a newline scrolls; any other byte
    /// lands on the bottom row, wrapping to a fresh line when the current
    /// one is full.
    pub fn write_byte(&mut self, byte: u8)
        requires
            old(self).wf(),
        ensures
            final(self).wf(),
            final(self).color_code == old(self).color_code,
            final(self).rows() == spec_write_byte(
                old(self).rows(),
                old(self).column_position as int,
                old(self).color_code,
                byte,
            ).0,
            final(self).column_position as int == spec_write_byte(
                old(self).rows(),
                old(self).column_position as int,
                old(self).color_code,
                byte,
            ).1,
    {
        match byte {
            10u8 => self.new_line(),
            byte => {
                if self.column_position >= BUFFER_WIDTH {
                    self.new_line();
                }
                let ghost rows0 = self.rows();
                let ghost col0 = self.column_position as int;
                let row = BUFFER_HEIGHT - 1;
                let col = self.column_position;
                self.buffer[row][col] = ScreenChar {
                    ascii_character: byte,
                    color_code: self.color_code,
                };
                self.column_position = self.column_position + 1;
                proof {
                    assert(self.buffer[19]@ =~= rows0[19].update(
                        col0,
                        ScreenChar { ascii_character: byte, color_code: old(self).color_code },
                    ));
                    assert(self.rows() =~~= rows0.update(
                        19,
                        rows0[19].update(
                            col0,
                            ScreenChar { ascii_character: byte, color_code: old(self).color_code },
                        ),
                    ));
                }
            },
        }
    }

    /// Writes a string byte by byte: printable characters and newlines as
    /// they are, anything else as the replacement character 0xfe.
    pub fn write_string(&mut self, s: &str)
        requires
            old(self).wf(),
        ensures
            final(self).wf(),
            final(self).color_code == old(self).color_code,
            final(self).rows() == spec_write_bytes(
                old(self).rows(),
                old(self).column_position as int,
                old(self).color_code,
                s.spec_bytes(),
            ).0,
            final(self).column_position as int == spec_write_bytes(
                old(self).rows(),
                old(self).column_position as int,
                old(self).color_code,
                s.spec_bytes(),
            ).1,
    {
        let bytes = s.as_bytes();
        let ghost all = s.spec_bytes();
        let ghost target = spec_write_bytes(
            old(self).rows(),
            old(self).column_position as int,
            old(self).color_code,
            all,
        );
        proof {
            assert(all.skip(0) =~= all);
        }
        let mut i: usize = 0;
        while i < bytes.len()
            invariant
                i <= bytes.len(),
                bytes@ == all,
                self.wf(),
                self.color_code == old(self).color_code,
                target == spec_write_bytes(
                    old(self).rows(),
                    old(self).column_position as int,
                    old(self).color_code,
                    all,
                ),
                spec_write_bytes(
                    self.rows(),
                    self.column_position as int,
                    self.color_code,
                    all.skip(i as int),
                ) == target,
            decreases bytes.len() - i,
        {
            let ghost pre_rows = self.rows();
            let ghost pre_col = self.column_position as int;
            let byte = bytes[i];
            proof {
                assert(all.skip(i as int)[0] == byte);
                assert(all.skip(i as int).drop_first() =~= all.skip(i as int + 1));
            }
            match byte {
                0x20..=0x7e => self.write_byte(byte),
                10u8 => self.new_line(),
                _ => self.write_byte(0xfe),
            }
            proof {
                if byte == 10 {
                    assert((self.rows(), self.column_position as int) == spec_write_byte(
                        pre_rows,
                        pre_col,
                        self.color_code,
                        10,
                    ));
                }
            }
            i = i + 1;
        }
        proof {
            assert(all.skip(all.len() as int) =~= Seq::<u8>::empty());
        }
    }
}

} // verus!
