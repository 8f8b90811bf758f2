//! The text screen: 25 rows of 80 characters, written at the bottom row and
//! scrolled upwards. The writer works on a buffer of its own; whoever owns the
//! display's memory copies the buffer there.

use vstd::prelude::*;
use vstd::string::StringSliceAdditionalSpecFns;

verus! {

/// Number of rows of the screen.
pub const BUFFER_HEIGHT: usize = 25;

/// Number of columns of the screen.
pub const BUFFER_WIDTH: usize = 80;

/// The byte of a blank.
pub const SPACE: u8 = 0x20;

/// The byte that starts a new line.
pub const LINE_FEED: u8 = 0x0a;

/// The byte that removes the character before the cursor.
pub const BACKSPACE: u8 = 0x08;

/// The byte shown in place of one that cannot be printed.
pub const UNPRINTABLE: u8 = 0xfe;

/// The sixteen colours of the text screen.
#[allow(dead_code)]
#[derive(Debug, Clone, Copy, PartialEq, Eq, Structural)]
pub enum Color {
    Black,
    Blue,
    Green,
    Cyan,
    Red,
    Magenta,
    Brown,
    LightGray,
    DarkGray,
    LightBlue,
    LightGreen,
    LightCyan,
    LightRed,
    Pink,
    Yellow,
    White,
}

impl Color {
    /// The colour's number, 0 to 15.
    pub open spec fn number(self) -> u8 {
        match self {
            Color::Black => 0,
            Color::Blue => 1,
            Color::Green => 2,
            Color::Cyan => 3,
            Color::Red => 4,
            Color::Magenta => 5,
            Color::Brown => 6,
            Color::LightGray => 7,
            Color::DarkGray => 8,
            Color::LightBlue => 9,
            Color::LightGreen => 10,
            Color::LightCyan => 11,
            Color::LightRed => 12,
            Color::Pink => 13,
            Color::Yellow => 14,
            Color::White => 15,
        }
    }

    pub fn as_u8(self) -> (n: u8)
        ensures
            n == self.number(),
            n < 16,
    {
        match self {
            Color::Black => 0,
            Color::Blue => 1,
            Color::Green => 2,
            Color::Cyan => 3,
            Color::Red => 4,
            Color::Magenta => 5,
            Color::Brown => 6,
            Color::LightGray => 7,
            Color::DarkGray => 8,
            Color::LightBlue => 9,
            Color::LightGreen => 10,
            Color::LightCyan => 11,
            Color::LightRed => 12,
            Color::Pink => 13,
            Color::Yellow => 14,
            Color::White => 15,
        }
    }
}

/// A foreground and a background colour in one byte: the background in the
/// high four bits, the foreground in the low four.
#[derive(Debug, Clone, Copy, PartialEq, Eq, Structural)]
pub struct ColorCode(pub u8);

impl ColorCode {
    pub fn new(foreground: Color, background: Color) -> (c: ColorCode)
        ensures
            c.0 == background.number() * 16 + foreground.number(),
    {
        let b = background.as_u8();
        let f = foreground.as_u8();
        assert((b << 4 | f) == b * 16 + f) by (bit_vector)
            requires
                b < 16,
                f < 16,
        ;
        ColorCode(b << 4 | f)
    }

    /// The code for both colours black.
    pub open spec fn black() -> ColorCode {
        ColorCode(0)
    }
}

/// One cell of the screen.
#[derive(Debug, Clone, Copy, PartialEq, Eq, Structural)]
pub struct ScreenChar {
    pub ascii_character: u8,
    pub color_code: ColorCode,
}

/// What the screen shows and where the next character goes: the cells row by
/// row, the column of the cursor in the bottom row, and the colours in use.
pub struct Screen {
    pub chars: Seq<ScreenChar>,
    pub column_position: int,
    pub color_code: ColorCode,
}

impl Screen {
    /// The cell in `row` and `col`.
    pub open spec fn cell(self, row: int, col: int) -> ScreenChar {
        self.chars[row * 80 + col]
    }

    /// A blank in the colours in use.
    pub open spec fn blank(self) -> ScreenChar {
        ScreenChar { ascii_character: 0x20, color_code: self.color_code }
    }

    /// The screen with `row` filled with blanks.
    pub open spec fn clear_row(self, row: int) -> Screen {
        Screen {
            chars: Seq::new(
                2000,
                |i: int|
                    if row * 80 <= i < row * 80 + 80 {
                        self.blank()
                    } else {
                        self.chars[i]
                    },
            ),
            ..self
        }
    }

    /// The screen moved up by one row, with a blank bottom row and the
    /// cursor at its start.
    pub open spec fn new_line(self) -> Screen {
        Screen {
            chars: Seq::new(
                2000,
                |i: int|
                    if i < 1920 {
                        self.chars[i + 80]
                    } else {
                        self.blank()
                    },
            ),
            column_position: 0,
            color_code: self.color_code,
        }
    }

    /// The screen with `byte` put at the cursor, which moves on by one.
    pub open spec fn put(self, byte: u8) -> Screen {
        Screen {
            chars: self.chars.update(
                1920 + self.column_position,
                ScreenChar { ascii_character: byte, color_code: self.color_code },
            ),
            column_position: self.column_position + 1,
            color_code: self.color_code,
        }
    }

    /// The screen after `byte` was written: a line feed starts a new line,
    /// any other byte goes to the cursor, after a new line if the row is full.
    pub open spec fn write_byte(self, byte: u8) -> Screen {
        if byte == 0x0a {
            self.new_line()
        } else if self.column_position >= 80 {
            self.new_line().put(byte)
        } else {
            self.put(byte)
        }
    }

    /// The screen after the character before the cursor was removed: the
    /// cell is set to a zero byte in black on black, and the cursor moves
    /// back. At the start of the row nothing changes.
    pub open spec fn remove_byte(self) -> Screen {
        if self.column_position > 0 {
            Screen {
                chars: self.chars.update(
                    1920 + self.column_position - 1,
                    ScreenChar { ascii_character: 0, color_code: ColorCode::black() },
                ),
                column_position: self.column_position - 1,
                color_code: self.color_code,
            }
        } else {
            self
        }
    }

    /// The screen after one byte of a string was written: printable bytes and
    /// line feeds are written, a backspace removes a character, and any other
    /// byte is shown as a filled square.
    pub open spec fn write_string_byte(self, byte: u8) -> Screen {
        if 0x20 <= byte <= 0x7e || byte == 0x0a {
            self.write_byte(byte)
        } else if byte == 0x08 {
            self.remove_byte()
        } else {
            self.write_byte(UNPRINTABLE)
        }
    }

    /// The screen after all of `bytes` were written, first to last.
    pub open spec fn write_string(self, bytes: Seq<u8>) -> Screen
        decreases bytes.len(),
    {
        if bytes.len() == 0 {
            self
        } else {
            self.write_string(bytes.drop_last()).write_string_byte(bytes.last())
        }
    }

    /// Whether the screen has its 2000 cells and the cursor is in the row or
    /// just behind its end.
    pub open spec fn wf(self) -> bool {
        self.chars.len() == 2000 && 0 <= self.column_position <= 80
    }
}

/// Writes text to the bottom row of a screen buffer.
#[derive(Debug)]
pub struct Writer {
    column_position: usize,
    color_code: ColorCode,
    buffer: Vec<ScreenChar>,
}

impl Writer {
    pub closed spec fn view(&self) -> Screen {
        Screen {
            chars: self.buffer@,
            column_position: self.column_position as int,
            color_code: self.color_code,
        }
    }

    pub open spec fn wf(&self) -> bool {
        self@.wf()
    }

    /// A writer over a screen of blanks, with the cursor at the start of
    /// the bottom row.
    pub fn new(color_code: ColorCode) -> (w: Writer)
        ensures
            w.wf(),
            w@.column_position == 0,
            w@.color_code == color_code,
            w@.chars == Seq::new(
                2000,
                |i: int| ScreenChar { ascii_character: 0x20, color_code },
            ),
    {
        let blank = ScreenChar { ascii_character: SPACE, color_code };
        let mut buffer: Vec<ScreenChar> = Vec::new();
        let mut i: usize = 0;
        while i < BUFFER_HEIGHT * BUFFER_WIDTH
            invariant
                i <= 2000,
                buffer@.len() == i,
                blank == (ScreenChar { ascii_character: 0x20, color_code }),
                forall|k: int| 0 <= k < i ==> buffer@[k] == blank,
            decreases 2000 - i,
        {
            buffer.push(blank);
            i += 1;
        }
        let w = Writer { column_position: 0, color_code, buffer };
        assert(w@.chars =~= Seq::new(
            2000,
            |i: int| ScreenChar { ascii_character: 0x20, color_code },
        ));
        w
    }

    /// The cell in `row` and `col`.
    pub fn read(&self, row: usize, col: usize) -> (c: ScreenChar)
        requires
            self.wf(),
            row < BUFFER_HEIGHT,
            col < BUFFER_WIDTH,
        ensures
            c == self@.cell(row as int, col as int),
    {
        self.buffer[row * BUFFER_WIDTH + col]
    }

    /// All cells, row by row.
    pub fn chars(&self) -> (cells: &Vec<ScreenChar>)
        ensures
            cells@ == self@.chars,
    {
        &self.buffer
    }

    pub fn column_position(&self) -> (col: usize)
        ensures
            col == self@.column_position,
    {
        self.column_position
    }

    /// Writes every byte of `s`.
    pub fn write_string(&mut self, s: &str)
        requires
            old(self).wf(),
        ensures
            final(self).wf(),
            final(self)@ == old(self)@.write_string(s.spec_bytes()),
    {
        let bytes = s.as_bytes();
        let mut i: usize = 0;
        assert(bytes@.take(0) =~= Seq::<u8>::empty());
        while i < bytes.len()
            invariant
                i <= bytes@.len(),
                self.wf(),
                self@ == old(self)@.write_string(bytes@.take(i as int)),
            decreases bytes@.len() - i,
        {
            let byte = bytes[i];
            assert(bytes@.take(i + 1).drop_last() =~= bytes@.take(i as int));
            if (0x20 <= byte && byte <= 0x7e) || byte == LINE_FEED {
                self.write_byte(byte);
            } else if byte == BACKSPACE {
                self.remove_byte();
            } else {
                self.write_byte(UNPRINTABLE);
            }
            i += 1;
        }
        assert(bytes@.take(bytes@.len() as int) =~= bytes@);
    }

    /// Writes one byte at the cursor; a line feed starts a new line.
    pub fn write_byte(&mut self, byte: u8)
        requires
            old(self).wf(),
        ensures
            final(self).wf(),
            final(self)@ == old(self)@.write_byte(byte),
    {
        if byte == LINE_FEED {
            self.new_line();
        } else {
            if self.column_position >= BUFFER_WIDTH {
                self.new_line();
            }
            let row = BUFFER_HEIGHT - 1;
            let col = self.column_position;
            let color_code = self.color_code;
            self.buffer.set(
                row * BUFFER_WIDTH + col,
                ScreenChar { ascii_character: byte, color_code },
            );
            self.column_position += 1;
        }
    }

    /// Moves every row up by one, clears the bottom row and puts the cursor
    /// at its start.
    fn new_line(&mut self)
        requires
            old(self).wf(),
        ensures
            final(self).wf(),
            final(self)@ == old(self)@.new_line(),
    {
        let mut row: usize = 1;
        while row < BUFFER_HEIGHT
            invariant
                1 <= row <= 25,
                self.buffer@.len() == 2000,
                self.column_position == old(self).column_position,
                self.color_code == old(self).color_code,
                forall|i: int| 0 <= i < (row - 1) * 80 ==> self.buffer@[i] == old(self).buffer@[i + 80],
                forall|i: int| (row - 1) * 80 <= i < 2000 ==> self.buffer@[i] == old(self).buffer@[i],
            decreases 25 - row,
        {
            let mut col: usize = 0;
            while col < BUFFER_WIDTH
                invariant
                    1 <= row < 25,
                    col <= 80,
                    self.buffer@.len() == 2000,
                    self.column_position == old(self).column_position,
                    self.color_code == old(self).color_code,
                    forall|i: int|
                        0 <= i < (row - 1) * 80 + col ==> self.buffer@[i] == old(self).buffer@[i + 80],
                    forall|i: int|
                        (row - 1) * 80 + col <= i < 2000 ==> self.buffer@[i] == old(self).buffer@[i],
                decreases 80 - col,
            {
                let character = self.buffer[row * BUFFER_WIDTH + col];
                self.buffer.set((row - 1) * BUFFER_WIDTH + col, character);
                col += 1;
            }
            row += 1;
        }
        self.clear_row(BUFFER_HEIGHT - 1);
        self.column_position = 0;
        assert(self@.chars =~= old(self)@.new_line().chars);
    }

    /// Fills `row` with blanks.
    fn clear_row(&mut self, row: usize)
        requires
            old(self).wf(),
            row < BUFFER_HEIGHT,
        ensures
            final(self).wf(),
            final(self)@ == old(self)@.clear_row(row as int),
    {
        let blank = ScreenChar { ascii_character: SPACE, color_code: self.color_code };
        let mut col: usize = 0;
        while col < BUFFER_WIDTH
            invariant
                col <= 80,
                row < 25,
                self.buffer@.len() == 2000,
                self.column_position == old(self).column_position,
                self.color_code == old(self).color_code,
                blank == old(self)@.blank(),
                forall|i: int|
                    0 <= i < 2000 ==> self.buffer@[i] == if row * 80 <= i < row * 80 + col {
                        blank
                    } else {
                        old(self).buffer@[i]
                    },
            decreases 80 - col,
        {
            self.buffer.set(row * BUFFER_WIDTH + col, blank);
            col += 1;
        }
        assert(self@.chars =~= old(self)@.clear_row(row as int).chars);
    }

    /// Removes the character before the cursor, if there is one in the row.
    pub fn remove_byte(&mut self)
        requires
            old(self).wf(),
        ensures
            final(self).wf(),
            final(self)@ == old(self)@.remove_byte(),
    {
        if self.column_position > 0 {
            let row = BUFFER_HEIGHT - 1;
            let col = self.column_position;
            self.buffer.set(
                row * BUFFER_WIDTH + col - 1,
                ScreenChar { ascii_character: 0, color_code: ColorCode::new(Color::Black, Color::Black) },
            );
            self.column_position -= 1;
        }
    }
}

} // verus!
