//! The text screen: 25 rows of 80 cells. A cell takes two bytes of the
//! screen memory, one for the character and one for the attribute.
use crate::machine::device_io::{IOPort, PortWrite};
use vstd::prelude::*;
use vstd::string::StringSliceAdditionalSpecFns;
use vstd::utf8::is_char_boundary;

verus! {

pub const MAX_COLS: usize = 80;

pub const MAX_ROWS: usize = 25;

/// The bytes of one row.
pub const ROW_BYTES: usize = 160;

/// The bytes of the screen memory.
pub const SCREEN_BYTES: usize = 4000;

/// The screen: its memory, the place of the cursor, and the attribute
/// with which characters are written.
pub struct CGAScreen {
    pub cga_mem: Vec<u8>,
    pub cursor_r: usize,
    pub cursor_c: usize,
    pub attr: u8,
}

/// What the screen shows and where the cursor is.
pub struct Screen {
    pub mem: Seq<u8>,
    pub row: int,
    pub col: int,
    pub attr: u8,
}

impl View for CGAScreen {
    type V = Screen;

    open spec fn view(&self) -> Screen {
        Screen {
            mem: self.cga_mem@,
            row: self.cursor_r as int,
            col: self.cursor_c as int,
            attr: self.attr,
        }
    }
}

/// The number of the cell in a row and a column.
#[inline(always)]
pub fn cal_offset(row: usize, col: usize) -> (offset: usize)
    requires
        col + row * MAX_COLS <= usize::MAX,
    ensures
        offset == col + row * MAX_COLS,
{
    col + row * MAX_COLS
}

impl Screen {
    /// Whether the screen memory has its size.
    pub open spec fn wf(self) -> bool {
        self.mem.len() == SCREEN_BYTES
    }

    /// Whether the cursor is on a cell of the screen.
    pub open spec fn cursor_ok(self) -> bool {
        &&& 0 <= self.row < MAX_ROWS
        &&& 0 <= self.col
        &&& self.row * MAX_COLS + self.col < MAX_ROWS * MAX_COLS
    }

    /// The screen with a character and its attribute in a cell.
    pub open spec fn show(self, row: int, col: int, c: u8, attr: u8) -> Screen {
        Screen {
            mem: self.mem.update((col + row * MAX_COLS) * 2, c).update(
                (col + row * MAX_COLS) * 2 + 1,
                attr,
            ),
            ..self
        }
    }

    /// The screen memory with one row copied over another.
    pub open spec fn move_line(self, from: int, to: int) -> Screen {
        if 0 <= from < MAX_ROWS && 0 <= to < MAX_ROWS && from != to {
            Screen {
                mem: Seq::new(
                    self.mem.len(),
                    |i: int|
                        if to * ROW_BYTES <= i < (to + 1) * ROW_BYTES {
                            self.mem[i - to * ROW_BYTES + from * ROW_BYTES]
                        } else {
                            self.mem[i]
                        },
                ),
                ..self
            }
        } else {
            self
        }
    }

    /// The screen memory with one row cleared: no character, and the
    /// given attribute in every cell.
    pub open spec fn clearline(self, line: int, attr: u8) -> Screen {
        if 0 <= line < MAX_ROWS {
            Screen {
                mem: Seq::new(
                    self.mem.len(),
                    |i: int|
                        if line * ROW_BYTES <= i < (line + 1) * ROW_BYTES {
                            if i % 2 == 0 {
                                0u8
                            } else {
                                attr
                            }
                        } else {
                            self.mem[i]
                        },
                ),
                ..self
            }
        } else {
            self
        }
    }

    /// The screen moved up by some lines: each row shows what the row that
    /// many lines below showed, and the rows at the bottom are cleared.
    pub open spec fn scroll(self, lines: int) -> Screen {
        if lines == 0 {
            self
        } else {
            Screen {
                mem: Seq::new(
                    self.mem.len(),
                    |i: int|
                        if i < (MAX_ROWS - lines) * ROW_BYTES {
                            self.mem[i + lines * ROW_BYTES]
                        } else if i % 2 == 0 {
                            0u8
                        } else {
                            self.attr
                        },
                ),
                ..self
            }
        }
    }

    /// The screen with every row cleared.
    pub open spec fn clear(self) -> Screen {
        Screen {
            mem: Seq::new(
                self.mem.len(),
                |i: int|
                    if i % 2 == 0 {
                        0u8
                    } else {
                        self.attr
                    },
            ),
            ..self
        }
    }

    /// The cursor at the start of the next line; on the last line the
    /// screen moves up by a line instead.
    pub open spec fn newline(self) -> Screen {
        if self.row >= MAX_ROWS - 1 {
            Screen { col: 0, ..self.scroll(1) }
        } else {
            Screen { row: self.row + 1, col: 0, ..self }
        }
    }

    /// The cursor one cell on; behind the last column but one it goes to
    /// the next line.
    pub open spec fn advance(self) -> Screen {
        if self.col >= MAX_COLS - 1 {
            self.newline()
        } else {
            Screen { col: self.col + 1, ..self }
        }
    }

    /// The screen after a character was written at the cursor. A line feed
    /// only moves the cursor to the next line.
    pub open spec fn putchar(self, ch: u8) -> Screen {
        if ch == 0x0a {
            self.newline()
        } else {
            self.show(self.row, self.col, ch, self.attr).advance()
        }
    }

    /// The screen after a string of characters was written at the cursor.
    pub open spec fn puts(self, s: Seq<u8>) -> Screen
        decreases s.len(),
    {
        if s.len() == 0 {
            self
        } else {
            self.puts(s.drop_last()).putchar(s.last())
        }
    }

    /// The cursor one cell back, and the cell there emptied. At the start
    /// of a line the cursor goes behind the end of the line above; at the
    /// start of the screen nothing happens.
    pub open spec fn backspace(self) -> Screen {
        if self.col == 0 && self.row == 0 {
            self
        } else if self.col == 0 {
            (Screen { row: self.row - 1, col: MAX_COLS as int, ..self }).show(
                self.row - 1,
                MAX_COLS as int,
                0,
                self.attr,
            )
        } else {
            (Screen { col: self.col - 1, ..self }).show(self.row, self.col - 1, 0, self.attr)
        }
    }

    /// The writes that move the cursor of the device to the cursor of the
    /// screen: the low byte of the number of its cell goes to register 15
    /// of the device, the next byte to register 14.
    pub open spec fn cursor_writes(self) -> Seq<PortWrite> {
        seq![
            PortWrite { port: CGAScreen::IR_PORT, val: 15 },
            PortWrite { port: CGAScreen::DR_PORT,
                val: ((self.col + self.row * MAX_COLS) % 256) as u8 },
            PortWrite { port: CGAScreen::IR_PORT, val: 14 },
            PortWrite {
                port: CGAScreen::DR_PORT,
                val: (((self.col + self.row * MAX_COLS) / 256) % 256) as u8,
            },
        ]
    }
}

/// Writing characters keeps the screen memory at its size and the cursor
/// on the screen.
pub proof fn lemma_putchar_keeps_screen(s: Screen, ch: u8)
    requires
        s.wf(),
        s.cursor_ok(),
    ensures
        s.putchar(ch).wf(),
        s.putchar(ch).cursor_ok(),
        s.putchar(ch).attr == s.attr,
{
}

/// Writing a string keeps the screen memory at its size and the cursor on
/// the screen.
pub proof fn lemma_puts_keeps_screen(s: Screen, bytes: Seq<u8>)
    requires
        s.wf(),
        s.cursor_ok(),
    ensures
        s.puts(bytes).wf(),
        s.puts(bytes).cursor_ok(),
        s.puts(bytes).attr == s.attr,
    decreases bytes.len(),
{
    if bytes.len() > 0 {
        lemma_puts_keeps_screen(s, bytes.drop_last());
        lemma_putchar_keeps_screen(s.puts(bytes.drop_last()), bytes.last());
    }
}

impl CGAScreen {
    /// The index register of the device.
    pub const IR_PORT: u16 = 0x3d4;

    /// The data register of the device.
    pub const DR_PORT: u16 = 0x3d5;

    /// A screen whose memory is all zero, with the cursor at the start and
    /// the attribute "white on black".
    pub fn new() -> (cga: Self)
        ensures
            cga@.wf(),
            cga@.cursor_ok(),
            cga@.row == 0,
            cga@.col == 0,
            cga@.attr == 0x0f,
            forall|i: int| 0 <= i < SCREEN_BYTES ==> cga@.mem[i] == 0,
    {
        let mut cga_mem: Vec<u8> = Vec::new();
        let mut i: usize = 0;
        while i < SCREEN_BYTES
            invariant
                0 <= i <= SCREEN_BYTES,
                cga_mem@.len() == i,
                forall|j: int| 0 <= j < i ==> cga_mem@[j] == 0,
            decreases SCREEN_BYTES - i,
        {
            cga_mem.push(0);
            i += 1;
        }
        Self { cga_mem, cursor_r: 0, cursor_c: 0, attr: 0x0f }
    }

    /// Put a character into a cell, whatever the cursor is. The cell must
    /// be on the screen.
    #[inline(always)]
    pub fn show(&mut self, row: usize, col: usize, c: u8, attr: u8)
        requires
            old(self)@.wf(),
            col + row * MAX_COLS < MAX_ROWS * MAX_COLS,
        ensures
            final(self)@ == old(self)@.show(row as int, col as int, c, attr),
            final(self)@.wf(),
    {
        let index = cal_offset(row, col);
        self.cga_mem[index * 2] = c;
        self.cga_mem[index * 2 + 1] = attr;
    }

    /// Write a character at the cursor and move the cursor on; the screen
    /// moves up where that is called for. The cursor of the device stays
    /// where it is. The cursor must be on the screen.
    pub fn putchar(&mut self, ch: u8)
        requires
            old(self)@.wf(),
            old(self)@.cursor_ok(),
        ensures
            final(self)@ == old(self)@.putchar(ch),
            final(self)@.wf(),
            final(self)@.cursor_ok(),
    {
        if ch == 0x0a {
            self.newline();
        } else {
            self.show(self.cursor_r, self.cursor_c, ch, self.attr);
            self.advance();
        }
    }

    /// Take the character before the cursor back. The cursor must be on
    /// the screen. The writes that move the cursor of the device are
    /// handed back.
    #[inline(always)]
    pub fn backspace(&mut self) -> (writes: Vec<PortWrite>)
        requires
            old(self)@.wf(),
            old(self)@.cursor_ok(),
        ensures
            final(self)@ == old(self)@.backspace(),
            final(self)@.wf(),
            final(self)@.cursor_ok(),
            old(self)@.col == 0 && old(self)@.row == 0 ==> writes@.len() == 0,
            !(old(self)@.col == 0
                && old(self)@.row == 0) ==> writes@ == final(self)@.cursor_writes(),
    {
        if self.cursor_c == 0 && self.cursor_r == 0 {
            return Vec::new();
        }
        if self.cursor_c == 0 {
            self.cursor_r -= 1;
            self.cursor_c = MAX_COLS;
        } else {
            self.cursor_c -= 1;
        }
        let writes = self.sync_cursor();
        self.show(self.cursor_r, self.cursor_c, 0, self.attr);
        writes
    }

    /// Copy one row over another. Rows that are not on the screen, or a
    /// row onto itself, change nothing.
    pub fn move_line(&mut self, from: usize, to: usize)
        requires
            old(self)@.wf(),
        ensures
            final(self)@ == old(self)@.move_line(from as int, to as int),
            final(self)@.wf(),
    {
        if !(from < MAX_ROWS) {
            return ;
        }
        if !(to < MAX_ROWS) {
            return ;
        }
        if from == to {
            return ;
        }
        // a line has 80 cells, 160 bytes
        let src: usize = from * ROW_BYTES;
        let dst: usize = to * ROW_BYTES;
        let mut i: usize = 0;
        while i < ROW_BYTES
            invariant
                0 <= i <= ROW_BYTES,
                from < MAX_ROWS,
                to < MAX_ROWS,
                from != to,
                src == from * ROW_BYTES,
                dst == to * ROW_BYTES,
                self.cga_mem@.len() == SCREEN_BYTES,
                self.cursor_r == old(self).cursor_r,
                self.cursor_c == old(self).cursor_c,
                self.attr == old(self).attr,
                forall|j: int|
                    0 <= j < SCREEN_BYTES ==> self.cga_mem@[j] == (if dst <= j < dst + i {
                        old(self).cga_mem@[j - dst + src]
                    } else {
                        old(self).cga_mem@[j]
                    }),
            decreases ROW_BYTES - i,
        {
            let b = self.cga_mem[src + i];
            self.cga_mem[dst + i] = b;
            i += 1;
        }
        assert(self@.mem =~= old(self)@.move_line(from as int, to as int).mem);
    }

    /// Clear a row: no character, and the given attribute in every cell. A
    /// row that is not on the screen changes nothing.
    pub fn clearline(&mut self, line: usize, attr: u8)
        requires
            old(self)@.wf(),
        ensures
            final(self)@ == old(self)@.clearline(line as int, attr),
            final(self)@.wf(),
    {
        if !(line < MAX_ROWS) {
            return ;
        }
        let base: usize = line * ROW_BYTES;
        let mut i: usize = 0;
        while i < MAX_COLS
            invariant
                0 <= i <= MAX_COLS,
                line < MAX_ROWS,
                base == line * ROW_BYTES,
                self.cga_mem@.len() == SCREEN_BYTES,
                self.cursor_r == old(self).cursor_r,
                self.cursor_c == old(self).cursor_c,
                self.attr == old(self).attr,
                forall|j: int|
                    0 <= j < SCREEN_BYTES ==> self.cga_mem@[j] == (if base <= j < base + 2 * i {
                        if j % 2 == 0 {
                            0u8
                        } else {
                            attr
                        }
                    } else {
                        old(self).cga_mem@[j]
                    }),
            decreases MAX_COLS - i,
        {
            self.cga_mem[base + 2 * i] = 0;
            self.cga_mem[base + 2 * i + 1] = attr;
            i += 1;
        }
        assert(self@.mem =~= old(self)@.clearline(line as int, attr).mem);
    }

    /// Move the cursor on by one cell; behind the last column but one it
    /// goes to the next line.
    pub fn advance(&mut self)
        requires
            old(self)@.wf(),
            old(self)@.cursor_ok(),
        ensures
            final(self)@ == old(self)@.advance(),
            final(self)@.wf(),
            final(self)@.cursor_ok(),
    {
        if self.cursor_c >= (MAX_COLS - 1) {
            self.newline();
        } else {
            self.cursor_c += 1;
        }
    }

    /// Move the cursor to the start of the next line; on the last line the
    /// screen moves up by a line instead.
    pub fn newline(&mut self)
        requires
            old(self)@.wf(),
            old(self)@.cursor_ok(),
        ensures
            final(self)@ == old(self)@.newline(),
            final(self)@.wf(),
            final(self)@.cursor_ok(),
    {
        if self.cursor_r >= (MAX_ROWS - 1) {
            self.scroll(1);
        } else {
            self.cursor_r += 1;
        }
        self.cursor_c = 0;
    }

    /// Move the screen up by some lines, 25 at most: each row shows what
    /// the row that many lines below showed, and the rows at the bottom
    /// are cleared.
    pub fn scroll(&mut self, lines: usize)
        requires
            old(self)@.wf(),
            lines <= MAX_ROWS,
        ensures
            final(self)@ == old(self)@.scroll(lines as int),
            final(self)@.wf(),
    {
        if lines >= MAX_ROWS {
            self.clear();
        }
        if lines == 0 {
            return ;
        }
        let ghost start = self@;
        // the first rows are not copied: they are written over anyway
        let mut i: usize = lines;
        while i < MAX_ROWS
            invariant
                1 <= lines <= i <= MAX_ROWS,
                self@.wf(),
                start.wf(),
                self.cursor_r == old(self).cursor_r,
                self.cursor_c == old(self).cursor_c,
                self.attr == old(self).attr,
                forall|j: int|
                    0 <= j < SCREEN_BYTES ==> self.cga_mem@[j] == (if j < (i - lines) * ROW_BYTES {
                        start.mem[j + lines * ROW_BYTES]
                    } else {
                        start.mem[j]
                    }),
            decreases MAX_ROWS - i,
        {
            self.move_line(i, i - lines);
            i += 1;
        }
        // and the rest is cleared
        let mut i: usize = MAX_ROWS - lines;
        while i < MAX_ROWS
            invariant
                1 <= lines <= MAX_ROWS,
                MAX_ROWS - lines <= i <= MAX_ROWS,
                self@.wf(),
                start.wf(),
                self.cursor_r == old(self).cursor_r,
                self.cursor_c == old(self).cursor_c,
                self.attr == old(self).attr,
                forall|j: int|
                    0 <= j < SCREEN_BYTES ==> self.cga_mem@[j] == (if j < (MAX_ROWS - lines)
                        * ROW_BYTES {
                        start.mem[j + lines * ROW_BYTES]
                    } else if j < i * ROW_BYTES {
                        if j % 2 == 0 {
                            0u8
                        } else {
                            self.attr
                        }
                    } else {
                        start.mem[j]
                    }),
            decreases MAX_ROWS - i,
        {
            self.clearline(i, self.attr);
            i += 1;
        }
        assert(self@.mem =~= old(self)@.scroll(lines as int).mem);
    }

    /// Clear every row.
    pub fn clear(&mut self)
        requires
            old(self)@.wf(),
        ensures
            final(self)@ == old(self)@.clear(),
            final(self)@.wf(),
    {
        let mut i: usize = 0;
        while i < MAX_ROWS
            invariant
                0 <= i <= MAX_ROWS,
                self@.wf(),
                self.cursor_r == old(self).cursor_r,
                self.cursor_c == old(self).cursor_c,
                self.attr == old(self).attr,
                forall|j: int|
                    0 <= j < SCREEN_BYTES ==> self.cga_mem@[j] == (if j < i * ROW_BYTES {
                        if j % 2 == 0 {
                            0u8
                        } else {
                            self.attr
                        }
                    } else {
                        old(self).cga_mem@[j]
                    }),
            decreases MAX_ROWS - i,
        {
            self.clearline(i, self.attr);
            i += 1;
        }
        assert(self@.mem =~= old(self)@.clear().mem);
    }

    /// Clear the screen and put the cursor at its start. The writes that
    /// move the cursor of the device are handed back.
    pub fn reset(&mut self) -> (writes: Vec<PortWrite>)
        requires
            old(self)@.wf(),
        ensures
            final(self)@ == (Screen { row: 0, col: 0, ..old(self)@.clear() }),
            final(self)@.wf(),
            final(self)@.cursor_ok(),
            writes@ == final(self)@.cursor_writes(),
    {
        self.clear();
        self.setpos(0, 0);
        self.sync_cursor()
    }

    /// Put the cursor somewhere. The cursor of the device is not moved and
    /// never read back.
    pub fn setpos(&mut self, row: usize, col: usize)
        ensures
            final(self)@ == (Screen { row: row as int, col: col as int, ..old(self)@ }),
    {
        self.cursor_r = row;
        self.cursor_c = col;
    }

    /// The writes that move the cursor of the device to the cursor of the
    /// screen. The cursor must be on the screen.
    pub fn sync_cursor(&self) -> (writes: Vec<PortWrite>)
        requires
            self@.cursor_ok(),
        ensures
            writes@ == self@.cursor_writes(),
    {
        let ir = IOPort::new(Self::IR_PORT);
        let dr = IOPort::new(Self::DR_PORT);
        let offset = cal_offset(self.cursor_r, self.cursor_c);
        assert(offset < 2000 ==> (offset & 0xff) == offset % 256 && ((offset >> 8) & 0xff) == (
        offset / 256) % 256) by (bit_vector);
        let mut w: Vec<PortWrite> = Vec::new();
        // the lower byte
        w.push(ir.outb(15_u8));
        w.push(dr.outb((offset & 0xff) as u8));
        // the higher byte
        w.push(ir.outb(14_u8));
        w.push(dr.outb(((offset >> 8) & 0xff) as u8));
        assert(w@ =~= self@.cursor_writes());
        w
    }

    /// The value for a register of the cursor shape that makes the cursor
    /// a blinking block: `start` is what register 10 holds, `end` what
    /// register 11 holds, and the values to write to them are handed back.
    pub fn init_cursor(start: u8, end: u8) -> (r: (u8, u8))
        ensures
            r.0 == (start & 0xc0) | 0xe,
            r.1 == (end & 0xe0) | 0xf,
    {
        let mut d = start;
        d &= 0xc0;
        d |= 0xe;
        let mut e = end;
        e &= 0xe0;
        e |= 0xf;
        (d, e)
    }

    /// Write a string at the cursor. The cursor must be on the screen. The
    /// writes that move the cursor of the device behind the string are
    /// handed back.
    pub fn print(&mut self, s: &str) -> (writes: Vec<PortWrite>)
        requires
            old(self)@.wf(),
            old(self)@.cursor_ok(),
        ensures
            final(self)@ == old(self)@.puts(s.spec_bytes()),
            final(self)@.wf(),
            final(self)@.cursor_ok(),
            writes@ == final(self)@.cursor_writes(),
    {
        let bytes = s.as_bytes();
        let mut i: usize = 0;
        assert(bytes@.subrange(0, 0) =~= Seq::<u8>::empty());
        while i < bytes.len()
            invariant
                0 <= i <= bytes.len(),
                bytes@ == s.spec_bytes(),
                self@.wf(),
                self@.cursor_ok(),
                self@ == old(self)@.puts(bytes@.subrange(0, i as int)),
            decreases bytes.len() - i,
        {
            assert(bytes@.subrange(0, i as int + 1).drop_last() =~= bytes@.subrange(0, i as int));
            self.putchar(bytes[i]);
            i += 1;
        }
        assert(bytes@.subrange(0, bytes.len() as int) =~= bytes@);
        self.sync_cursor()
    }

    /// What of a text goes onto the bottom line: all of it if it has fewer
    /// than 80 bytes, its first 80 bytes otherwise.
    pub open spec fn spec_bottom_text(s: Seq<u8>) -> Seq<u8> {
        if s.len() >= MAX_COLS {
            s.subrange(0, MAX_COLS as int)
        } else {
            s
        }
    }

    /// Write a text on the bottom line, with an attribute of its own, and
    /// leave the cursor and the attribute of the screen as they were. The
    /// bottom line is cleared first. Of a longer text the first 80 bytes
    /// are written, which must not end within a character.
    pub fn print_at_bottom(&mut self, s: &str, attr: u8) -> (writes: Vec<PortWrite>)
        requires
            old(self)@.wf(),
            s.spec_bytes().len() >= MAX_COLS ==> is_char_boundary(s.spec_bytes(), MAX_COLS as int),
        ensures
            final(self)@.wf(),
            final(self)@.row == old(self)@.row,
            final(self)@.col == old(self)@.col,
            final(self)@.attr == old(self)@.attr,
            final(self)@.mem == (Screen {
                row: 24,
                col: 0,
                attr: attr,
                ..old(self)@.clearline(24, old(self)@.attr)
            }).puts(Self::spec_bottom_text(s.spec_bytes())).mem,
            writes@ == (Screen {
                row: 24,
                col: 0,
                attr: attr,
                ..old(self)@.clearline(24, old(self)@.attr)
            }).puts(Self::spec_bottom_text(s.spec_bytes())).cursor_writes(),
    {
        self.clearline(24, self.attr);
        let mut text = s;
        if s.as_bytes().len() >= MAX_COLS {
            text = s.split_at(MAX_COLS).0;
        }
        assert(text.spec_bytes() =~= Self::spec_bottom_text(s.spec_bytes()));
        let orig_r = self.cursor_r;
        let orig_c = self.cursor_c;
        let orig_a = self.attr;
        self.cursor_r = 24;
        self.cursor_c = 0;
        self.setattr(attr);
        let writes = self.print(text);
        self.setattr(orig_a);
        self.cursor_r = orig_r;
        self.cursor_c = orig_c;
        writes
    }

    pub fn setattr(&mut self, attr: u8)
        ensures
            final(self)@ == (Screen { attr: attr, ..old(self)@ }),
    {
        self.attr = attr;
    }
}

} // verus!
