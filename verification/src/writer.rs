//! The writer state machine: a cursor column, a current attribute and a text
//! buffer. New output always targets the bottom row; a newline or a full line
//! scrolls the whole grid up by one row and blanks the bottom row.

use vstd::prelude::*;
use vstd::string::StringSliceAdditionalSpecFns;
use crate::buffer::Buffer;
use crate::cell::ScreenChar;
use crate::color::Color;
use crate::color::ColorCode;
use crate::color::attribute_byte;
use crate::BUFFER_HEIGHT;
use crate::BUFFER_WIDTH;

verus! {

/// The newline byte, which scrolls instead of printing.
pub const NEWLINE_BYTE: u8 = 0x0a;

/// The character byte of a blank cell.
pub const BLANK_BYTE: u8 = 0x20;

/// The filled-box glyph that stands in for a byte outside the printable range.
pub const PLACEHOLDER_BYTE: u8 = 0xfe;

/// The abstract display state a writer realizes: the cursor column, the
/// attribute new output is written with, and the grid of screen cells.
pub struct ScreenState {
    pub col: nat,
    pub attr: ColorCode,
    pub grid: Seq<Seq<ScreenChar>>,
}

/// The state has the fixed screen geometry and the cursor is inside or just
/// past the last column.
pub open spec fn state_wf(s: ScreenState) -> bool {
    &&& s.col <= BUFFER_WIDTH
    &&& s.grid.len() == BUFFER_HEIGHT
    &&& forall|r: int| 0 <= r < BUFFER_HEIGHT ==> (#[trigger] s.grid[r]).len() == BUFFER_WIDTH
}

/// A blank cell: a space in the given attribute.
pub open spec fn blank_char(attr: ColorCode) -> ScreenChar {
    ScreenChar { ascii_character: BLANK_BYTE, color_code: attr }
}

/// A whole row of blank cells in the given attribute.
pub open spec fn blank_row(attr: ColorCode) -> Seq<ScreenChar> {
    Seq::new(BUFFER_WIDTH as nat, |c: int| blank_char(attr))
}

/// The grid after one scroll: every row moves up one place, the prior top row
/// is discarded, and the bottom row becomes blank in the given attribute.
pub open spec fn scrolled(g: Seq<Seq<ScreenChar>>, attr: ColorCode) -> Seq<Seq<ScreenChar>> {
    Seq::new(g.len(), |r: int| if r + 1 < g.len() { g[r + 1] } else { blank_row(attr) })
}

/// The grid with the cell at `(row, col)` replaced by `sc`.
pub open spec fn put_char(
    g: Seq<Seq<ScreenChar>>,
    row: int,
    col: int,
    sc: ScreenChar,
) -> Seq<Seq<ScreenChar>> {
    g.update(row, g[row].update(col, sc))
}

/// One step of the state machine: what writing the byte `b` does to the
/// display state. A newline scrolls; any other byte is printed at the cursor
/// on the bottom row, after an implicit scroll if the line is already full.
pub open spec fn step_byte(s: ScreenState, b: u8) -> ScreenState {
    if b == NEWLINE_BYTE {
        ScreenState { col: 0, attr: s.attr, grid: scrolled(s.grid, s.attr) }
    } else {
        let start = if s.col >= BUFFER_WIDTH {
            ScreenState { col: 0, attr: s.attr, grid: scrolled(s.grid, s.attr) }
        } else {
            s
        };
        ScreenState {
            col: start.col + 1,
            attr: start.attr,
            grid: put_char(
                start.grid,
                BUFFER_HEIGHT - 1,
                start.col as int,
                ScreenChar { ascii_character: b, color_code: start.attr },
            ),
        }
    }
}

/// A byte is passed through unchanged if it is printable ASCII or a newline;
/// every other byte becomes the placeholder glyph.
pub open spec fn sanitize_byte(b: u8) -> u8 {
    if b == NEWLINE_BYTE || (0x20 <= b && b <= 0x7e) {
        b
    } else {
        PLACEHOLDER_BYTE
    }
}

/// What writing a whole byte stream does to the display state: each byte is
/// sanitized and then stepped, in order.
pub open spec fn step_bytes(s: ScreenState, bytes: Seq<u8>) -> ScreenState
    decreases bytes.len(),
{
    if bytes.len() == 0 {
        s
    } else {
        step_byte(step_bytes(s, bytes.drop_last()), sanitize_byte(bytes.last()))
    }
}

/// The writer that drives one text buffer. Rows are never addressed by the
/// caller: output lands on the bottom row and scrolling moves older rows up.
pub struct Writer {
    pub column_position: usize,
    pub color_code: ColorCode,
    pub buffer: Buffer,
}

impl View for Writer {
    type V = ScreenState;

    /// The abstract display state this writer currently realizes.
    open spec fn view(&self) -> ScreenState {
        ScreenState {
            col: self.column_position as nat,
            attr: self.color_code,
            grid: self.buffer@,
        }
    }
}

impl Writer {
    /// The writer's buffer has the fixed geometry and the cursor is in range.
    pub open spec fn wf(self) -> bool {
        &&& self.buffer.wf()
        &&& self.column_position <= BUFFER_WIDTH
    }

    /// A well-formed writer realizes a well-formed display state.
    pub proof fn lemma_wf_state(self)
        requires
            self.wf(),
        ensures
            state_wf(self@),
    {
    }

    /// A writer over the given buffer, with the cursor at column 0 and the
    /// attribute that encodes `foreground` over `background`.
    pub fn new(foreground: Color, background: Color, buffer: Buffer) -> (w: Writer)
        requires
            buffer.wf(),
        ensures
            w.wf(),
            w@.col == 0,
            w@.attr.0 == attribute_byte(foreground, background),
            w@.attr.0 == 16 * background.code_spec() + foreground.code_spec(),
            w@.grid == buffer@,
    {
        Writer {
            column_position: 0,
            color_code: ColorCode::new(foreground, background),
            buffer,
        }
    }

    /// Overwrites every cell of row `row` with a blank in the current
    /// attribute; the cursor and the other rows are untouched.
    fn clear_row(&mut self, row: usize)
        requires
            old(self).wf(),
            row < BUFFER_HEIGHT,
        ensures
            final(self).wf(),
            final(self).column_position == old(self).column_position,
            final(self).color_code == old(self).color_code,
            final(self)@.grid == old(self)@.grid.update(row as int, blank_row(old(self)@.attr)),
    {
        let blank = ScreenChar { ascii_character: BLANK_BYTE, color_code: self.color_code };
        let mut c: usize = 0;
        while c < BUFFER_WIDTH
            invariant
                self.wf(),
                c <= BUFFER_WIDTH,
                row < BUFFER_HEIGHT,
                self.column_position == old(self).column_position,
                self.color_code == old(self).color_code,
                blank == blank_char(old(self)@.attr),
                self@.grid.len() == BUFFER_HEIGHT,
                forall|i: int|
                    0 <= i < BUFFER_HEIGHT && i != row as int
                        ==> #[trigger] self@.grid[i] == old(self)@.grid[i],
                self@.grid[row as int].len() == BUFFER_WIDTH,
                forall|j: int|
                    0 <= j < c as int
                        ==> #[trigger] self@.grid[row as int][j] == blank_char(old(self)@.attr),
                forall|j: int|
                    c as int <= j < BUFFER_WIDTH
                        ==> #[trigger] self@.grid[row as int][j] == old(self)@.grid[row as int][j],
            decreases BUFFER_WIDTH - c,
        {
            self.buffer.write_cell(row, c, blank);
            c = c + 1;
        }
        proof {
            assert(self@.grid[row as int] =~= blank_row(old(self)@.attr));
            assert(self@.grid =~= old(self)@.grid.update(row as int, blank_row(old(self)@.attr)));
        }
    }

    /// Scrolls: copies each row one place up, discarding the old top row,
    /// blanks the bottom row, and resets the cursor to column 0.
    fn new_line(&mut self)
        requires
            old(self).wf(),
        ensures
            final(self).wf(),
            final(self).color_code == old(self).color_code,
            final(self)@.col == 0,
            final(self)@.grid == scrolled(old(self)@.grid, old(self)@.attr),
    {
        proof {
            old(self).lemma_wf_state();
        }
        let mut row: usize = 1;
        while row < BUFFER_HEIGHT
            invariant
                self.wf(),
                state_wf(old(self)@),
                1 <= row <= BUFFER_HEIGHT,
                self.color_code == old(self).color_code,
                self@.grid.len() == BUFFER_HEIGHT,
                forall|i: int|
                    0 <= i < row as int - 1 ==> #[trigger] self@.grid[i] == old(self)@.grid[i + 1],
                forall|i: int|
                    row as int - 1 <= i < BUFFER_HEIGHT
                        ==> #[trigger] self@.grid[i] == old(self)@.grid[i],
            decreases BUFFER_HEIGHT - row,
        {
            let mut col: usize = 0;
            while col < BUFFER_WIDTH
                invariant
                    self.wf(),
                    state_wf(old(self)@),
                    col <= BUFFER_WIDTH,
                    1 <= row < BUFFER_HEIGHT,
                    self.color_code == old(self).color_code,
                    self@.grid.len() == BUFFER_HEIGHT,
                    forall|i: int|
                        0 <= i < row as int - 1
                            ==> #[trigger] self@.grid[i] == old(self)@.grid[i + 1],
                    forall|i: int|
                        row as int <= i < BUFFER_HEIGHT
                            ==> #[trigger] self@.grid[i] == old(self)@.grid[i],
                    self@.grid[row as int - 1].len() == BUFFER_WIDTH,
                    forall|j: int|
                        0 <= j < col as int
                            ==> #[trigger] self@.grid[row as int - 1][j]
                                == old(self)@.grid[row as int][j],
                    forall|j: int|
                        col as int <= j < BUFFER_WIDTH
                            ==> #[trigger] self@.grid[row as int - 1][j]
                                == old(self)@.grid[row as int - 1][j],
                decreases BUFFER_WIDTH - col,
            {
                let sc = self.buffer.read_cell(row, col);
                self.buffer.write_cell(row - 1, col, sc);
                col = col + 1;
            }
            proof {
                assert(self@.grid[row as int - 1] =~= old(self)@.grid[row as int]);
            }
            row = row + 1;
        }
        self.clear_row(BUFFER_HEIGHT - 1);
        self.column_position = 0;
        proof {
            let target = scrolled(old(self)@.grid, old(self)@.attr);
            assert forall|i: int| 0 <= i < BUFFER_HEIGHT implies self@.grid[i] == target[i] by {
            }
            assert(self@.grid =~= target);
        }
    }

    /// Writes one byte: a newline scrolls; any other byte lands at the cursor
    /// on the bottom row, scrolling first if the line is already full.
    pub fn write_byte(&mut self, byte: u8)
        requires
            old(self).wf(),
        ensures
            final(self).wf(),
            final(self)@ == step_byte(old(self)@, byte),
    {
        if byte == NEWLINE_BYTE {
            self.new_line();
        } else {
            if self.column_position >= BUFFER_WIDTH {
                self.new_line();
            }
            let row = BUFFER_HEIGHT - 1;
            let col = self.column_position;
            let color_code = self.color_code;
            self.buffer.write_cell(row, col, ScreenChar { ascii_character: byte, color_code });
            self.column_position = col + 1;
        }
    }

    /// Writes every byte of `s` in order, replacing each byte that is neither
    /// printable ASCII nor a newline with the placeholder glyph.
    pub fn write_string(&mut self, s: &str)
        requires
            old(self).wf(),
        ensures
            final(self).wf(),
            final(self)@ == step_bytes(old(self)@, s.spec_bytes()),
    {
        let bytes: &[u8] = s.as_bytes();
        let n: usize = bytes.len();
        let mut i: usize = 0;
        while i < n
            invariant
                self.wf(),
                n == bytes@.len(),
                i <= n,
                bytes@ == s.spec_bytes(),
                self@ == step_bytes(old(self)@, bytes@.take(i as int)),
            decreases n - i,
        {
            let byte = bytes[i];
            if (0x20 <= byte && byte <= 0x7e) || byte == NEWLINE_BYTE {
                self.write_byte(byte);
            } else {
                self.write_byte(PLACEHOLDER_BYTE);
            }
            proof {
                assert(bytes@.take(i as int + 1).drop_last() =~= bytes@.take(i as int));
            }
            i = i + 1;
        }
        proof {
            assert(bytes@.take(n as int) =~= bytes@);
        }
    }
}

/// Every step keeps the display state well formed: the grid never grows or
/// shrinks and the cursor stays inside or just past the last column.
pub proof fn lemma_step_byte_wf(s: ScreenState, b: u8)
    requires
        state_wf(s),
    ensures
        state_wf(step_byte(s, b)),
{
}

/// Writing any byte stream keeps the display state well formed, however long
/// the stream is: the screen only ever shows the fixed grid.
pub proof fn lemma_step_bytes_wf(s: ScreenState, bytes: Seq<u8>)
    requires
        state_wf(s),
    ensures
        state_wf(step_bytes(s, bytes)),
    decreases bytes.len(),
{
    if bytes.len() > 0 {
        lemma_step_bytes_wf(s, bytes.drop_last());
        lemma_step_byte_wf(step_bytes(s, bytes.drop_last()), sanitize_byte(bytes.last()));
    }
}

/// Writing a single printable byte with room on the line advances the cursor
/// by exactly one and leaves every row but the bottom one unchanged; on the
/// bottom row only the cell under the cursor changes.
pub proof fn lemma_write_printable(s: ScreenState, b: u8)
    requires
        state_wf(s),
        0x20 <= b <= 0x7e,
        s.col < BUFFER_WIDTH,
    ensures
        step_byte(s, b).col == s.col + 1,
        forall|r: int|
            0 <= r < BUFFER_HEIGHT - 1 ==> #[trigger] step_byte(s, b).grid[r] == s.grid[r],
        step_byte(s, b).grid[BUFFER_HEIGHT - 1] == s.grid[BUFFER_HEIGHT - 1].update(
            s.col as int,
            (ScreenChar { ascii_character: b, color_code: s.attr }),
        ),
{
}

/// Writing a newline resets the cursor to column 0 and shifts every row's
/// content up by one row, with the new bottom row blank.
pub proof fn lemma_write_newline(s: ScreenState)
    requires
        state_wf(s),
    ensures
        step_byte(s, NEWLINE_BYTE).col == 0,
        forall|r: int|
            0 <= r < BUFFER_HEIGHT - 1
                ==> #[trigger] step_byte(s, NEWLINE_BYTE).grid[r] == s.grid[r + 1],
        step_byte(s, NEWLINE_BYTE).grid[BUFFER_HEIGHT - 1] == blank_row(s.attr),
{
}

/// A printable byte written while the line is exactly full triggers one
/// implicit scroll and then lands in column 0 of the bottom row: the cursor
/// wraps from the full line to 1, not to 0.
pub proof fn lemma_write_on_full_line(s: ScreenState, b: u8)
    requires
        state_wf(s),
        0x20 <= b <= 0x7e,
        s.col == BUFFER_WIDTH,
    ensures
        step_byte(s, b).col == 1,
        step_byte(s, b).grid == put_char(
            scrolled(s.grid, s.attr),
            BUFFER_HEIGHT - 1,
            0,
            ScreenChar { ascii_character: b, color_code: s.attr },
        ),
{
}

/// A byte that is neither printable ASCII nor a newline is stored as the
/// placeholder glyph, not as the original byte.
pub proof fn lemma_non_printable_replaced(s: ScreenState, b: u8)
    requires
        state_wf(s),
        !(0x20 <= b <= 0x7e),
        b != NEWLINE_BYTE,
        s.col < BUFFER_WIDTH,
    ensures
        step_bytes(s, seq![b]).col == s.col + 1,
        step_bytes(s, seq![b]).grid[BUFFER_HEIGHT - 1][s.col as int] == (ScreenChar {
            ascii_character: PLACEHOLDER_BYTE,
            color_code: s.attr,
        }),
{
    let bs = seq![b];
    assert(bs.drop_last() =~= Seq::<u8>::empty());
    assert(step_bytes(s, bs.drop_last()) == s);
    assert(bs.last() == b);
    assert(sanitize_byte(b) == PLACEHOLDER_BYTE);
    assert(step_bytes(s, bs) == step_byte(s, PLACEHOLDER_BYTE));
}

/// Printable bytes that fit on the current line are printed in order at the
/// cursor, each paired with the current attribute: reading the bottom row
/// back yields exactly the bytes written, every other cell is untouched, and
/// the cursor advances by the length written.
pub proof fn lemma_write_line(s: ScreenState, bytes: Seq<u8>)
    requires
        state_wf(s),
        s.col + bytes.len() <= BUFFER_WIDTH,
        forall|k: int| 0 <= k < bytes.len() ==> 0x20 <= #[trigger] bytes[k] <= 0x7e,
    ensures
        step_bytes(s, bytes).col == s.col + bytes.len(),
        step_bytes(s, bytes).attr == s.attr,
        forall|r: int|
            0 <= r < BUFFER_HEIGHT - 1 ==> #[trigger] step_bytes(s, bytes).grid[r] == s.grid[r],
        forall|k: int|
            0 <= k < bytes.len()
                ==> #[trigger] step_bytes(s, bytes).grid[BUFFER_HEIGHT - 1][s.col + k]
                    == (ScreenChar { ascii_character: bytes[k], color_code: s.attr }),
        forall|c: int|
            0 <= c < BUFFER_WIDTH && !(s.col <= c < s.col + bytes.len())
                ==> #[trigger] step_bytes(s, bytes).grid[BUFFER_HEIGHT - 1][c]
                    == s.grid[BUFFER_HEIGHT - 1][c],
    decreases bytes.len(),
{
    if bytes.len() > 0 {
        lemma_write_line(s, bytes.drop_last());
        lemma_step_bytes_wf(s, bytes.drop_last());
        let s1 = step_bytes(s, bytes.drop_last());
        assert(sanitize_byte(bytes.last()) == bytes.last());
        assert(step_bytes(s, bytes) == step_byte(s1, bytes.last()));
    }
}

/// Feeding one byte stream and then another is the same as feeding their
/// concatenation: two writes issued back to back land on the screen exactly
/// as one sequential write of both streams.
pub proof fn lemma_step_bytes_append(s: ScreenState, x: Seq<u8>, y: Seq<u8>)
    ensures
        step_bytes(s, x + y) == step_bytes(step_bytes(s, x), y),
    decreases y.len(),
{
    if y.len() == 0 {
        assert(x + y =~= x);
    } else {
        lemma_step_bytes_append(s, x, y.drop_last());
        assert((x + y).drop_last() =~= x + y.drop_last());
        assert((x + y).last() == y.last());
    }
}

} // verus!
