//! The writer: a cursor over the bottom row of the grid that turns a stream
//! of output bytes into cell writes, line wraps and scrolls.
//!
//! The writer's abstract state is a [`WriterView`]: the cursor column, the
//! current color attribute and the grid contents as one row-major sequence.
//! Every operation's contract says exactly which view it produces, through
//! the spec transition functions [`spec_write_byte`], [`spec_write_bytes`]
//! and [`spec_scroll`].

use vstd::prelude::*;
use vstd::string::StringSliceAdditionalSpecFns;

use crate::color::ColorCode;
use crate::screen::Buffer;
use crate::screen::ScreenChar;
use crate::BUFFER_HEIGHT;
use crate::BUFFER_WIDTH;

verus! {

/// The byte that moves output to a fresh bottom row.
pub const NEWLINE_BYTE: u8 = 0x0a;

/// The glyph stored in place of a byte the character set cannot show.
pub const FALLBACK_BYTE: u8 = 0xfe;

/// First byte of the printable range.
pub const PRINTABLE_MIN: u8 = 0x20;

/// Last byte of the printable range.
pub const PRINTABLE_MAX: u8 = 0x7e;

/// The abstract state of a writer: cursor column (`0..=BUFFER_WIDTH`), the
/// attribute new cells are written with, and the grid as one row-major
/// sequence of `BUFFER_HEIGHT * BUFFER_WIDTH` cells.
#[verifier::ext_equal]
pub struct WriterView {
    pub col: nat,
    pub color: ColorCode,
    pub grid: Seq<ScreenChar>,
}

/// A view is well formed when the cursor sits at or before the row end and
/// the grid holds one cell per screen position.
pub open spec fn wf_view(v: WriterView) -> bool {
    &&& v.col <= BUFFER_WIDTH
    &&& v.grid.len() == BUFFER_HEIGHT * BUFFER_WIDTH
}

/// The blank cell: a space in the given color.
pub open spec fn blank_char(color: ColorCode) -> ScreenChar {
    ScreenChar { ascii_character: PRINTABLE_MIN, color_code: color }
}

/// One full row of blank cells.
pub open spec fn blank_row(color: ColorCode) -> Seq<ScreenChar> {
    Seq::new(BUFFER_WIDTH as nat, |i: int| blank_char(color))
}

/// The row `row` of a grid, as its own sequence of `BUFFER_WIDTH` cells.
pub open spec fn spec_row(grid: Seq<ScreenChar>, row: int) -> Seq<ScreenChar> {
    grid.subrange(row * BUFFER_WIDTH, (row + 1) * BUFFER_WIDTH)
}

/// A scroll: every row's contents move up one row (the top row's old
/// contents are discarded), the bottom row becomes blank in the writer's
/// color, and the cursor returns to column 0.
pub open spec fn spec_scroll(v: WriterView) -> WriterView {
    WriterView {
        col: 0,
        color: v.color,
        grid: v.grid.subrange(BUFFER_WIDTH as int, v.grid.len() as int) + blank_row(v.color),
    }
}

/// Writing one byte: a newline scrolls; any other byte first scrolls if the
/// bottom row is already full, then lands at the cursor on the bottom row
/// and advances the cursor.
pub open spec fn spec_write_byte(v: WriterView, byte: u8) -> WriterView {
    if byte == NEWLINE_BYTE {
        spec_scroll(v)
    } else {
        let w = if v.col >= BUFFER_WIDTH {
            spec_scroll(v)
        } else {
            v
        };
        WriterView {
            col: (w.col + 1) as nat,
            color: w.color,
            grid: w.grid.update(
                (BUFFER_HEIGHT - 1) * BUFFER_WIDTH + w.col,
                ScreenChar { ascii_character: byte, color_code: w.color },
            ),
        }
    }
}

/// Whether a byte lies in the printable range the device can show.
pub open spec fn printable(byte: u8) -> bool {
    PRINTABLE_MIN <= byte <= PRINTABLE_MAX
}

/// The byte actually forwarded to the device for an output byte: printable
/// bytes and newlines pass unchanged, everything else becomes the fallback
/// glyph.
pub open spec fn substituted(byte: u8) -> u8 {
    if printable(byte) || byte == NEWLINE_BYTE {
        byte
    } else {
        FALLBACK_BYTE
    }
}

/// Writing a whole byte sequence: each byte is substituted and then written
/// in order.
pub open spec fn spec_write_bytes(v: WriterView, bytes: Seq<u8>) -> WriterView
    decreases bytes.len(),
{
    if bytes.len() == 0 {
        v
    } else {
        spec_write_bytes(
            spec_write_byte(v, substituted(bytes[0])),
            bytes.subrange(1, bytes.len() as int),
        )
    }
}

/// The writer: cursor column, current color attribute, and the grid it
/// mutates. Output always lands on the bottom row; earlier output is only
/// reachable by scrolling it upward.
pub struct Writer {
    column_position: usize,
    color_code: ColorCode,
    buffer: Buffer,
}

impl View for Writer {
    type V = WriterView;

    closed spec fn view(&self) -> WriterView {
        WriterView {
            col: self.column_position as nat,
            color: self.color_code,
            grid: self.buffer@,
        }
    }
}

impl Writer {
    /// A writer is well formed when its view is.
    pub open spec fn wf(&self) -> bool {
        wf_view(self@)
    }

    /// Builds a writer over the given grid, with the cursor at column 0.
    pub fn new(color_code: ColorCode, buffer: Buffer) -> (writer: Writer)
        requires
            buffer.wf(),
        ensures
            writer.wf(),
            writer@ == (WriterView { col: 0, color: color_code, grid: buffer@ }),
    {
        Writer { column_position: 0, color_code, buffer }
    }

    /// The color attribute new cells are written with.
    pub fn color_code(&self) -> (color: ColorCode)
        ensures
            color == self@.color,
    {
        self.color_code
    }

    /// The cursor column on the bottom row; `BUFFER_WIDTH` means the row is
    /// full and the next non-newline byte will wrap.
    pub fn column_position(&self) -> (col: usize)
        ensures
            col == self@.col,
    {
        self.column_position
    }

    /// Reads the cell at `(row, col)` of the grid.
    pub fn char_at(&self, row: usize, col: usize) -> (value: ScreenChar)
        requires
            self.wf(),
            row < BUFFER_HEIGHT,
            col < BUFFER_WIDTH,
        ensures
            value == self@.grid[row * BUFFER_WIDTH + col],
    {
        self.buffer.read_char(row, col)
    }

    /// Writes one byte: a newline scrolls, a full bottom row wraps first,
    /// any other byte lands at the cursor with the current color.
    pub fn write_byte(&mut self, byte: u8)
        requires
            old(self).wf(),
        ensures
            final(self).wf(),
            final(self)@ == spec_write_byte(old(self)@, byte),
    {
        if byte == NEWLINE_BYTE {
            self.new_line();
        } else {
            if self.column_position >= BUFFER_WIDTH {
                self.new_line();
            }
            let row = BUFFER_HEIGHT - 1;
            let col = self.column_position;
            let color_code = self.color_code;
            self.buffer.write_char(row, col, ScreenChar { ascii_character: byte, color_code });
            self.column_position = self.column_position + 1;
        }
    }

    /// Writes every byte of the string in order, substituting the fallback
    /// glyph for each byte that is neither printable nor a newline.
    pub fn write_string(&mut self, s: &str)
        requires
            old(self).wf(),
        ensures
            final(self).wf(),
            final(self)@ == spec_write_bytes(old(self)@, s.spec_bytes()),
    {
        let ghost v0 = self@;
        let bytes = s.as_bytes();
        proof {
            assert(bytes@.subrange(0, bytes@.len() as int) =~= bytes@);
        }
        let mut i: usize = 0;
        while i < bytes.len()
            invariant
                self.wf(),
                i <= bytes@.len(),
                spec_write_bytes(v0, bytes@) == spec_write_bytes(
                    self@,
                    bytes@.subrange(i as int, bytes@.len() as int),
                ),
            decreases bytes@.len() - i,
        {
            proof {
                let remaining = bytes@.subrange(i as int, bytes@.len() as int);
                assert(remaining[0] == bytes@[i as int]);
                assert(remaining.subrange(1, remaining.len() as int) =~= bytes@.subrange(
                    i as int + 1,
                    bytes@.len() as int,
                ));
            }
            let byte = bytes[i];
            if (PRINTABLE_MIN <= byte && byte <= PRINTABLE_MAX) || byte == NEWLINE_BYTE {
                self.write_byte(byte);
            } else {
                self.write_byte(FALLBACK_BYTE);
            }
            i = i + 1;
        }
        proof {
            assert(bytes@.subrange(i as int, bytes@.len() as int) =~= Seq::<u8>::empty());
        }
    }

    /// Scrolls: copies each row over the row above it, from the second row
    /// down, clears the bottom row, and resets the cursor to column 0.
    fn new_line(&mut self)
        requires
            old(self).wf(),
        ensures
            final(self).wf(),
            final(self)@ == spec_scroll(old(self)@),
    {
        let ghost v0 = self@;
        let mut row: usize = 1;
        while row < BUFFER_HEIGHT
            invariant
                self.wf(),
                wf_view(v0),
                1 <= row <= BUFFER_HEIGHT,
                self@.col == v0.col,
                self@.color == v0.color,
                forall|i: int|
                    0 <= i < (row - 1) * BUFFER_WIDTH ==> self@.grid[i] == v0.grid[
                        i + BUFFER_WIDTH
                    ],
                forall|i: int|
                    (row - 1) * BUFFER_WIDTH <= i < v0.grid.len() ==> self@.grid[i] == v0.grid[i],
            decreases BUFFER_HEIGHT - row,
        {
            let mut col: usize = 0;
            while col < BUFFER_WIDTH
                invariant
                    self.wf(),
                    wf_view(v0),
                    1 <= row < BUFFER_HEIGHT,
                    col <= BUFFER_WIDTH,
                    self@.col == v0.col,
                    self@.color == v0.color,
                    forall|i: int|
                        0 <= i < (row - 1) * BUFFER_WIDTH + col ==> self@.grid[i] == v0.grid[
                            i + BUFFER_WIDTH
                        ],
                    forall|i: int|
                        (row - 1) * BUFFER_WIDTH + col <= i < v0.grid.len() ==> self@.grid[i]
                            == v0.grid[i],
                decreases BUFFER_WIDTH - col,
            {
                let character = self.buffer.read_char(row, col);
                self.buffer.write_char(row - 1, col, character);
                col = col + 1;
            }
            row = row + 1;
        }
        self.clear_row(BUFFER_HEIGHT - 1);
        self.column_position = 0;
        proof {
            assert(self@.grid =~= spec_scroll(v0).grid);
            assert(self@ =~= spec_scroll(v0));
        }
    }

    /// Overwrites every cell of the given row with the blank cell in the
    /// writer's current color.
    fn clear_row(&mut self, row: usize)
        requires
            old(self).wf(),
            row < BUFFER_HEIGHT,
        ensures
            final(self).wf(),
            final(self)@.col == old(self)@.col,
            final(self)@.color == old(self)@.color,
            final(self)@.grid.len() == old(self)@.grid.len(),
            forall|i: int|
                row * BUFFER_WIDTH <= i < (row + 1) * BUFFER_WIDTH ==> final(self)@.grid[i]
                    == blank_char(old(self)@.color),
            forall|i: int|
                0 <= i < old(self)@.grid.len() && !(row * BUFFER_WIDTH <= i < (row + 1)
                    * BUFFER_WIDTH) ==> final(self)@.grid[i] == old(self)@.grid[i],
    {
        let ghost v0 = self@;
        let blank = ScreenChar { ascii_character: PRINTABLE_MIN, color_code: self.color_code };
        let mut col: usize = 0;
        while col < BUFFER_WIDTH
            invariant
                self.wf(),
                wf_view(v0),
                row < BUFFER_HEIGHT,
                col <= BUFFER_WIDTH,
                self@.col == v0.col,
                self@.color == v0.color,
                blank == blank_char(v0.color),
                forall|i: int|
                    row * BUFFER_WIDTH <= i < row * BUFFER_WIDTH + col ==> self@.grid[i]
                        == blank_char(v0.color),
                forall|i: int|
                    0 <= i < v0.grid.len() && !(row * BUFFER_WIDTH <= i < row * BUFFER_WIDTH + col)
                        ==> self@.grid[i] == v0.grid[i],
            decreases BUFFER_WIDTH - col,
        {
            self.buffer.write_char(row, col, blank);
            col = col + 1;
        }
    }
}

/// Print entry point: writes already-formatted text through the exclusively
/// held writer. Formatting the text and acquiring the writer are the
/// unverified shell's work; this call itself cannot fail.
pub fn _print(writer: &mut Writer, s: &str)
    requires
        old(writer).wf(),
    ensures
        final(writer).wf(),
        final(writer)@ == spec_write_bytes(old(writer)@, s.spec_bytes()),
{
    writer.write_string(s);
}

/// A newline always scrolls and returns the cursor to column 0, whatever
/// column the cursor was at — column 0 included.
pub proof fn lemma_newline_scrolls(v: WriterView)
    ensures
        spec_write_byte(v, NEWLINE_BYTE) == spec_scroll(v),
        spec_write_byte(v, NEWLINE_BYTE).col == 0,
{
}

/// Printable bytes that fit in the space left on the bottom row land one
/// after another at the cursor, in the writer's color, without a scroll:
/// the cursor advances by their count and every other cell keeps its
/// contents.
pub proof fn lemma_write_printables(v: WriterView, bytes: Seq<u8>)
    requires
        wf_view(v),
        forall|k: int| 0 <= k < bytes.len() ==> printable(#[trigger] bytes[k]),
        v.col + bytes.len() <= BUFFER_WIDTH,
    ensures
        wf_view(spec_write_bytes(v, bytes)),
        spec_write_bytes(v, bytes).col == v.col + bytes.len(),
        spec_write_bytes(v, bytes).color == v.color,
        forall|k: int|
            0 <= k < bytes.len() ==> spec_write_bytes(v, bytes).grid[(BUFFER_HEIGHT - 1)
                * BUFFER_WIDTH + v.col + k] == (ScreenChar {
                ascii_character: #[trigger] bytes[k],
                color_code: v.color,
            }),
        forall|i: int|
            0 <= i < v.grid.len() && !((BUFFER_HEIGHT - 1) * BUFFER_WIDTH + v.col <= i < (
            BUFFER_HEIGHT - 1) * BUFFER_WIDTH + v.col + bytes.len()) ==> spec_write_bytes(
                v,
                bytes,
            ).grid[i] == #[trigger] v.grid[i],
    decreases bytes.len(),
{
    let base = (BUFFER_HEIGHT - 1) * BUFFER_WIDTH;
    if bytes.len() > 0 {
        let b = bytes[0];
        assert(printable(b));
        assert(substituted(b) == b);
        let v1 = spec_write_byte(v, b);
        let rest = bytes.subrange(1, bytes.len() as int);
        assert(forall|k: int| 0 <= k < rest.len() ==> printable(#[trigger] rest[k]));
        lemma_write_printables(v1, rest);
        let w = spec_write_bytes(v1, rest);
        assert(spec_write_bytes(v, bytes) == w);
        assert forall|k: int| 0 <= k < bytes.len() implies w.grid[base + v.col + k]
            == (ScreenChar { ascii_character: #[trigger] bytes[k], color_code: v.color }) by {
            if k == 0 {
                assert(v1.grid[base + v.col] == (ScreenChar {
                    ascii_character: b,
                    color_code: v.color,
                }));
            } else {
                assert(rest[k - 1] == bytes[k]);
                assert(w.grid[base + v1.col + (k - 1)] == (ScreenChar {
                    ascii_character: rest[k - 1],
                    color_code: v1.color,
                }));
            }
        }
        assert forall|i: int|
            0 <= i < v.grid.len() && !(base + v.col <= i < base + v.col
                + bytes.len()) implies w.grid[i] == v.grid[i] by {
            assert(v1.grid[i] == v.grid[i]);
            assert(w.grid[i] == v1.grid[i]);
        }
    }
}

/// Writing printable byte `x` then printable byte `y` to a freshly cleared
/// writer places `x` at (bottom row, column 0) and `y` at (bottom row,
/// column 1); every other cell remains the blank cell in the writer's
/// color.
pub proof fn lemma_two_printable_bytes(v: WriterView, x: u8, y: u8)
    requires
        wf_view(v),
        v.col == 0,
        printable(x),
        printable(y),
        forall|i: int| 0 <= i < v.grid.len() ==> #[trigger] v.grid[i] == blank_char(v.color),
    ensures
        spec_write_bytes(v, seq![x, y]).grid[(BUFFER_HEIGHT - 1) * BUFFER_WIDTH]
            == (ScreenChar { ascii_character: x, color_code: v.color }),
        spec_write_bytes(v, seq![x, y]).grid[(BUFFER_HEIGHT - 1) * BUFFER_WIDTH + 1]
            == (ScreenChar { ascii_character: y, color_code: v.color }),
        forall|i: int|
            0 <= i < v.grid.len() && i != (BUFFER_HEIGHT - 1) * BUFFER_WIDTH && i != (BUFFER_HEIGHT
                - 1) * BUFFER_WIDTH + 1 ==> spec_write_bytes(v, seq![x, y]).grid[i]
                == #[trigger] v.grid[i],
{
    let bytes = seq![x, y];
    assert(forall|k: int| 0 <= k < bytes.len() ==> printable(#[trigger] bytes[k]));
    lemma_write_printables(v, bytes);
    assert(bytes[0] == x && bytes[1] == y);
}

/// A byte that is neither printable nor a newline is never stored: writing
/// it writes the fallback glyph instead, and the cell the cursor just
/// passed holds the fallback byte.
pub proof fn lemma_fallback_substitution(v: WriterView, byte: u8)
    requires
        wf_view(v),
        !printable(byte),
        byte != NEWLINE_BYTE,
    ensures
        spec_write_bytes(v, seq![byte]) == spec_write_byte(v, FALLBACK_BYTE),
        ({
            let w = spec_write_bytes(v, seq![byte]);
            w.grid[(BUFFER_HEIGHT - 1) * BUFFER_WIDTH + w.col - 1].ascii_character
                == FALLBACK_BYTE
        }),
{
    let bytes = seq![byte];
    assert(bytes[0] == byte);
    assert(substituted(byte) == FALLBACK_BYTE);
    assert(bytes.subrange(1, 1) =~= Seq::<u8>::empty());
    let v1 = spec_write_byte(v, FALLBACK_BYTE);
    assert(spec_write_bytes(v1, Seq::<u8>::empty()) == v1);
    assert(spec_write_bytes(v, bytes) == spec_write_byte(v, FALLBACK_BYTE));
}

/// Writing exactly BUFFER_WIDTH printable bytes from column 0 fills the
/// bottom row completely without a scroll and leaves every row above
/// untouched; the next printable byte then scrolls — the freshly filled
/// bottom row moves up to the next-to-last row — and lands at (bottom row,
/// column 0).
pub proof fn lemma_wrap_on_fill(v: WriterView, bytes: Seq<u8>, extra: u8)
    requires
        wf_view(v),
        v.col == 0,
        bytes.len() == BUFFER_WIDTH,
        forall|k: int| 0 <= k < bytes.len() ==> printable(#[trigger] bytes[k]),
        printable(extra),
    ensures
        spec_write_bytes(v, bytes).col == BUFFER_WIDTH,
        spec_row(spec_write_bytes(v, bytes).grid, BUFFER_HEIGHT - 1) == (Seq::new(
            BUFFER_WIDTH as nat,
            |k: int| (ScreenChar { ascii_character: bytes[k], color_code: v.color }),
        )),
        forall|i: int|
            0 <= i < (BUFFER_HEIGHT - 1) * BUFFER_WIDTH ==> #[trigger] spec_write_bytes(
                v,
                bytes,
            ).grid[i] == v.grid[i],
        spec_write_byte(spec_write_bytes(v, bytes), extra).col == 1,
        spec_row(spec_write_byte(spec_write_bytes(v, bytes), extra).grid, BUFFER_HEIGHT - 2)
            == spec_row(spec_write_bytes(v, bytes).grid, BUFFER_HEIGHT - 1),
        spec_write_byte(spec_write_bytes(v, bytes), extra).grid[(BUFFER_HEIGHT - 1)
            * BUFFER_WIDTH] == (ScreenChar { ascii_character: extra, color_code: v.color }),
{
    lemma_write_printables(v, bytes);
    let w = spec_write_bytes(v, bytes);
    assert(spec_row(w.grid, BUFFER_HEIGHT - 1) =~= Seq::new(
        BUFFER_WIDTH as nat,
        |k: int| (ScreenChar { ascii_character: bytes[k], color_code: v.color }),
    ));
    let u = spec_write_byte(w, extra);
    assert(u.grid == spec_scroll(w).grid.update(
        (BUFFER_HEIGHT - 1) * BUFFER_WIDTH,
        ScreenChar { ascii_character: extra, color_code: w.color },
    ));
    assert(spec_row(u.grid, BUFFER_HEIGHT - 2) =~= spec_row(w.grid, BUFFER_HEIGHT - 1));
}

/// A scroll preserves the order of the surviving rows: each row's contents
/// move exactly one row up, and the freed bottom row is blank in the
/// writer's color.
pub proof fn lemma_scroll_shifts_rows(v: WriterView)
    requires
        wf_view(v),
    ensures
        forall|r: int|
            0 <= r < BUFFER_HEIGHT - 1 ==> #[trigger] spec_row(spec_scroll(v).grid, r) == spec_row(
                v.grid,
                r + 1,
            ),
        spec_row(spec_scroll(v).grid, BUFFER_HEIGHT - 1) == blank_row(v.color),
{
    assert forall|r: int| 0 <= r < BUFFER_HEIGHT - 1 implies #[trigger] spec_row(
        spec_scroll(v).grid,
        r,
    ) == spec_row(v.grid, r + 1) by {
        assert(spec_row(spec_scroll(v).grid, r) =~= spec_row(v.grid, r + 1));
    }
    assert(spec_row(spec_scroll(v).grid, BUFFER_HEIGHT - 1) =~= blank_row(v.color));
}

/// When the top row's contents differ from every other row's and from the
/// blank row, one scroll leaves the old top row's contents nowhere in the
/// grid: it is discarded, not rotated to the bottom.
pub proof fn lemma_scroll_discards_top(v: WriterView)
    requires
        wf_view(v),
        forall|r: int|
            1 <= r < BUFFER_HEIGHT ==> #[trigger] spec_row(v.grid, r) != spec_row(v.grid, 0),
        spec_row(v.grid, 0) != blank_row(v.color),
    ensures
        forall|r: int|
            0 <= r < BUFFER_HEIGHT ==> #[trigger] spec_row(spec_scroll(v).grid, r) != spec_row(
                v.grid,
                0,
            ),
{
    lemma_scroll_shifts_rows(v);
}

} // verus!
