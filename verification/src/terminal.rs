//! Terminal grid state, backed by the external escape-sequence engine.
//!
//! The authoritative character grid — cursor, attributes, scrollback,
//! line wrapping — lives in the terminal-state engine; this crate only
//! pushes raw bytes into it and reads back, per cell, a character with
//! its two colors.  The engine's state is opaque to verification, so the
//! grid's contents are named by the uninterpreted view [`grid_view`],
//! the few calls into the engine are trusted items phrased over that
//! view, and everything downstream — visible-text extraction, the
//! per-frame cell records — is verified against it.

use vstd::prelude::*;
use alacritty_terminal::Term;
use alacritty_terminal::event::VoidListener;
use alacritty_terminal::vte::ansi::{Processor, StdSyncHandler};
use crate::colors::CellColor;

verus! {

/// Terminal width in cells, fixed at initialization.
pub const TERM_COLS: usize = 120;

/// Terminal height in cells, fixed at initialization.
pub const TERM_ROWS: usize = 30;

#[verifier::external_type_specification]
#[verifier::external_body]
#[verifier::reject_recursive_types(T)]
#[allow(missing_docs)]
pub struct ExTerm<T>(Term<T>);

#[verifier::external_type_specification]
#[verifier::external_body]
#[allow(missing_docs)]
pub struct ExVoidListener(VoidListener);

/// The escape-sequence parser, held opaquely: its type's parameters
/// name traits of the parser crate, which cannot be declared here, so
/// the parser sits in a hidden field and is touched only by the
/// trusted items below.
#[verifier::external_body]
pub struct ByteParser {
    inner: Processor<StdSyncHandler>,
}

/// One grid cell as this crate reads it: the character and the cell's
/// foreground and background colors, reduced to plain values.
#[derive(Clone, Copy, PartialEq, Eq, Structural, Debug)]
pub struct GridCell {
    /// The cell's character.
    pub ch: char,
    /// Foreground color.
    pub fg: CellColor,
    /// Background color.
    pub bg: CellColor,
}

/// The grid contents of a terminal engine: one row of cells per screen
/// line, top to bottom, each row left to right.
pub uninterp spec fn grid_view(t: Term<VoidListener>) -> Seq<Seq<GridCell>>;

/// The engine's full internal state — grid, cursor, modes, scrollback —
/// as one opaque value.  The next parse step can depend on all of it,
/// so the step below is named as a function over this whole state, not
/// over the grid alone.
pub uninterp spec fn engine_state(t: Term<VoidListener>) -> Seq<u8>;

/// The parser's internal state — in-flight escape sequence, sync-update
/// buffer — as one opaque value.
pub uninterp spec fn parser_view(p: ByteParser) -> Seq<u8>;

/// What one parse step produces: from a parser state, an engine state
/// and the input bytes, the new parser state, the new engine state, and
/// the grid that new state shows.
pub uninterp spec fn advance_of(parser: Seq<u8>, state: Seq<u8>, bytes: Seq<u8>) -> (
    Seq<u8>,
    Seq<u8>,
    Seq<Seq<GridCell>>,
);

/// A grid of exactly `rows` rows of `cols` cells each.
pub open spec fn grid_dims(t: Term<VoidListener>, rows: int, cols: int) -> bool {
    grid_view(t).len() == rows && forall|r: int|
        0 <= r < rows ==> (#[trigger] grid_view(t)[r]).len() == cols
}

/// The default cell: a space with the named foreground and background
/// colors, as the engine fills fresh grids.
pub open spec fn default_grid_cell() -> GridCell {
    GridCell {
        ch: ' ',
        fg: CellColor::Named(crate::colors::NAMED_FOREGROUND),
        bg: CellColor::Named(crate::colors::NAMED_BACKGROUND),
    }
}

/// Relies on the engine's `Term::new`: a fresh terminal of the given
/// geometry whose grid holds default cells — spaces in the default
/// colors.
#[verifier::external_body]
fn term_new(cols: usize, rows: usize) -> (t: Term<VoidListener>)
    requires
        1 <= cols,
        1 <= rows,
    ensures
        grid_dims(t, rows as int, cols as int),
        forall|r: int, c: int|
            0 <= r < rows && 0 <= c < cols ==> #[trigger] grid_view(t)[r][c]
                == default_grid_cell(),
{
    let config = alacritty_terminal::term::Config::default();
    let size = alacritty_terminal::term::test::TermSize::new(cols, rows);
    Term::new(config, &size, VoidListener)
}

/// Relies on the escape-sequence parser's `Processor::new`.
#[verifier::external_body]
fn processor_new() -> ByteParser {
    ByteParser { inner: Processor::new() }
}

/// Relies on the parser's `Processor::advance`: interprets the bytes,
/// updating the grid's cells.  The outcome is the parse step
/// [`advance_of`] of the two states and the bytes, and of nothing else:
/// the parser's synchronized-update branch tests only whether a timeout
/// is set, never the clock.  The grid keeps its geometry.
#[verifier::external_body]
fn advance_bytes(processor: &mut ByteParser, term: &mut Term<VoidListener>, bytes: &[u8])
    ensures
        parser_view(*final(processor)) == advance_of(
            parser_view(*old(processor)),
            engine_state(*old(term)),
            bytes@,
        ).0,
        engine_state(*final(term)) == advance_of(
            parser_view(*old(processor)),
            engine_state(*old(term)),
            bytes@,
        ).1,
        grid_view(*final(term)) == advance_of(
            parser_view(*old(processor)),
            engine_state(*old(term)),
            bytes@,
        ).2,
        grid_view(*final(term)).len() == grid_view(*old(term)).len(),
        forall|r: int|
            0 <= r < grid_view(*final(term)).len() ==> (#[trigger] grid_view(*final(term))[r])
                .len() == grid_view(*old(term))[r].len(),
{
    processor.inner.advance(term, bytes);
}

/// Relies on the engine's grid indexing: the cell at the given visible
/// position, its colors reduced to plain values variant by variant.
#[verifier::external_body]
fn read_cell(term: &Term<VoidListener>, row: usize, col: usize) -> (cell: GridCell)
    requires
        0 <= row < grid_view(*term).len(),
        0 <= col < grid_view(*term)[row as int].len(),
    ensures
        cell == grid_view(*term)[row as int][col as int],
{
    let line = alacritty_terminal::index::Line(row as i32);
    let column = alacritty_terminal::index::Column(col);
    let cell = &term.grid()[line][column];
    let conv = |c: alacritty_terminal::vte::ansi::Color| -> CellColor {
        match c {
            alacritty_terminal::vte::ansi::Color::Named(n) => CellColor::Named(n as u16),
            alacritty_terminal::vte::ansi::Color::Spec(rgb) => CellColor::Rgb(rgb.r, rgb.g, rgb.b),
            alacritty_terminal::vte::ansi::Color::Indexed(i) => CellColor::Indexed(i),
        }
    };
    GridCell { ch: cell.c, fg: conv(cell.fg), bg: conv(cell.bg) }
}

/// Relies on `String::push`: appends one character.
#[verifier::external_body]
fn push_char(s: &mut String, c: char)
    ensures
        final(s)@ == old(s)@.push(c),
{
    s.push(c);
}

/// The character a grid cell shows in extracted text: the null
/// character reads as a space, every other character as itself.
pub open spec fn spec_visible_char(cell: GridCell) -> char {
    if cell.ch == '\0' {
        ' '
    } else {
        cell.ch
    }
}

/// The visible text of one grid row.
pub open spec fn spec_row_text(row: Seq<GridCell>) -> Seq<char> {
    row.map_values(|cell: GridCell| spec_visible_char(cell))
}

/// The visible text of the first `n` rows of a grid, each row followed
/// by a newline.
pub open spec fn spec_grid_text(grid: Seq<Seq<GridCell>>, n: int) -> Seq<char>
    decreases n,
{
    if n <= 0 {
        Seq::empty()
    } else {
        spec_grid_text(grid, n - 1) + spec_row_text(grid[n - 1]) + seq!['\n']
    }
}

/// Whether a character counts as blank for line trimming: the Unicode
/// white-space set, the same characters `str::trim` removes.
pub open spec fn spec_is_blank(c: char) -> bool {
    let cp = c as u32;
    ||| (0x09 <= cp && cp <= 0x0d)
    ||| cp == 0x20
    ||| cp == 0x85
    ||| cp == 0xa0
    ||| cp == 0x1680
    ||| (0x2000 <= cp && cp <= 0x200a)
    ||| cp == 0x2028
    ||| cp == 0x2029
    ||| cp == 0x202f
    ||| cp == 0x205f
    ||| cp == 0x3000
}

/// Decides [`spec_is_blank`].
fn is_blank_char(c: char) -> (r: bool)
    ensures
        r == spec_is_blank(c),
{
    let cp = c as u32;
    (0x09 <= cp && cp <= 0x0d) || cp == 0x20 || cp == 0x85 || cp == 0xa0 || cp == 0x1680 || (
    0x2000 <= cp && cp <= 0x200a) || cp == 0x2028 || cp == 0x2029 || cp == 0x202f || cp == 0x205f
        || cp == 0x3000
}

/// The sequence with its leading blanks removed.
pub open spec fn spec_trim_front(s: Seq<char>) -> Seq<char>
    decreases s.len(),
{
    if s.len() == 0 {
        s
    } else if spec_is_blank(s[0]) {
        spec_trim_front(s.drop_first())
    } else {
        s
    }
}

/// The sequence with its trailing blanks removed.
pub open spec fn spec_trim_back(s: Seq<char>) -> Seq<char>
    decreases s.len(),
{
    if s.len() == 0 {
        s
    } else if spec_is_blank(s.last()) {
        spec_trim_back(s.drop_last())
    } else {
        s
    }
}

/// The sequence with blanks removed from both ends.
pub open spec fn spec_trim(s: Seq<char>) -> Seq<char> {
    spec_trim_back(spec_trim_front(s))
}

/// Removing leading blanks keeps everything from the first non-blank
/// position on.
proof fn lemma_trim_front_at(s: Seq<char>, k: int)
    requires
        0 <= k <= s.len(),
        forall|i: int| 0 <= i < k ==> spec_is_blank(s[i]),
        k < s.len() ==> !spec_is_blank(s[k]),
    ensures
        spec_trim_front(s) =~= s.subrange(k, s.len() as int),
    decreases k,
{
    if k == 0 {
        if s.len() == 0 {
        } else {
            assert(s.subrange(0, s.len() as int) =~= s);
        }
    } else {
        assert(spec_is_blank(s[0]));
        let t = s.drop_first();
        assert(forall|i: int| 0 <= i < k - 1 ==> spec_is_blank(#[trigger] t[i]));
        lemma_trim_front_at(t, k - 1);
        assert(t.subrange(k - 1, t.len() as int) =~= s.subrange(k, s.len() as int));
    }
}

/// Removing trailing blanks keeps everything up to the last non-blank
/// position.
proof fn lemma_trim_back_at(s: Seq<char>, k: int)
    requires
        0 <= k <= s.len(),
        forall|i: int| k <= i < s.len() ==> spec_is_blank(s[i]),
        k > 0 ==> !spec_is_blank(s[k - 1]),
    ensures
        spec_trim_back(s) =~= s.subrange(0, k),
    decreases s.len() - k,
{
    if k == s.len() {
        if s.len() == 0 {
        } else if spec_is_blank(s.last()) {
            assert(false);
        } else {
            assert(s.subrange(0, s.len() as int) =~= s);
        }
    } else {
        assert(spec_is_blank(s.last()));
        let t = s.drop_last();
        assert(forall|i: int| k <= i < t.len() ==> spec_is_blank(#[trigger] t[i]));
        lemma_trim_back_at(t, k);
        assert(t.subrange(0, k) =~= s.subrange(0, k));
    }
}

/// Terminal grid state: the engine's terminal, the escape-sequence
/// processor that feeds it, and the fixed geometry.
pub struct TerminalState {
    /// The engine's terminal.
    pub term: Term<VoidListener>,
    /// The escape-sequence parser.
    pub processor: ByteParser,
    /// Terminal width in cells.
    pub cols: usize,
    /// Terminal height in cells.
    pub rows: usize,
}

impl TerminalState {
    /// Well-formedness: the engine's grid has exactly the stated
    /// geometry.
    pub open spec fn wf(self) -> bool {
        &&& 1 <= self.cols
        &&& 1 <= self.rows
        &&& grid_dims(self.term, self.rows as int, self.cols as int)
    }

    /// Creates the terminal at the fixed geometry, its grid filled with
    /// default cells.
    pub fn new() -> (r: TerminalState)
        ensures
            r.wf(),
            r.cols == TERM_COLS,
            r.rows == TERM_ROWS,
            forall|row: int, col: int|
                0 <= row < r.rows && 0 <= col < r.cols ==> #[trigger] grid_view(r.term)[row][col]
                    == default_grid_cell(),
    {
        let term = term_new(TERM_COLS, TERM_ROWS);
        TerminalState { term, processor: processor_new(), cols: TERM_COLS, rows: TERM_ROWS }
    }

    /// Feeds raw bytes from the session into the escape-sequence
    /// parser, which updates the grid: afterwards the parser, the
    /// engine and the grid are exactly the parse step [`advance_of`] of
    /// the previous states and these bytes.  The geometry never
    /// changes.
    pub fn process_bytes(&mut self, bytes: &[u8])
        requires
            old(self).wf(),
        ensures
            final(self).wf(),
            final(self).cols == old(self).cols,
            final(self).rows == old(self).rows,
            parser_view(final(self).processor) == advance_of(
                parser_view(old(self).processor),
                engine_state(old(self).term),
                bytes@,
            ).0,
            engine_state(final(self).term) == advance_of(
                parser_view(old(self).processor),
                engine_state(old(self).term),
                bytes@,
            ).1,
            grid_view(final(self).term) == advance_of(
                parser_view(old(self).processor),
                engine_state(old(self).term),
                bytes@,
            ).2,
    {
        advance_bytes(&mut self.processor, &mut self.term, bytes);
    }

    /// Reads one cell of the visible grid.
    pub fn cell_at(&self, row: usize, col: usize) -> (cell: GridCell)
        requires
            self.wf(),
            row < self.rows,
            col < self.cols,
        ensures
            cell == grid_view(self.term)[row as int][col as int],
    {
        read_cell(&self.term, row, col)
    }

    /// Extracts the grid's visible text: every cell's character row by
    /// row — nulls read as spaces — with a newline after each row.
    pub fn get_visible_text(&self) -> (text: String)
        requires
            self.wf(),
        ensures
            text@ == spec_grid_text(grid_view(self.term), self.rows as int),
    {
        let mut text = String::new();
        let mut row: usize = 0;
        while row < self.rows
            invariant
                self.wf(),
                row <= self.rows,
                text@ == spec_grid_text(grid_view(self.term), row as int),
            decreases self.rows - row,
        {
            let mut col: usize = 0;
            while col < self.cols
                invariant
                    self.wf(),
                    row < self.rows,
                    col <= self.cols,
                    text@ == spec_grid_text(grid_view(self.term), row as int) + spec_row_text(
                        grid_view(self.term)[row as int],
                    ).take(col as int),
                decreases self.cols - col,
            {
                let cell = self.cell_at(row, col);
                let visible = if cell.ch == '\0' {
                    ' '
                } else {
                    cell.ch
                };
                push_char(&mut text, visible);
                proof {
                    assert(spec_row_text(grid_view(self.term)[row as int]).take(col + 1)
                        =~= spec_row_text(grid_view(self.term)[row as int]).take(col as int).push(
                        spec_visible_char(cell),
                    ));
                }
                col = col + 1;
            }
            push_char(&mut text, '\n');
            proof {
                assert(spec_row_text(grid_view(self.term)[row as int]).take(self.cols as int)
                    =~= spec_row_text(grid_view(self.term)[row as int]));
                assert(spec_grid_text(grid_view(self.term), row + 1) =~= spec_grid_text(
                    grid_view(self.term),
                    row as int,
                ) + spec_row_text(grid_view(self.term)[row as int]) + seq!['\n']);
            }
            row = row + 1;
        }
        text
    }

    /// A compact summary of the grid: for each row whose text is not
    /// all white space, the row's index and its text with white space
    /// trimmed from both ends, in row order.
    #[verifier::rlimit(100)]
    pub fn get_content_summary(&self) -> (summary: Vec<(usize, String)>)
        requires
            self.wf(),
        ensures
            forall|k: int|
                0 <= k < summary@.len() ==> {
                    let entry = #[trigger] summary@[k];
                    &&& 0 <= entry.0 < self.rows
                    &&& entry.1@ =~= spec_trim(spec_row_text(grid_view(self.term)[entry.0 as int]))
                    &&& entry.1@.len() > 0
                },
            forall|k1: int, k2: int|
                0 <= k1 < k2 < summary@.len() ==> (#[trigger] summary@[k1]).0 < (
                #[trigger] summary@[k2]).0,
            forall|r: int|
                0 <= r < self.rows && spec_trim(spec_row_text(grid_view(self.term)[r])).len() > 0
                    ==> exists|k: int|
                    0 <= k < summary@.len() && (#[trigger] summary@[k]).0 == r,
    {
        let mut summary: Vec<(usize, String)> = Vec::new();
        let mut row: usize = 0;
        while row < self.rows
            invariant
                self.wf(),
                row <= self.rows,
                forall|k: int|
                    0 <= k < summary@.len() ==> {
                        let entry = #[trigger] summary@[k];
                        &&& 0 <= entry.0 < row
                        &&& entry.1@ =~= spec_trim(
                            spec_row_text(grid_view(self.term)[entry.0 as int]),
                        )
                        &&& entry.1@.len() > 0
                    },
                forall|k1: int, k2: int|
                    0 <= k1 < k2 < summary@.len() ==> (#[trigger] summary@[k1]).0 < (
                    #[trigger] summary@[k2]).0,
                forall|r: int|
                    0 <= r < row && spec_trim(spec_row_text(grid_view(self.term)[r])).len() > 0
                        ==> exists|k: int|
                        0 <= k < summary@.len() && (#[trigger] summary@[k]).0 == r,
            decreases self.rows - row,
        {
            let ghost row_seq = spec_row_text(grid_view(self.term)[row as int]);
            let mut row_chars: Vec<char> = Vec::new();
            let mut col: usize = 0;
            while col < self.cols
                invariant
                    self.wf(),
                    row < self.rows,
                    col <= self.cols,
                    row_seq == spec_row_text(grid_view(self.term)[row as int]),
                    row_chars@ =~= row_seq.take(col as int),
                decreases self.cols - col,
            {
                let cell = self.cell_at(row, col);
                let visible = if cell.ch == '\0' {
                    ' '
                } else {
                    cell.ch
                };
                row_chars.push(visible);
                proof {
                    assert(row_seq.take(col + 1) =~= row_seq.take(col as int).push(
                        spec_visible_char(cell),
                    ));
                }
                col = col + 1;
            }
            proof {
                assert(row_chars@ =~= row_seq);
            }
            let n = row_chars.len();
            let mut start: usize = 0;
            while start < n && is_blank_char(row_chars[start])
                invariant
                    n == row_chars@.len(),
                    start <= n,
                    forall|i: int| 0 <= i < start ==> spec_is_blank(#[trigger] row_chars@[i]),
                decreases n - start,
            {
                start = start + 1;
            }
            let mut end: usize = n;
            while end > start && is_blank_char(row_chars[end - 1])
                invariant
                    n == row_chars@.len(),
                    start <= end <= n,
                    forall|i: int| end <= i < n ==> spec_is_blank(#[trigger] row_chars@[i]),
                    start < n ==> !spec_is_blank(row_chars@[start as int]),
                decreases end,
            {
                end = end - 1;
            }
            proof {
                if start == n {
                    assert(end == start);
                }
                lemma_trim_front_at(row_chars@, start as int);
                if start < n {
                    let tail = row_chars@.subrange(start as int, n as int);
                    assert(forall|i: int|
                        end - start <= i < tail.len() ==> spec_is_blank(#[trigger] tail[i]));
                    lemma_trim_back_at(tail, end - start);
                    assert(tail.subrange(0, end - start) =~= row_chars@.subrange(
                        start as int,
                        end as int,
                    ));
                } else {
                    assert(spec_trim_back(row_chars@.subrange(start as int, n as int)) =~= row_chars@
                        .subrange(start as int, end as int));
                }
                assert(spec_trim(row_seq) =~= row_chars@.subrange(start as int, end as int));
            }
            let ghost old_summary = summary@;
            if end > start {
                let mut line = String::new();
                let mut i: usize = start;
                while i < end
                    invariant
                        n == row_chars@.len(),
                        start <= i <= end <= n,
                        line@ =~= row_chars@.subrange(start as int, i as int),
                    decreases end - i,
                {
                    push_char(&mut line, row_chars[i]);
                    proof {
                        assert(row_chars@.subrange(start as int, i + 1) =~= row_chars@.subrange(
                            start as int,
                            i as int,
                        ).push(row_chars@[i as int]));
                    }
                    i = i + 1;
                }
                summary.push((row, line));
            }
            proof {
                let g = grid_view(self.term);
                assert forall|r: int|
                    0 <= r < row + 1 && spec_trim(spec_row_text(g[r])).len() > 0 implies exists|
                k: int|
                    0 <= k < summary@.len() && (#[trigger] summary@[k]).0 == r by {
                    if r == row as int {
                        assert(end > start);
                        assert((#[trigger] summary@[summary@.len() - 1]).0 == row);
                    } else {
                        let k0 = choose|k0: int|
                            0 <= k0 < old_summary.len() && (#[trigger] old_summary[k0]).0 == r;
                        assert((#[trigger] summary@[k0]).0 == r);
                    }
                }
            }
            row = row + 1;
        }
        summary
    }
}

impl Default for TerminalState {
    /// The terminal at the fixed geometry with a blank grid of default
    /// cells, exactly as `new` builds it.
    fn default() -> (r: Self)
        ensures
            r.wf(),
            r.cols == TERM_COLS,
            r.rows == TERM_ROWS,
            forall|row: int, col: int|
                0 <= row < r.rows && 0 <= col < r.cols ==> #[trigger] grid_view(r.term)[row][col]
                    == default_grid_cell(),
    {
        TerminalState::new()
    }
}

} // verus!
