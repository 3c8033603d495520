//! The Crossterm backend: what it writes to draw cells, to move, hide and show the cursor, to
//! clear the screen, to append lines and to scroll a region.
use vstd::prelude::*;
use vstd::utf8::encode_utf8;

use crate::ansi::{bg_sequence, fg_sequence, sgr_code, write_bg_ansi, write_fg_ansi};
use crate::commands::{
    clear_sequence, hide_cursor_sequence, is_color_reset_sequence, is_underline_color_sequence,
    move_to_sequence,
    scroll_region_sequence, show_cursor_sequence, ScrollDownInRegion, ScrollUpInRegion, NEWLINE,
    UPPER_S, UPPER_T,
};
use crate::convert::{color_to_crossterm, IntoCrossterm};
use crate::crossterm_types::CrosstermClearType;
use crate::modifier_diff::{modifier_diff_sequence, ModifierDiff};
use crate::style::{Cell, Color, Modifier};

verus! {

/// A backend that renders to the terminal through Crossterm, by way of a writer.
///
/// Each operation gives the bytes to write; the writer they go to is the one the backend holds.
#[derive(Debug, Default, Clone, PartialEq, Eq, Hash)]
pub struct CrosstermBackend<W> {
    writer: W,
}

impl<W> CrosstermBackend<W> {
    /// The writer the backend holds.
    pub closed spec fn spec_writer(&self) -> W {
        self.writer
    }

    /// Creates a backend that writes to the given writer.
    pub fn new(writer: W) -> (b: Self)
        ensures
            b.spec_writer() == writer,
    {
        CrosstermBackend { writer }
    }

    /// Gets the writer.
    pub fn writer(&self) -> (w: &W)
        ensures
            *w == self.spec_writer(),
    {
        &self.writer
    }

    /// Gets the writer as a mutable reference. Writing to it directly may spoil what the
    /// terminal shows, since the screen is drawn by differences.
    pub fn writer_mut(&mut self) -> (w: &mut W)
        ensures
            *w == old(self).spec_writer(),
            final(self).spec_writer() == *final(w),
    {
        &mut self.writer
    }
}

/// Ratatui's ways to clear the screen.
#[derive(Debug, Clone, Copy, PartialEq, Eq, Structural)]
pub enum ClearType {
    All,
    AfterCursor,
    BeforeCursor,
    CurrentLine,
    UntilNewLine,
}

/// Crossterm's way to clear for each of Ratatui's.
pub open spec fn clear_type_to_crossterm(t: ClearType) -> CrosstermClearType {
    match t {
        ClearType::All => CrosstermClearType::All,
        ClearType::AfterCursor => CrosstermClearType::FromCursorDown,
        ClearType::BeforeCursor => CrosstermClearType::FromCursorUp,
        ClearType::CurrentLine => CrosstermClearType::CurrentLine,
        ClearType::UntilNewLine => CrosstermClearType::UntilNewLine,
    }
}

/// A size, in columns and rows or in pixels.
#[derive(Debug, Clone, Copy, PartialEq, Eq, Structural)]
pub struct Size {
    pub width: u16,
    pub height: u16,
}

/// The size of the terminal window, in columns and rows and in pixels.
#[derive(Debug, Clone, Copy, PartialEq, Eq, Structural)]
pub struct WindowSize {
    pub columns_rows: Size,
    pub pixels: Size,
}

/// The window size that Crossterm reports as columns, rows, width and height in pixels.
pub fn window_size_from_crossterm(columns: u16, rows: u16, width: u16, height: u16) -> (ws:
    WindowSize)
    ensures
        ws == (WindowSize {
            columns_rows: Size { width: columns, height: rows },
            pixels: Size { width, height },
        }),
{
    WindowSize {
        columns_rows: Size { width: columns, height: rows },
        pixels: Size { width, height },
    }
}

/// One step of drawing, before it is written out.
pub enum DrawOp {
    /// Move the cursor to a column and row.
    MoveTo(u16, u16),
    /// Change the modifiers from the first set to the second.
    ChangeModifier(Modifier, Modifier),
    /// Set the foreground and background colors.
    SetColors(Color, Color),
    /// Set the underline color.
    SetUnderlineColor(Color),
    /// Print these bytes at the cursor.
    Print(Seq<u8>),
    /// Reset the foreground color.
    ResetForeground,
    /// Reset the background color.
    ResetBackground,
    /// Reset the underline color.
    ResetUnderline,
    /// Switch every modifier off.
    ResetAttributes,
}

/// What drawing remembers from one cell to the next: where the last cell was, and the colors
/// and modifiers that were last set.
pub struct DrawState {
    pub last_x: u16,
    pub last_y: u16,
    pub fg: Color,
    pub bg: Color,
    pub underline_color: Color,
    pub modifier: Modifier,
}

/// Before the first cell: no position is known (the last one is taken as `u16::MAX` on both
/// axes), and the colors and modifiers are taken as reset.
pub open spec fn initial_draw_state() -> DrawState {
    DrawState {
        last_x: u16::MAX,
        last_y: u16::MAX,
        fg: Color::Reset,
        bg: Color::Reset,
        underline_color: Color::Reset,
        modifier: Modifier { bits: 0 },
    }
}

/// The column after `x`, wrapping to 0 after `u16::MAX`.
pub open spec fn next_column(x: u16) -> u16 {
    if x == u16::MAX {
        0
    } else {
        (x + 1) as u16
    }
}

/// Whether a cell at `(x, y)` needs the cursor moved: it does unless it is just right of the
/// last cell.
pub open spec fn needs_move(st: DrawState, x: u16, y: u16) -> bool {
    x != next_column(st.last_x) || y != st.last_y
}

/// The bytes of a cell's symbol.
pub open spec fn symbol_bytes(cell: Cell) -> Seq<u8> {
    encode_utf8(cell.symbol@)
}

/// `seq![op]` when `cond` holds, else nothing.
pub open spec fn op_if(cond: bool, op: DrawOp) -> Seq<DrawOp> {
    if cond {
        seq![op]
    } else {
        seq![]
    }
}

/// The steps that draw one cell at `(x, y)` after the state `st`: move the cursor unless the
/// cell is just right of the last one, change the modifiers if they differ, set both colors if
/// either differs, set the underline color if it differs (when `with_underline` holds; a
/// backend built without underline colors never sets it), and print the symbol.
pub open spec fn cell_ops(st: DrawState, x: u16, y: u16, cell: Cell, with_underline: bool) -> Seq<
    DrawOp,
> {
    op_if(needs_move(st, x, y), DrawOp::MoveTo(x, y)) + op_if(
        cell.modifier != st.modifier,
        DrawOp::ChangeModifier(st.modifier, cell.modifier),
    ) + op_if(cell.fg != st.fg || cell.bg != st.bg, DrawOp::SetColors(cell.fg, cell.bg)) + op_if(
        with_underline && cell.underline_color != st.underline_color,
        DrawOp::SetUnderlineColor(cell.underline_color),
    ) + seq![DrawOp::Print(symbol_bytes(cell))]
}

/// The state after drawing a cell at `(x, y)`.
pub open spec fn state_after_cell(x: u16, y: u16, cell: Cell) -> DrawState {
    DrawState {
        last_x: x,
        last_y: y,
        fg: cell.fg,
        bg: cell.bg,
        underline_color: cell.underline_color,
        modifier: cell.modifier,
    }
}

/// The state after drawing the cells.
pub open spec fn state_after(cells: Seq<(u16, u16, Cell)>) -> DrawState {
    if cells.len() == 0 {
        initial_draw_state()
    } else {
        state_after_cell(cells.last().0, cells.last().1, cells.last().2)
    }
}

/// The steps that draw the cells, one after the other.
pub open spec fn cells_ops(cells: Seq<(u16, u16, Cell)>, with_underline: bool) -> Seq<DrawOp>
    decreases cells.len(),
{
    if cells.len() == 0 {
        seq![]
    } else {
        cells_ops(cells.drop_last(), with_underline) + cell_ops(
            state_after(cells.drop_last()),
            cells.last().0,
            cells.last().1,
            cells.last().2,
            with_underline,
        )
    }
}

/// The steps that reset the colors and modifiers after drawing: the foreground, the
/// background, the underline color (when `with_underline` holds) and the modifiers.
pub open spec fn reset_ops(with_underline: bool) -> Seq<DrawOp> {
    if with_underline {
        seq![
            DrawOp::ResetForeground,
            DrawOp::ResetBackground,
            DrawOp::ResetUnderline,
            DrawOp::ResetAttributes,
        ]
    } else {
        seq![DrawOp::ResetForeground, DrawOp::ResetBackground, DrawOp::ResetAttributes]
    }
}

/// The steps that draw the cells and then reset the colors and modifiers.
pub open spec fn draw_ops(cells: Seq<(u16, u16, Cell)>, with_underline: bool) -> Seq<DrawOp> {
    cells_ops(cells, with_underline) + reset_ops(with_underline)
}

/// Whether every cell that needs the cursor moved lies where the cursor can be moved: Crossterm
/// counts columns and rows from 1 and so cannot move to `u16::MAX`.
pub open spec fn moves_in_range(cells: Seq<(u16, u16, Cell)>) -> bool {
    forall|i: int|
        0 <= i < cells.len() && #[trigger] needs_move(
            state_after(cells.take(i)),
            cells[i].0,
            cells[i].1,
        ) ==> cells[i].0 < u16::MAX && cells[i].1 < u16::MAX
}

/// Whether the chunk of bytes is a written form of the step.
pub open spec fn chunk_encodes(op: DrawOp, b: Seq<u8>) -> bool {
    match op {
        DrawOp::MoveTo(x, y) => b == move_to_sequence(x, y),
        DrawOp::ChangeModifier(from, to) => b == modifier_diff_sequence(from, to),
        DrawOp::SetColors(fg, bg) => b == fg_sequence(fg) + bg_sequence(bg),
        DrawOp::SetUnderlineColor(u) => is_underline_color_sequence(b, color_to_crossterm(u)),
        DrawOp::Print(s) => b == s,
        DrawOp::ResetForeground => is_color_reset_sequence(b, 39),
        DrawOp::ResetBackground => is_color_reset_sequence(b, 49),
        DrawOp::ResetUnderline => is_color_reset_sequence(b, 59),
        DrawOp::ResetAttributes => b == sgr_code(0),
    }
}

/// Whether the chunks are, one by one, written forms of the steps.
pub open spec fn chunks_encode(ops: Seq<DrawOp>, chunks: Seq<Vec<u8>>) -> bool {
    &&& chunks.len() == ops.len()
    &&& forall|i: int| 0 <= i < ops.len() ==> #[trigger] chunk_encodes(ops[i], chunks[i]@)
}

/// Appends a chunk that encodes `op`, keeping account of the steps written.
proof fn lemma_push_chunk(
    ops: Seq<DrawOp>,
    chunks: Seq<Vec<u8>>,
    op: DrawOp,
    chunk: Vec<u8>,
)
    requires
        chunks_encode(ops, chunks),
        chunk_encodes(op, chunk@),
    ensures
        chunks_encode(ops.push(op), chunks.push(chunk)),
{
    assert forall|i: int| 0 <= i < ops.push(op).len() implies #[trigger] chunk_encodes(
        ops.push(op)[i],
        chunks.push(chunk)[i]@,
    ) by {
        if i < ops.len() {
            assert(ops.push(op)[i] == ops[i]);
            assert(chunks.push(chunk)[i] == chunks[i]);
        }
    }
}

/// Appends the chunks that draw one cell at `(x, y)`, and updates the drawing state.
fn draw_cell(
    chunks: &mut Vec<Vec<u8>>,
    st: &mut DrawState,
    x: u16,
    y: u16,
    cell: &Cell,
    with_underline: bool,
    Ghost(ops): Ghost<Seq<DrawOp>>,
)
    requires
        chunks_encode(ops, old(chunks)@),
        needs_move(*old(st), x, y) ==> x < u16::MAX && y < u16::MAX,
    ensures
        chunks_encode(ops + cell_ops(*old(st), x, y, *cell, with_underline), final(chunks)@),
        *final(st) == state_after_cell(x, y, *cell),
{
    let ghost st0 = *st;
    let ghost mut acc = ops;

    // Move the cursor unless the last cell was just left of this one.
    let next_x = if st.last_x == u16::MAX {
        0
    } else {
        st.last_x + 1
    };
    let moved = x != next_x || y != st.last_y;
    if moved {
        let b = crate::commands::move_to(x, y);
        proof {
            lemma_push_chunk(acc, chunks@, DrawOp::MoveTo(x, y), b);
            acc = acc.push(DrawOp::MoveTo(x, y));
        }
        chunks.push(b);
    }
    assert(acc =~= ops + op_if(needs_move(st0, x, y), DrawOp::MoveTo(x, y)));
    let ghost part = ops + op_if(needs_move(st0, x, y), DrawOp::MoveTo(x, y));
    st.last_x = x;
    st.last_y = y;

    let changed = cell.modifier != st.modifier;
    if changed {
        let mut b: Vec<u8> = Vec::new();
        let diff = ModifierDiff { from: st.modifier, to: cell.modifier };
        diff.queue(&mut b);
        proof {
            assert(b@ =~= modifier_diff_sequence(st0.modifier, cell.modifier));
            lemma_push_chunk(
                acc,
                chunks@,
                DrawOp::ChangeModifier(st0.modifier, cell.modifier),
                b,
            );
            acc = acc.push(DrawOp::ChangeModifier(st0.modifier, cell.modifier));
        }
        chunks.push(b);
        st.modifier = cell.modifier;
    }
    assert(acc =~= part + op_if(
        cell.modifier != st0.modifier,
        DrawOp::ChangeModifier(st0.modifier, cell.modifier),
    ));
    let ghost part = part + op_if(
        cell.modifier != st0.modifier,
        DrawOp::ChangeModifier(st0.modifier, cell.modifier),
    );

    let recolored = cell.fg != st.fg || cell.bg != st.bg;
    if recolored {
        let mut b: Vec<u8> = Vec::new();
        write_fg_ansi(&mut b, cell.fg);
        write_bg_ansi(&mut b, cell.bg);
        proof {
            assert(b@ =~= fg_sequence(cell.fg) + bg_sequence(cell.bg));
            lemma_push_chunk(acc, chunks@, DrawOp::SetColors(cell.fg, cell.bg), b);
            acc = acc.push(DrawOp::SetColors(cell.fg, cell.bg));
        }
        chunks.push(b);
        st.fg = cell.fg;
        st.bg = cell.bg;
    }
    assert(acc =~= part + op_if(
        cell.fg != st0.fg || cell.bg != st0.bg,
        DrawOp::SetColors(cell.fg, cell.bg),
    ));
    let ghost part = part + op_if(
        cell.fg != st0.fg || cell.bg != st0.bg,
        DrawOp::SetColors(cell.fg, cell.bg),
    );

    let underlined = with_underline && cell.underline_color != st.underline_color;
    if underlined {
        let b = crate::commands::set_underline_color(cell.underline_color.into_crossterm());
        proof {
            lemma_push_chunk(acc, chunks@, DrawOp::SetUnderlineColor(cell.underline_color), b);
            acc = acc.push(DrawOp::SetUnderlineColor(cell.underline_color));
        }
        chunks.push(b);
    }
    st.underline_color = cell.underline_color;
    assert(acc =~= part + op_if(
        with_underline && cell.underline_color != st0.underline_color,
        DrawOp::SetUnderlineColor(cell.underline_color),
    ));
    let ghost part = part + op_if(
        with_underline && cell.underline_color != st0.underline_color,
        DrawOp::SetUnderlineColor(cell.underline_color),
    );

    // Write the symbol as it is.
    let b = cell.symbol.as_str().as_bytes_vec();
    proof {
        lemma_push_chunk(acc, chunks@, DrawOp::Print(symbol_bytes(*cell)), b);
        acc = acc.push(DrawOp::Print(symbol_bytes(*cell)));
        assert(acc =~= ops + cell_ops(st0, x, y, *cell, with_underline));
    }
    chunks.push(b);
}

/// The chunks that draw the cells and then reset the colors and modifiers.
fn draw_chunks(cells: &[(u16, u16, Cell)], with_underline: bool) -> (chunks: Vec<Vec<u8>>)
    requires
        moves_in_range(cells@),
    ensures
        chunks_encode(draw_ops(cells@, with_underline), chunks@),
{
    let mut chunks: Vec<Vec<u8>> = Vec::new();
    let mut st = DrawState {
        last_x: u16::MAX,
        last_y: u16::MAX,
        fg: Color::Reset,
        bg: Color::Reset,
        underline_color: Color::Reset,
        modifier: Modifier::empty(),
    };
    let n = cells.len();
    assert(cells@.take(0) =~= Seq::<(u16, u16, Cell)>::empty());
    for i in 0..n
        invariant
            n == cells@.len(),
            moves_in_range(cells@),
            st == state_after(cells@.take(i as int)),
            chunks_encode(cells_ops(cells@.take(i as int), with_underline), chunks@),
    {
        let ghost ops = cells_ops(cells@.take(i as int), with_underline);
        assert(needs_move(st, cells@[i as int].0, cells@[i as int].1) ==> cells@[i as int].0
            < u16::MAX && cells@[i as int].1 < u16::MAX);
        draw_cell(
            &mut chunks,
            &mut st,
            cells[i].0,
            cells[i].1,
            &cells[i].2,
            with_underline,
            Ghost(ops),
        );
        proof {
            let t = cells@.take(i + 1);
            assert(t.drop_last() =~= cells@.take(i as int));
            assert(t.last() == cells@[i as int]);
        }
    }
    assert(cells@.take(n as int) =~= cells@);
    let ghost mut ops = cells_ops(cells@, with_underline);
    let b = crate::commands::reset_foreground();
    proof {
        lemma_push_chunk(ops, chunks@, DrawOp::ResetForeground, b);
        ops = ops.push(DrawOp::ResetForeground);
    }
    chunks.push(b);
    let b = crate::commands::reset_background();
    proof {
        lemma_push_chunk(ops, chunks@, DrawOp::ResetBackground, b);
        ops = ops.push(DrawOp::ResetBackground);
    }
    chunks.push(b);
    if with_underline {
        let b = crate::commands::reset_underline();
        proof {
            lemma_push_chunk(ops, chunks@, DrawOp::ResetUnderline, b);
            ops = ops.push(DrawOp::ResetUnderline);
        }
        chunks.push(b);
    }
    let b = crate::commands::reset_attributes();
    proof {
        lemma_push_chunk(ops, chunks@, DrawOp::ResetAttributes, b);
        ops = ops.push(DrawOp::ResetAttributes);
        assert(ops =~= draw_ops(cells@, with_underline));
    }
    chunks.push(b);
    chunks
}

impl<W> CrosstermBackend<W> {
    /// What drawing the cells writes, in order: for each cell, the cursor is moved unless the
    /// cell is just right of the last one, the modifiers are changed if they differ from the
    /// last cell's, both colors are set if either differs, the underline color is set if it
    /// differs, and the symbol is printed; at the end the colors and modifiers are reset.
    pub fn draw(&self, cells: &[(u16, u16, Cell)]) -> (chunks: Vec<Vec<u8>>)
        requires
            moves_in_range(cells@),
        ensures
            chunks_encode(draw_ops(cells@, true), chunks@),
    {
        draw_chunks(cells, true)
    }

    /// What drawing the cells writes when the backend is built without underline colors: as
    /// `draw`, but the underline color is neither set nor reset.
    pub fn draw_without_underline_color(&self, cells: &[(u16, u16, Cell)]) -> (chunks: Vec<
        Vec<u8>,
    >)
        requires
            moves_in_range(cells@),
        ensures
            chunks_encode(draw_ops(cells@, false), chunks@),
    {
        draw_chunks(cells, false)
    }
}

/// The crossterm clear type for a Ratatui clear type.
fn clear_type_into_crossterm(t: ClearType) -> (c: CrosstermClearType)
    ensures
        c == clear_type_to_crossterm(t),
{
    match t {
        ClearType::All => CrosstermClearType::All,
        ClearType::AfterCursor => CrosstermClearType::FromCursorDown,
        ClearType::BeforeCursor => CrosstermClearType::FromCursorUp,
        ClearType::CurrentLine => CrosstermClearType::CurrentLine,
        ClearType::UntilNewLine => CrosstermClearType::UntilNewLine,
    }
}

/// Clearing the screen writes what clearing it all writes.
pub proof fn lemma_clear_is_clear_all()
    ensures
        clear_sequence(CrosstermClearType::All) == clear_sequence(
            clear_type_to_crossterm(ClearType::All),
        ),
{
}

/// `n` line feeds.
pub open spec fn newlines(n: nat) -> Seq<u8> {
    Seq::new(n, |i: int| NEWLINE)
}

impl<W> CrosstermBackend<W> {
    /// What hiding the cursor writes.
    pub fn hide_cursor(&self) -> (out: Vec<u8>)
        ensures
            out@ == hide_cursor_sequence(),
    {
        crate::commands::hide_cursor()
    }

    /// What showing the cursor writes.
    pub fn show_cursor(&self) -> (out: Vec<u8>)
        ensures
            out@ == show_cursor_sequence(),
    {
        crate::commands::show_cursor()
    }

    /// What moving the cursor to column `x` and row `y` writes.
    pub fn set_cursor_position(&self, x: u16, y: u16) -> (out: Vec<u8>)
        requires
            x < u16::MAX,
            y < u16::MAX,
        ensures
            out@ == move_to_sequence(x, y),
    {
        crate::commands::move_to(x, y)
    }

    /// What clearing the whole screen writes.
    pub fn clear(&self) -> (out: Vec<u8>)
        ensures
            out@ == clear_sequence(CrosstermClearType::All),
    {
        self.clear_region(ClearType::All)
    }

    /// What clearing the screen in the given way writes.
    pub fn clear_region(&self, clear_type: ClearType) -> (out: Vec<u8>)
        ensures
            out@ == clear_sequence(clear_type_to_crossterm(clear_type)),
    {
        crate::commands::clear(clear_type_into_crossterm(clear_type))
    }

    /// What appending `n` lines below the cursor writes: `n` line feeds.
    pub fn append_lines(&self, n: u16) -> (out: Vec<u8>)
        ensures
            out@ == newlines(n as nat),
    {
        let mut out: Vec<u8> = Vec::new();
        for i in 0..n
            invariant
                out@ == newlines(i as nat),
        {
            let b = crate::commands::newline();
            let mut b = b;
            out.append(&mut b);
            assert(out@ =~= newlines((i + 1) as nat));
        }
        out
    }

    /// What scrolling the rows `start..end` up by `amount` rows writes.
    pub fn scroll_region_up(&self, start: u16, end: u16, amount: u16) -> (out: Vec<u8>)
        ensures
            out@ == scroll_region_sequence(
                start,
                if end == 0 {
                    0
                } else {
                    (end - 1) as u16
                },
                amount,
                UPPER_S,
            ),
    {
        let command = ScrollUpInRegion {
            first_row: start,
            last_row: end.saturating_sub(1),
            lines_to_scroll: amount,
        };
        let mut out: Vec<u8> = Vec::new();
        command.write_ansi(&mut out);
        out
    }

    /// What scrolling the rows `start..end` down by `amount` rows writes.
    pub fn scroll_region_down(&self, start: u16, end: u16, amount: u16) -> (out: Vec<u8>)
        ensures
            out@ == scroll_region_sequence(
                start,
                if end == 0 {
                    0
                } else {
                    (end - 1) as u16
                },
                amount,
                UPPER_T,
            ),
    {
        let command = ScrollDownInRegion {
            first_row: start,
            last_row: end.saturating_sub(1),
            lines_to_scroll: amount,
        };
        let mut out: Vec<u8> = Vec::new();
        command.write_ansi(&mut out);
        out
    }
}

} // verus!
