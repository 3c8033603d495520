//! A model of the terminal that receives the steps of drawing, and the proof that drawing puts
//! every cell where it belongs, in the style it asks for.
use vstd::prelude::*;
use vstd::utf8::encode_utf8;

use crate::backend::{
    cell_ops, cells_ops, draw_ops, moves_in_range, needs_move, op_if, reset_ops, state_after,
    symbol_bytes, DrawOp,
};
use crate::modifier_diff::{
    apply_sgr_codes, lemma_modifier_diff_codes_switch_modifiers, lemma_modifier_diff_effect,
    modifier_diff_codes,
};
use crate::style::{Cell, Color, Modifier};

verus! {

/// A symbol the terminal printed: where, in which colors and with which named modifiers.
pub struct Printed {
    pub x: int,
    pub y: int,
    pub fg: Color,
    pub bg: Color,
    pub underline_color: Color,
    pub modifier: u16,
    pub symbol: Seq<u8>,
}

/// What a terminal holds while it is drawn on: the cursor, the current colors and named
/// modifiers, and what it printed so far.
pub struct Screen {
    pub cursor_x: int,
    pub cursor_y: int,
    pub fg: Color,
    pub bg: Color,
    pub underline_color: Color,
    pub modifier: u16,
    pub printed: Seq<Printed>,
}

/// What one step of drawing does to the terminal. Moving sets the cursor; changing the
/// modifiers sends the SGR codes of the change, which act on the modifiers as `apply_sgr_codes`
/// says, a reset code among them also setting the colors back to the default; setting a
/// color sets it; printing records the symbol at the cursor in the current style and moves the
/// cursor one column right; the resets set the colors back and switch every modifier off.
pub open spec fn screen_step(s: Screen, op: DrawOp) -> Screen {
    match op {
        DrawOp::MoveTo(x, y) => Screen { cursor_x: x as int, cursor_y: y as int, ..s },
        DrawOp::ChangeModifier(from, to) => {
            let codes = modifier_diff_codes(from, to);
            // The reset code 0 switches the colors back to the default too.
            let reset = codes.contains(0);
            Screen {
                modifier: apply_sgr_codes(s.modifier, codes),
                fg: if reset {
                    Color::Reset
                } else {
                    s.fg
                },
                bg: if reset {
                    Color::Reset
                } else {
                    s.bg
                },
                underline_color: if reset {
                    Color::Reset
                } else {
                    s.underline_color
                },
                ..s
            }
        },
        DrawOp::SetColors(fg, bg) => Screen { fg, bg, ..s },
        DrawOp::SetUnderlineColor(c) => Screen { underline_color: c, ..s },
        DrawOp::Print(symbol) => Screen {
            cursor_x: s.cursor_x + 1,
            printed: s.printed.push(
                Printed {
                    x: s.cursor_x,
                    y: s.cursor_y,
                    fg: s.fg,
                    bg: s.bg,
                    underline_color: s.underline_color,
                    modifier: s.modifier,
                    symbol,
                },
            ),
            ..s
        },
        DrawOp::ResetForeground => Screen { fg: Color::Reset, ..s },
        DrawOp::ResetBackground => Screen { bg: Color::Reset, ..s },
        DrawOp::ResetUnderline => Screen { underline_color: Color::Reset, ..s },
        DrawOp::ResetAttributes => Screen { modifier: 0, ..s },
    }
}

/// What the steps, one after the other, do to the terminal.
pub open spec fn run_ops(s: Screen, ops: Seq<DrawOp>) -> Screen
    decreases ops.len(),
{
    if ops.len() == 0 {
        s
    } else {
        screen_step(run_ops(s, ops.drop_last()), ops.last())
    }
}

/// How a cell should appear on the terminal. Without underline colors (`with_underline`
/// false) the terminal keeps its reset underline color.
pub open spec fn printed_cell(c: (u16, u16, Cell), with_underline: bool) -> Printed {
    Printed {
        x: c.0 as int,
        y: c.1 as int,
        fg: c.2.fg,
        bg: c.2.bg,
        underline_color: if with_underline {
            c.2.underline_color
        } else {
            Color::Reset
        },
        modifier: c.2.modifier.known(),
        symbol: symbol_bytes(c.2),
    }
}

/// How the cells should appear, in order.
pub open spec fn printed_cells(cells: Seq<(u16, u16, Cell)>, with_underline: bool) -> Seq<
    Printed,
> {
    cells.map_values(|c: (u16, u16, Cell)| printed_cell(c, with_underline))
}

/// Whether every cell lies where the cursor can be moved.
pub open spec fn on_screen(cells: Seq<(u16, u16, Cell)>) -> bool {
    forall|i: int| 0 <= i < cells.len() ==> #[trigger] cells[i].0 < u16::MAX && cells[i].1 < u16::MAX
}

/// Whether the cursor is already at every cell it is not moved to. The terminal is taken not to
/// wrap: a cell reached without a move must follow a cell that is not in the last column, and a
/// first cell reached without a move (at column 0 of the last row) needs the cursor there to
/// begin with.
pub open spec fn cursor_follows(s0: Screen, cells: Seq<(u16, u16, Cell)>) -> bool {
    forall|i: int|
        0 <= i < cells.len() && !#[trigger] needs_move(
            state_after(cells.take(i)),
            cells[i].0,
            cells[i].1,
        ) ==> if i == 0 {
            s0.cursor_x == 0 && s0.cursor_y == u16::MAX
        } else {
            cells[i - 1].0 < u16::MAX
        }
}

/// Whether the terminal agrees with the drawing state after the cells: the same colors and
/// named modifiers, every cell printed as it should appear, and the cursor just right of the
/// last cell.
pub open spec fn screen_agrees(
    scr: Screen,
    cells: Seq<(u16, u16, Cell)>,
    with_underline: bool,
) -> bool {
    let st = state_after(cells);
    &&& scr.fg == st.fg
    &&& scr.bg == st.bg
    &&& scr.underline_color == if with_underline {
        st.underline_color
    } else {
        Color::Reset
    }
    &&& scr.modifier == st.modifier.known()
    &&& scr.printed == printed_cells(cells, with_underline)
    &&& cells.len() > 0 ==> scr.cursor_x == st.last_x + 1 && scr.cursor_y == st.last_y
}

/// Running two lists of steps is running the first, then the second.
proof fn lemma_run_concat(s: Screen, a: Seq<DrawOp>, b: Seq<DrawOp>)
    ensures
        run_ops(s, a + b) == run_ops(run_ops(s, a), b),
    decreases b.len(),
{
    if b.len() == 0 {
        assert(a + b =~= a);
    } else {
        lemma_run_concat(s, a, b.drop_last());
        assert((a + b).drop_last() =~= a + b.drop_last());
        assert((a + b).last() == b.last());
    }
}

/// Running a step that is there only when `cond` holds.
proof fn lemma_run_op_if(s: Screen, cond: bool, op: DrawOp)
    ensures
        run_ops(s, op_if(cond, op)) == if cond {
            screen_step(s, op)
        } else {
            s
        },
{
    let none = Seq::<DrawOp>::empty();
    assert(run_ops(s, none) == s);
    if cond {
        assert(seq![op].drop_last() =~= none);
        assert(run_ops(s, seq![op]) == screen_step(run_ops(s, none), op));
    } else {
        assert(op_if(cond, op) =~= none);
    }
}

/// Drawing one more cell keeps the terminal in agreement with the drawing state.
proof fn lemma_cell_step(
    scr: Screen,
    cells: Seq<(u16, u16, Cell)>,
    x: u16,
    y: u16,
    cell: Cell,
    with_underline: bool,
)
    requires
        screen_agrees(scr, cells, with_underline),
        !needs_move(state_after(cells), x, y) ==> if cells.len() == 0 {
            scr.cursor_x == 0 && scr.cursor_y == u16::MAX
        } else {
            state_after(cells).last_x < u16::MAX
        },
    ensures
        screen_agrees(
            run_ops(scr, cell_ops(state_after(cells), x, y, cell, with_underline)),
            cells.push((x, y, cell)),
            with_underline,
        ),
{
    let st = state_after(cells);
    let a = op_if(needs_move(st, x, y), DrawOp::MoveTo(x, y));
    let b = op_if(cell.modifier != st.modifier, DrawOp::ChangeModifier(st.modifier, cell.modifier));
    let c = op_if(cell.fg != st.fg || cell.bg != st.bg, DrawOp::SetColors(cell.fg, cell.bg));
    let d = op_if(
        with_underline && cell.underline_color != st.underline_color,
        DrawOp::SetUnderlineColor(cell.underline_color),
    );
    let e = seq![DrawOp::Print(symbol_bytes(cell))];
    lemma_run_concat(scr, a + b + c + d, e);
    lemma_run_concat(scr, a + b + c, d);
    lemma_run_concat(scr, a + b, c);
    lemma_run_concat(scr, a, b);
    lemma_run_op_if(scr, needs_move(st, x, y), DrawOp::MoveTo(x, y));
    let s1 = run_ops(scr, a);
    // The cursor is at the cell, moved there or already there.
    assert(s1.cursor_x == x && s1.cursor_y == y);
    lemma_run_op_if(
        s1,
        cell.modifier != st.modifier,
        DrawOp::ChangeModifier(st.modifier, cell.modifier),
    );
    let s2 = run_ops(s1, b);
    if cell.modifier != st.modifier {
        lemma_modifier_diff_effect(st.modifier, cell.modifier);
        lemma_modifier_diff_codes_switch_modifiers(st.modifier, cell.modifier);
        let codes = modifier_diff_codes(st.modifier, cell.modifier);
        if codes.contains(0) {
            let i = choose|i: int| 0 <= i < codes.len() && codes[i] == 0;
            assert(codes[i] == 0);
        }
    }
    assert(s2.modifier == cell.modifier.known());
    lemma_run_op_if(s2, cell.fg != st.fg || cell.bg != st.bg, DrawOp::SetColors(cell.fg, cell.bg));
    let s3 = run_ops(s2, c);
    lemma_run_op_if(
        s3,
        with_underline && cell.underline_color != st.underline_color,
        DrawOp::SetUnderlineColor(cell.underline_color),
    );
    let s4 = run_ops(s3, d);
    lemma_run_op_if(s4, true, DrawOp::Print(symbol_bytes(cell)));
    assert(op_if(true, DrawOp::Print(symbol_bytes(cell))) =~= e);
    let s5 = run_ops(s4, e);
    assert(s5 == screen_step(s4, DrawOp::Print(symbol_bytes(cell))));
    let all = cells.push((x, y, cell));
    assert(all.drop_last() =~= cells);
    assert(printed_cells(all, with_underline) =~= printed_cells(cells, with_underline).push(
        printed_cell((x, y, cell), with_underline),
    ));
    assert(cell_ops(st, x, y, cell, with_underline) == a + b + c + d + e);
}

/// Drawing the cells leaves the terminal in agreement with the drawing state.
proof fn lemma_cells_agree(s0: Screen, cells: Seq<(u16, u16, Cell)>, with_underline: bool)
    requires
        s0.fg == Color::Reset,
        s0.bg == Color::Reset,
        s0.underline_color == Color::Reset,
        s0.modifier == 0,
        s0.printed == Seq::<Printed>::empty(),
        cursor_follows(s0, cells),
    ensures
        screen_agrees(run_ops(s0, cells_ops(cells, with_underline)), cells, with_underline),
    decreases cells.len(),
{
    if cells.len() == 0 {
        assert(printed_cells(cells, with_underline) =~= Seq::<Printed>::empty());
        assert(Modifier { bits: 0 }.known() == 0) by {
            assert(0u16 & 0x1ffu16 == 0) by (bit_vector);
        }
    } else {
        let prefix = cells.drop_last();
        let last = cells.last();
        assert forall|i: int|
            0 <= i < prefix.len() && !#[trigger] needs_move(
                state_after(prefix.take(i)),
                prefix[i].0,
                prefix[i].1,
            ) implies if i == 0 {
            s0.cursor_x == 0 && s0.cursor_y == u16::MAX
        } else {
            prefix[i - 1].0 < u16::MAX
        } by {
            assert(prefix.take(i) =~= cells.take(i));
            assert(prefix[i] == cells[i]);
            if i > 0 {
                assert(prefix[i - 1] == cells[i - 1]);
            }
        }
        lemma_cells_agree(s0, prefix, with_underline);
        let n = cells.len() - 1;
        assert(cells.take(n) =~= prefix);
        assert(cells[n] == last);
        if !needs_move(state_after(prefix), last.0, last.1) {
            assert(!needs_move(state_after(cells.take(n)), cells[n].0, cells[n].1));
            if n > 0 {
                assert(cells[n - 1].0 < u16::MAX);
                assert(prefix.last() == cells[n - 1]);
            } else {
                assert(run_ops(s0, cells_ops(prefix, with_underline)) == s0) by {
                    assert(prefix =~= Seq::<(u16, u16, Cell)>::empty());
                }
            }
        }
        lemma_run_concat(
            s0,
            cells_ops(prefix, with_underline),
            cell_ops(state_after(prefix), last.0, last.1, last.2, with_underline),
        );
        lemma_cell_step(
            run_ops(s0, cells_ops(prefix, with_underline)),
            prefix,
            last.0,
            last.1,
            last.2,
            with_underline,
        );
        assert(prefix.push((last.0, last.1, last.2)) =~= cells);
    }
}

/// Cells that lie where the cursor can be moved never need a move the terminal cannot make.
pub proof fn lemma_on_screen_moves_in_range(cells: Seq<(u16, u16, Cell)>)
    requires
        on_screen(cells),
    ensures
        moves_in_range(cells),
{
    assert forall|i: int|
        0 <= i < cells.len() && #[trigger] needs_move(
            state_after(cells.take(i)),
            cells[i].0,
            cells[i].1,
        ) implies cells[i].0 < u16::MAX && cells[i].1 < u16::MAX by {}
}

/// Drawing puts every cell where it belongs, in the colors and with the named modifiers it
/// asks for, in order, and leaves the terminal's colors and modifiers reset: on a terminal
/// whose colors and modifiers start reset, unless the cursor, which is not moved to a cell
/// just right of the last one, is not at that cell (after the last column, or before the first
/// cell). Drawn without underline colors (`with_underline` false), the cells show the reset
/// underline color.
pub proof fn lemma_draw_shows_cells(s0: Screen, cells: Seq<(u16, u16, Cell)>, with_underline: bool)
    requires
        s0.fg == Color::Reset,
        s0.bg == Color::Reset,
        s0.underline_color == Color::Reset,
        s0.modifier == 0,
        s0.printed == Seq::<Printed>::empty(),
        cursor_follows(s0, cells),
    ensures
        run_ops(s0, draw_ops(cells, with_underline)).printed == printed_cells(cells, with_underline),
        run_ops(s0, draw_ops(cells, with_underline)).fg == Color::Reset,
        run_ops(s0, draw_ops(cells, with_underline)).bg == Color::Reset,
        run_ops(s0, draw_ops(cells, with_underline)).underline_color == Color::Reset,
        run_ops(s0, draw_ops(cells, with_underline)).modifier == 0,
{
    lemma_cells_agree(s0, cells, with_underline);
    let resets = reset_ops(with_underline);
    lemma_run_concat(s0, cells_ops(cells, with_underline), resets);
    let s = run_ops(s0, cells_ops(cells, with_underline));
    reveal_with_fuel(run_ops, 5);
    if with_underline {
        assert(resets.drop_last() =~= seq![
            DrawOp::ResetForeground,
            DrawOp::ResetBackground,
            DrawOp::ResetUnderline,
        ]);
        assert(resets.drop_last().drop_last() =~= seq![
            DrawOp::ResetForeground,
            DrawOp::ResetBackground,
        ]);
        assert(resets.drop_last().drop_last().drop_last() =~= seq![DrawOp::ResetForeground]);
        assert(resets.drop_last().drop_last().drop_last().drop_last() =~= Seq::<DrawOp>::empty());
    } else {
        assert(resets.drop_last() =~= seq![DrawOp::ResetForeground, DrawOp::ResetBackground]);
        assert(resets.drop_last().drop_last() =~= seq![DrawOp::ResetForeground]);
        assert(resets.drop_last().drop_last().drop_last() =~= Seq::<DrawOp>::empty());
    }
}

/// Drawing prints each cell, in order, at its column and row, in its colors and with its named
/// modifiers (and its underline color when drawn with underline colors), and prints the whole
/// symbol: the UTF-8 encoding of every character of it. This holds on the terminals and cells
/// of `lemma_draw_shows_cells`.
pub proof fn lemma_draw_prints_each_cell(s0: Screen, cells: Seq<(u16, u16, Cell)>, with_underline: bool)
    requires
        s0.fg == Color::Reset,
        s0.bg == Color::Reset,
        s0.underline_color == Color::Reset,
        s0.modifier == 0,
        s0.printed == Seq::<Printed>::empty(),
        cursor_follows(s0, cells),
    ensures
        run_ops(s0, draw_ops(cells, with_underline)).printed.len() == cells.len(),
        forall|i: int|
            0 <= i < cells.len() ==> {
                let p = #[trigger] run_ops(s0, draw_ops(cells, with_underline)).printed[i];
                &&& p.x == cells[i].0 as int
                &&& p.y == cells[i].1 as int
                &&& p.fg == cells[i].2.fg
                &&& p.bg == cells[i].2.bg
                &&& p.underline_color == if with_underline {
                    cells[i].2.underline_color
                } else {
                    Color::Reset
                }
                &&& p.modifier == cells[i].2.modifier.bits & 0x1ff
                &&& p.symbol == encode_utf8(cells[i].2.symbol@)
            },
{
    lemma_draw_shows_cells(s0, cells, with_underline);
    let printed = run_ops(s0, draw_ops(cells, with_underline)).printed;
    assert forall|i: int| 0 <= i < cells.len() implies {
        let p = #[trigger] printed[i];
        &&& p.x == cells[i].0 as int
        &&& p.y == cells[i].1 as int
        &&& p.fg == cells[i].2.fg
        &&& p.bg == cells[i].2.bg
        &&& p.underline_color == if with_underline {
            cells[i].2.underline_color
        } else {
            Color::Reset
        }
        &&& p.modifier == cells[i].2.modifier.bits & 0x1ff
        &&& p.symbol == encode_utf8(cells[i].2.symbol@)
    } by {
        assert(printed[i] == printed_cell(cells[i], with_underline));
    }
}

} // verus!
