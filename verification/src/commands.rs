//! The terminal commands that Crossterm writes, and the sequences for scrolling a region of the
//! screen.
use vstd::prelude::*;

use crossterm::style::Color as CC;
use crossterm::style::SetUnderlineColor;
use crossterm::terminal::ClearType as C;
use crossterm::Command;

use crate::ansi::{csi, decimal, push_decimal, sgr, sgr_code, ESC, OPEN_BRACKET, SEMICOLON};
use crate::crossterm_types::CrosstermColor::{
    AnsiValue, Black, Blue, Cyan, DarkBlue, DarkCyan, DarkGreen, DarkGrey, DarkMagenta, DarkRed,
    DarkYellow, Green, Grey, Magenta, Red, Reset, Rgb, White, Yellow,
};
use crate::crossterm_types::{CrosstermClearType, CrosstermColor};

verus! {

/// `H`, which ends the sequence that moves the cursor.
pub const UPPER_H: u8 = 0x48;
/// `r`, which ends the sequence that sets a scrolling region.
pub const LOWER_R: u8 = 0x72;
/// `S`, which ends the sequence that scrolls up.
pub const UPPER_S: u8 = 0x53;
/// `T`, which ends the sequence that scrolls down.
pub const UPPER_T: u8 = 0x54;
/// The line feed.
pub const NEWLINE: u8 = 0x0a;

/// The sequence that moves the cursor to column `x` and row `y`, both counted from 0: the
/// terminal counts them from 1 and takes the row first.
pub open spec fn move_to_sequence(x: u16, y: u16) -> Seq<u8> {
    csi(decimal(y as nat + 1) + seq![SEMICOLON] + decimal(x as nat + 1) + seq![UPPER_H])
}

/// The sequence that hides the cursor: `ESC [ ? 2 5 l`.
pub open spec fn hide_cursor_sequence() -> Seq<u8> {
    csi(seq![0x3fu8, 0x32u8, 0x35u8, 0x6cu8])
}

/// The sequence that shows the cursor: `ESC [ ? 2 5 h`.
pub open spec fn show_cursor_sequence() -> Seq<u8> {
    csi(seq![0x3fu8, 0x32u8, 0x35u8, 0x68u8])
}

/// The parameters and final byte of the sequence that clears the screen in the given way:
/// `2J` all, `3J` all and the history, `J` from the cursor down, `1J` from the cursor up,
/// `2K` the cursor's line, `K` to the end of the cursor's line.
pub open spec fn clear_params(t: CrosstermClearType) -> Seq<u8> {
    match t {
        CrosstermClearType::All => seq![0x32u8, 0x4au8],
        CrosstermClearType::Purge => seq![0x33u8, 0x4au8],
        CrosstermClearType::FromCursorDown => seq![0x4au8],
        CrosstermClearType::FromCursorUp => seq![0x31u8, 0x4au8],
        CrosstermClearType::CurrentLine => seq![0x32u8, 0x4bu8],
        CrosstermClearType::UntilNewLine => seq![0x4bu8],
    }
}

/// The sequence that clears the screen in the given way.
pub open spec fn clear_sequence(t: CrosstermClearType) -> Seq<u8> {
    csi(clear_params(t))
}

/// What Crossterm writes to reset a color: the SGR sequence of `code` (39 for the foreground,
/// 49 for the background, 59 for the underline), or, when Crossterm has been told to leave out
/// colors (by the `NO_COLOR` environment variable, or by its own setting), the SGR sequence
/// with no parameter.
pub open spec fn is_color_reset_sequence(s: Seq<u8>, code: u8) -> bool {
    s == sgr_code(code) || s == sgr(seq![])
}

/// The number Crossterm writes for each of its named colors: 0 for black, 1 to 6 for the dark
/// colors, 7 for grey, 8 for dark grey, 9 to 14 for the bright colors and 15 for white.
pub open spec fn crossterm_color_index(c: CrosstermColor) -> nat {
    match c {
        CrosstermColor::Black => 0,
        CrosstermColor::DarkRed => 1,
        CrosstermColor::DarkGreen => 2,
        CrosstermColor::DarkYellow => 3,
        CrosstermColor::DarkBlue => 4,
        CrosstermColor::DarkMagenta => 5,
        CrosstermColor::DarkCyan => 6,
        CrosstermColor::Grey => 7,
        CrosstermColor::DarkGrey => 8,
        CrosstermColor::Red => 9,
        CrosstermColor::Green => 10,
        CrosstermColor::Yellow => 11,
        CrosstermColor::Blue => 12,
        CrosstermColor::Magenta => 13,
        CrosstermColor::Cyan => 14,
        CrosstermColor::White => 15,
        CrosstermColor::AnsiValue(v) => v as nat,
        _ => 0,
    }
}

/// The SGR parameters by which Crossterm writes a color after the number that says what it
/// colors: `2;r;g;b` for an RGB color, and `5;n` for an ANSI value or a named color, with the
/// color's number `n`.
pub open spec fn crossterm_color_params(c: CrosstermColor) -> Seq<u8> {
    match c {
        CrosstermColor::Rgb { r, g, b } => decimal(2) + seq![SEMICOLON] + decimal(r as nat)
            + seq![SEMICOLON] + decimal(g as nat) + seq![SEMICOLON] + decimal(b as nat),
        _ => decimal(5) + seq![SEMICOLON] + decimal(crossterm_color_index(c)),
    }
}

/// The sequence that sets the underline color: `ESC [ 5 9 m` for the default color, else
/// `ESC [ 5 8 ;`, the color's parameters, and `m`.
pub open spec fn underline_color_sequence(c: CrosstermColor) -> Seq<u8> {
    if c is Reset {
        sgr_code(59)
    } else {
        sgr(decimal(58) + seq![SEMICOLON] + crossterm_color_params(c))
    }
}

/// What Crossterm writes to set the underline color: the sequence for the color, or, when
/// Crossterm has been told to leave out colors (by the `NO_COLOR` environment variable, or by
/// its own setting), the SGR sequence with no parameter.
pub open spec fn is_underline_color_sequence(s: Seq<u8>, c: CrosstermColor) -> bool {
    s == underline_color_sequence(c) || s == sgr(seq![])
}

/// Crossterm's `MoveTo(x, y)` command, written out. The command adds 1 to each coordinate, and
/// overflows on `u16::MAX`; it writes `ESC [ row ; column H`.
#[verifier::external_body]
fn move_to_ansi(x: u16, y: u16) -> (out: Vec<u8>)
    requires
        x < u16::MAX,
        y < u16::MAX,
    ensures
        out@ == move_to_sequence(x, y),
{
    let mut s = String::new();
    let _ = crossterm::cursor::MoveTo(x, y).write_ansi(&mut s);
    s.into_bytes()
}

/// Crossterm's `Hide` command, written out: `ESC [ ? 2 5 l`.
#[verifier::external_body]
fn hide_ansi() -> (out: Vec<u8>)
    ensures
        out@ == hide_cursor_sequence(),
{
    let mut s = String::new();
    let _ = crossterm::cursor::Hide.write_ansi(&mut s);
    s.into_bytes()
}

/// Crossterm's `Show` command, written out: `ESC [ ? 2 5 h`.
#[verifier::external_body]
fn show_ansi() -> (out: Vec<u8>)
    ensures
        out@ == show_cursor_sequence(),
{
    let mut s = String::new();
    let _ = crossterm::cursor::Show.write_ansi(&mut s);
    s.into_bytes()
}

/// Crossterm's `Clear(t)` command, written out, for the clear type that `t` stands for.
#[verifier::external_body]
fn clear_ansi(t: CrosstermClearType) -> (out: Vec<u8>)
    ensures
        out@ == clear_sequence(t),
{
    let t = match t {
        CrosstermClearType::All => C::All,
        CrosstermClearType::Purge => C::Purge,
        CrosstermClearType::FromCursorDown => C::FromCursorDown,
        CrosstermClearType::FromCursorUp => C::FromCursorUp,
        CrosstermClearType::CurrentLine => C::CurrentLine,
        CrosstermClearType::UntilNewLine => C::UntilNewLine,
    };
    let mut s = String::new();
    let _ = crossterm::terminal::Clear(t).write_ansi(&mut s);
    s.into_bytes()
}

/// Crossterm's `Print("\n")` command, written out: `Print` writes what it holds as `Display`
/// shows it, which for a string is the string itself.
#[verifier::external_body]
fn print_newline_ansi() -> (out: Vec<u8>)
    ensures
        out@ == seq![NEWLINE],
{
    let mut s = String::new();
    let _ = crossterm::style::Print("\n").write_ansi(&mut s);
    s.into_bytes()
}

/// Crossterm's `SetForegroundColor(Color::Reset)` command, written out. Whether Crossterm
/// leaves out colors depends on the environment and on Crossterm's own setting, so either
/// form may come back.
#[verifier::external_body]
fn reset_foreground_ansi() -> (out: Vec<u8>)
    ensures
        is_color_reset_sequence(out@, 39),
{
    let mut s = String::new();
    let _ = crossterm::style::SetForegroundColor(crossterm::style::Color::Reset).write_ansi(
        &mut s,
    );
    s.into_bytes()
}

/// Crossterm's `SetBackgroundColor(Color::Reset)` command, written out; either form may come
/// back, as for the foreground.
#[verifier::external_body]
fn reset_background_ansi() -> (out: Vec<u8>)
    ensures
        is_color_reset_sequence(out@, 49),
{
    let mut s = String::new();
    let _ = crossterm::style::SetBackgroundColor(crossterm::style::Color::Reset).write_ansi(
        &mut s,
    );
    s.into_bytes()
}

/// Crossterm's `SetUnderlineColor(c)` command, written out, for the Crossterm color that `c`
/// stands for. Whether Crossterm leaves out colors depends on the environment and on
/// Crossterm's own setting, so either form may come back.
#[verifier::external_body]
fn set_underline_color_ansi(c: CrosstermColor) -> (out: Vec<u8>)
    ensures
        is_underline_color_sequence(out@, c),
{
    let c = match c {
        Reset => CC::Reset, Black => CC::Black, DarkGrey => CC::DarkGrey, Red => CC::Red,
        DarkRed => CC::DarkRed, Green => CC::Green, DarkGreen => CC::DarkGreen,
        Yellow => CC::Yellow, DarkYellow => CC::DarkYellow, Blue => CC::Blue,
        DarkBlue => CC::DarkBlue, Magenta => CC::Magenta, DarkMagenta => CC::DarkMagenta,
        Cyan => CC::Cyan, DarkCyan => CC::DarkCyan, White => CC::White, Grey => CC::Grey,
        Rgb { r, g, b } => CC::Rgb { r, g, b }, AnsiValue(v) => CC::AnsiValue(v),
    };
    let mut s = String::new();
    let _ = SetUnderlineColor(c).write_ansi(&mut s);
    s.into_bytes()
}

/// Crossterm's `SetAttribute(Attribute::Reset)` command, written out: the SGR code of the
/// reset attribute is 0.
#[verifier::external_body]
fn reset_attributes_ansi() -> (out: Vec<u8>)
    ensures
        out@ == sgr_code(0),
{
    let mut s = String::new();
    let _ = crossterm::style::SetAttribute(crossterm::style::Attribute::Reset).write_ansi(&mut s);
    s.into_bytes()
}

/// The bytes that move the cursor to column `x` and row `y`.
pub fn move_to(x: u16, y: u16) -> (out: Vec<u8>)
    requires
        x < u16::MAX,
        y < u16::MAX,
    ensures
        out@ == move_to_sequence(x, y),
{
    move_to_ansi(x, y)
}

/// The bytes that hide the cursor.
pub fn hide_cursor() -> (out: Vec<u8>)
    ensures
        out@ == hide_cursor_sequence(),
{
    hide_ansi()
}

/// The bytes that show the cursor.
pub fn show_cursor() -> (out: Vec<u8>)
    ensures
        out@ == show_cursor_sequence(),
{
    show_ansi()
}

/// The bytes that clear the screen in the given way.
pub fn clear(t: CrosstermClearType) -> (out: Vec<u8>)
    ensures
        out@ == clear_sequence(t),
{
    clear_ansi(t)
}

/// The bytes that end a line.
pub fn newline() -> (out: Vec<u8>)
    ensures
        out@ == seq![NEWLINE],
{
    print_newline_ansi()
}

/// The bytes that reset the foreground color.
pub fn reset_foreground() -> (out: Vec<u8>)
    ensures
        is_color_reset_sequence(out@, 39),
{
    reset_foreground_ansi()
}

/// The bytes that reset the background color.
pub fn reset_background() -> (out: Vec<u8>)
    ensures
        is_color_reset_sequence(out@, 49),
{
    reset_background_ansi()
}

/// The bytes that reset the underline color.
pub fn reset_underline() -> (out: Vec<u8>)
    ensures
        is_color_reset_sequence(out@, 59),
{
    set_underline_color_ansi(CrosstermColor::Reset)
}

/// The bytes that set the underline color.
pub fn set_underline_color(c: CrosstermColor) -> (out: Vec<u8>)
    ensures
        is_underline_color_sequence(out@, c),
{
    set_underline_color_ansi(c)
}

/// The bytes that switch every modifier off.
pub fn reset_attributes() -> (out: Vec<u8>)
    ensures
        out@ == sgr_code(0),
{
    reset_attributes_ansi()
}

/// A command that scrolls the rows `first_row..=last_row` of the screen up by
/// `lines_to_scroll` rows, leaving the rest of the screen in place.
#[derive(Debug, Clone, Copy, PartialEq, Eq, Structural)]
pub struct ScrollUpInRegion {
    pub first_row: u16,
    pub last_row: u16,
    pub lines_to_scroll: u16,
}

/// A command that scrolls the rows `first_row..=last_row` of the screen down by
/// `lines_to_scroll` rows, leaving the rest of the screen in place.
#[derive(Debug, Clone, Copy, PartialEq, Eq, Structural)]
pub struct ScrollDownInRegion {
    pub first_row: u16,
    pub last_row: u16,
    pub lines_to_scroll: u16,
}

/// `x + 1`, or `u16::MAX` when that does not fit.
pub open spec fn saturating_next(x: u16) -> nat {
    if x == u16::MAX {
        u16::MAX as nat
    } else {
        x as nat + 1
    }
}

/// The sequence that scrolls the rows `first_row..=last_row` by `lines` rows, in the direction
/// that `direction` (`S` up, `T` down) names: it sets the scrolling region to those rows
/// (counted from 1), scrolls it, and sets the region back to the whole screen. Nothing is sent
/// to scroll by no rows.
pub open spec fn scroll_region_sequence(first_row: u16, last_row: u16, lines: u16, direction: u8) -> Seq<
    u8,
> {
    if lines == 0 {
        seq![]
    } else {
        csi(decimal(saturating_next(first_row)) + seq![SEMICOLON] + decimal(
            saturating_next(last_row),
        ) + seq![LOWER_R]) + csi(decimal(lines as nat) + seq![direction]) + csi(seq![LOWER_R])
    }
}

/// Scrolling by some rows always sets the scrolling region to the rows `first_row..=last_row`
/// (counted from 1, and at most 65535) before it scrolls, and sets the region back to the
/// whole screen after, whatever the rows and the direction: it sends `ESC [ first ; last r`,
/// `ESC [ lines S` (or `T`), and `ESC [ r`. Scrolling by no rows sends nothing.
pub proof fn lemma_scroll_sets_region(first_row: u16, last_row: u16, lines: u16, direction: u8)
    ensures
        lines > 0 ==> scroll_region_sequence(first_row, last_row, lines, direction) == seq![
            0x1bu8,
            0x5bu8,
        ] + decimal(
            if first_row < 65535 {
                first_row + 1
            } else {
                65535
            } as nat,
        ) + seq![0x3bu8] + decimal(
            if last_row < 65535 {
                last_row + 1
            } else {
                65535
            } as nat,
        ) + seq![0x72u8, 0x1bu8, 0x5bu8] + decimal(lines as nat) + seq![
            direction,
            0x1bu8,
            0x5bu8,
            0x72u8,
        ],
        lines == 0 ==> scroll_region_sequence(first_row, last_row, lines, direction)
            == Seq::<u8>::empty(),
{
    if lines > 0 {
        let a = if first_row < 65535 {
            first_row + 1
        } else {
            65535
        };
        let b = if last_row < 65535 {
            last_row + 1
        } else {
            65535
        };
        assert(saturating_next(first_row) == a as nat);
        assert(saturating_next(last_row) == b as nat);
        assert(scroll_region_sequence(first_row, last_row, lines, direction) =~= seq![
            0x1bu8,
            0x5bu8,
        ] + decimal(a as nat) + seq![0x3bu8] + decimal(b as nat) + seq![0x72u8, 0x1bu8, 0x5bu8]
            + decimal(lines as nat) + seq![direction, 0x1bu8, 0x5bu8, 0x72u8]);
    }
}

/// Appends the sequence that scrolls the rows `first_row..=last_row` by `lines` rows in the
/// given direction.
fn write_scroll_region(out: &mut Vec<u8>, first_row: u16, last_row: u16, lines: u16, direction: u8)
    ensures
        final(out)@ == old(out)@ + scroll_region_sequence(first_row, last_row, lines, direction),
{
    if lines != 0 {
        // Set a scrolling region that holds just the rows to scroll.
        out.push(ESC);
        out.push(OPEN_BRACKET);
        push_decimal(out, first_row.saturating_add(1) as u32);
        out.push(SEMICOLON);
        push_decimal(out, last_row.saturating_add(1) as u32);
        out.push(LOWER_R);
        // Scroll the region by the requested count.
        out.push(ESC);
        out.push(OPEN_BRACKET);
        push_decimal(out, lines as u32);
        out.push(direction);
        // Set the scrolling region back to the whole screen.
        out.push(ESC);
        out.push(OPEN_BRACKET);
        out.push(LOWER_R);
        assert(final(out)@ =~= old(out)@ + scroll_region_sequence(
            first_row,
            last_row,
            lines,
            direction,
        ));
    } else {
        assert(final(out)@ =~= old(out)@ + scroll_region_sequence(
            first_row,
            last_row,
            lines,
            direction,
        ));
    }
}

impl ScrollUpInRegion {
    /// Appends the ANSI form of the command.
    pub fn write_ansi(&self, out: &mut Vec<u8>)
        ensures
            final(out)@ == old(out)@ + scroll_region_sequence(
                self.first_row,
                self.last_row,
                self.lines_to_scroll,
                UPPER_S,
            ),
    {
        write_scroll_region(out, self.first_row, self.last_row, self.lines_to_scroll, UPPER_S);
    }
}

impl ScrollDownInRegion {
    /// Appends the ANSI form of the command.
    pub fn write_ansi(&self, out: &mut Vec<u8>)
        ensures
            final(out)@ == old(out)@ + scroll_region_sequence(
                self.first_row,
                self.last_row,
                self.lines_to_scroll,
                UPPER_T,
            ),
    {
        write_scroll_region(out, self.first_row, self.last_row, self.lines_to_scroll, UPPER_T);
    }
}

} // verus!
