//! What the backend writes to draw, to move, hide and show the cursor, to clear, to append
//! lines and to scroll.
use ratatui_crossterm::backend::window_size_from_crossterm;
use ratatui_crossterm::commands::{ScrollDownInRegion, ScrollUpInRegion};
use ratatui_crossterm::{
    Cell, ClearType, Color, CrosstermBackend, CrosstermClearType, CrosstermColor,
    Modifier, Size, WindowSize,
};

use crossterm::style::{
    Attribute, Color as C, SetAttribute, SetBackgroundColor, SetForegroundColor,
    SetUnderlineColor,
};
use crossterm::Command;

fn ansi(command: impl Command) -> Vec<u8> {
    let mut s = String::new();
    command.write_ansi(&mut s).unwrap();
    s.into_bytes()
}

fn real_color(c: CrosstermColor) -> crossterm::style::Color {
    match c {
        CrosstermColor::Reset => C::Reset,
        CrosstermColor::Black => C::Black,
        CrosstermColor::DarkGrey => C::DarkGrey,
        CrosstermColor::Red => C::Red,
        CrosstermColor::DarkRed => C::DarkRed,
        CrosstermColor::Green => C::Green,
        CrosstermColor::DarkGreen => C::DarkGreen,
        CrosstermColor::Yellow => C::Yellow,
        CrosstermColor::DarkYellow => C::DarkYellow,
        CrosstermColor::Blue => C::Blue,
        CrosstermColor::DarkBlue => C::DarkBlue,
        CrosstermColor::Magenta => C::Magenta,
        CrosstermColor::DarkMagenta => C::DarkMagenta,
        CrosstermColor::Cyan => C::Cyan,
        CrosstermColor::DarkCyan => C::DarkCyan,
        CrosstermColor::White => C::White,
        CrosstermColor::Grey => C::Grey,
        CrosstermColor::Rgb { r, g, b } => C::Rgb { r, g, b },
        CrosstermColor::AnsiValue(v) => C::AnsiValue(v),
    }
}

fn flatten(chunks: Vec<Vec<u8>>) -> Vec<u8> {
    chunks.concat()
}

fn end_of_draw() -> Vec<u8> {
    let mut out = ansi(SetForegroundColor(C::Reset));
    out.append(&mut ansi(SetBackgroundColor(C::Reset)));
    out.append(&mut ansi(SetUnderlineColor(C::Reset)));
    out.append(&mut ansi(SetAttribute(Attribute::Reset)));
    out
}

fn cell(symbol: &str) -> Cell {
    Cell {
        symbol: symbol.to_string(),
        fg: Color::Reset,
        bg: Color::Reset,
        underline_color: Color::Reset,
        modifier: Modifier { bits: 0 },
    }
}

fn backend() -> CrosstermBackend<Vec<u8>> {
    CrosstermBackend::new(Vec::new())
}

#[test]
fn new_keeps_the_writer() {
    let b = CrosstermBackend::new(vec![7u8, 8]);
    assert_eq!(b.writer(), &vec![7u8, 8]);
}

#[test]
fn writer_mut_changes_the_writer() {
    let mut b = CrosstermBackend::new(vec![1u8]);
    b.writer_mut().push(2);
    assert_eq!(b.writer(), &vec![1u8, 2]);
}

#[test]
fn hide_and_show_cursor() {
    assert_eq!(backend().hide_cursor(), b"\x1b[?25l".to_vec());
    assert_eq!(backend().show_cursor(), b"\x1b[?25h".to_vec());
    assert_eq!(backend().hide_cursor(), ansi(crossterm::cursor::Hide));
    assert_eq!(backend().show_cursor(), ansi(crossterm::cursor::Show));
}

#[test]
fn set_cursor_position_counts_from_one() {
    assert_eq!(backend().set_cursor_position(0, 0), b"\x1b[1;1H".to_vec());
    assert_eq!(backend().set_cursor_position(5, 10), b"\x1b[11;6H".to_vec());
    assert_eq!(
        backend().set_cursor_position(65534, 65534),
        b"\x1b[65535;65535H".to_vec()
    );
}

#[test]
fn clear_is_clear_all() {
    assert_eq!(backend().clear(), b"\x1b[2J".to_vec());
    assert_eq!(backend().clear(), backend().clear_region(ClearType::All));
}

#[test]
fn clear_region_each_type() {
    assert_eq!(backend().clear_region(ClearType::All), b"\x1b[2J".to_vec());
    assert_eq!(backend().clear_region(ClearType::AfterCursor), b"\x1b[J".to_vec());
    assert_eq!(backend().clear_region(ClearType::BeforeCursor), b"\x1b[1J".to_vec());
    assert_eq!(backend().clear_region(ClearType::CurrentLine), b"\x1b[2K".to_vec());
    assert_eq!(backend().clear_region(ClearType::UntilNewLine), b"\x1b[K".to_vec());
}

#[test]
fn clear_purge_through_commands() {
    assert_eq!(
        ratatui_crossterm::commands::clear(CrosstermClearType::Purge),
        b"\x1b[3J".to_vec()
    );
}

#[test]
fn append_lines_writes_line_feeds() {
    assert_eq!(backend().append_lines(0), Vec::<u8>::new());
    assert_eq!(backend().append_lines(1), b"\n".to_vec());
    assert_eq!(backend().append_lines(3), b"\n\n\n".to_vec());
}

#[test]
fn scroll_region_up_sequence() {
    assert_eq!(
        backend().scroll_region_up(1, 5, 2),
        b"\x1b[2;5r\x1b[2S\x1b[r".to_vec()
    );
}

#[test]
fn scroll_region_down_sequence() {
    assert_eq!(
        backend().scroll_region_down(0, 10, 3),
        b"\x1b[1;10r\x1b[3T\x1b[r".to_vec()
    );
}

#[test]
fn scroll_by_nothing_writes_nothing() {
    assert_eq!(backend().scroll_region_up(1, 5, 0), Vec::<u8>::new());
    assert_eq!(backend().scroll_region_down(1, 5, 0), Vec::<u8>::new());
}

#[test]
fn scroll_region_saturates() {
    assert_eq!(
        backend().scroll_region_up(65535, 0, 1),
        b"\x1b[65535;1r\x1b[1S\x1b[r".to_vec()
    );
}

#[test]
fn scroll_commands_write_ansi() {
    let mut out = b"x".to_vec();
    ScrollUpInRegion {
        first_row: 2,
        last_row: 4,
        lines_to_scroll: 12,
    }
    .write_ansi(&mut out);
    assert_eq!(out, b"x\x1b[3;5r\x1b[12S\x1b[r".to_vec());
    let mut out = Vec::new();
    ScrollDownInRegion {
        first_row: 2,
        last_row: 4,
        lines_to_scroll: 12,
    }
    .write_ansi(&mut out);
    assert_eq!(out, b"\x1b[3;5r\x1b[12T\x1b[r".to_vec());
}

#[test]
fn window_size_maps_fields() {
    assert_eq!(
        window_size_from_crossterm(80, 24, 640, 480),
        WindowSize {
            columns_rows: Size {
                width: 80,
                height: 24
            },
            pixels: Size {
                width: 640,
                height: 480
            },
        }
    );
}

#[test]
fn draw_nothing_only_resets() {
    assert_eq!(flatten(backend().draw(&[])), end_of_draw());
}

#[test]
fn draw_adjacent_cells_moves_once() {
    let cells = vec![(0u16, 0u16, cell("a")), (1, 0, cell("b"))];
    let mut expected = b"\x1b[1;1Hab".to_vec();
    expected.append(&mut end_of_draw());
    assert_eq!(flatten(backend().draw(&cells)), expected);
}

#[test]
fn draw_moves_for_a_gap_and_a_new_row() {
    let cells = vec![
        (0u16, 0u16, cell("a")),
        (2, 0, cell("b")),
        (3, 1, cell("c")),
    ];
    let mut expected = b"\x1b[1;1Ha\x1b[1;3Hb\x1b[2;4Hc".to_vec();
    expected.append(&mut end_of_draw());
    assert_eq!(flatten(backend().draw(&cells)), expected);
}

#[test]
fn draw_sets_colors_when_either_changes() {
    let mut red = cell("r");
    red.fg = Color::Red;
    let mut on_blue = cell("b");
    on_blue.fg = Color::Red;
    on_blue.bg = Color::Indexed(42);
    let cells = vec![(0u16, 0u16, red), (1, 0, on_blue), (2, 0, cell("x"))];
    let mut expected = b"\x1b[1;1H\x1b[31m\x1b[49mr\x1b[31m\x1b[48;5;42mb\x1b[39m\x1b[49mx".to_vec();
    expected.append(&mut end_of_draw());
    assert_eq!(flatten(backend().draw(&cells)), expected);
}

#[test]
fn draw_changes_modifiers() {
    let mut bold = cell("b");
    bold.modifier = Modifier {
        bits: Modifier::BOLD,
    };
    let mut dim = cell("d");
    dim.modifier = Modifier {
        bits: Modifier::DIM,
    };
    let cells = vec![(0u16, 0u16, bold), (1, 0, dim), (2, 0, cell("p"))];
    let mut expected = b"\x1b[1;1H\x1b[1mb\x1b[22m\x1b[2md\x1b[22mp".to_vec();
    expected.append(&mut end_of_draw());
    assert_eq!(flatten(backend().draw(&cells)), expected);
}

#[test]
fn draw_sets_underline_color() {
    let mut u = cell("u");
    u.underline_color = Color::Rgb(1, 2, 3);
    let cells = vec![(4u16, 2u16, u)];
    let chunks = backend().draw(&cells);
    assert_eq!(chunks[1], ansi(SetUnderlineColor(C::Rgb { r: 1, g: 2, b: 3 })));
    let mut expected = b"\x1b[3;5H".to_vec();
    expected.append(&mut ansi(SetUnderlineColor(C::Rgb { r: 1, g: 2, b: 3 })));
    expected.extend_from_slice(b"u");
    expected.append(&mut end_of_draw());
    assert_eq!(flatten(chunks), expected);
}

#[test]
fn underline_color_commands_match_crossterm() {
    let colors = [
        CrosstermColor::Reset,
        CrosstermColor::Black,
        CrosstermColor::DarkGrey,
        CrosstermColor::Red,
        CrosstermColor::DarkRed,
        CrosstermColor::Green,
        CrosstermColor::DarkGreen,
        CrosstermColor::Yellow,
        CrosstermColor::DarkYellow,
        CrosstermColor::Blue,
        CrosstermColor::DarkBlue,
        CrosstermColor::Magenta,
        CrosstermColor::DarkMagenta,
        CrosstermColor::Cyan,
        CrosstermColor::DarkCyan,
        CrosstermColor::White,
        CrosstermColor::Grey,
        CrosstermColor::Rgb { r: 10, g: 200, b: 0 },
        CrosstermColor::AnsiValue(123),
    ];
    for c in colors {
        assert_eq!(
            ratatui_crossterm::commands::set_underline_color(c),
            ansi(SetUnderlineColor(real_color(c)))
        );
    }
    if ansi(SetUnderlineColor(C::Reset)) == b"\x1b[m".to_vec() {
        // Crossterm has been told to leave out colors.
        return;
    }
    assert_eq!(
        ratatui_crossterm::commands::set_underline_color(CrosstermColor::DarkRed),
        b"\x1b[58;5;1m".to_vec()
    );
    assert_eq!(
        ratatui_crossterm::commands::set_underline_color(CrosstermColor::Rgb { r: 1, g: 2, b: 3 }),
        b"\x1b[58;2;1;2;3m".to_vec()
    );
    assert_eq!(
        ratatui_crossterm::commands::set_underline_color(CrosstermColor::Reset),
        b"\x1b[59m".to_vec()
    );
}

#[test]
fn draw_writes_wide_symbols_as_utf8() {
    let cells = vec![(0u16, 0u16, cell("日")), (2, 0, cell("é"))];
    let mut expected = "\x1b[1;1H日\x1b[1;3Hé".as_bytes().to_vec();
    expected.append(&mut end_of_draw());
    assert_eq!(flatten(backend().draw(&cells)), expected);
}

#[test]
fn draw_moves_to_the_next_row() {
    let cells = vec![(65534u16, 3u16, cell("a")), (0, 4, cell("b"))];
    let mut expected = b"\x1b[4;65535Ha\x1b[5;1Hb".to_vec();
    expected.append(&mut end_of_draw());
    assert_eq!(flatten(backend().draw(&cells)), expected);
}

#[test]
fn draw_after_the_last_column_wraps_without_a_move() {
    let cells = vec![
        (65534u16, 3u16, cell("a")),
        (65535, 3, cell("b")),
        (0, 3, cell("c")),
    ];
    let mut expected = b"\x1b[4;65535Habc".to_vec();
    expected.append(&mut end_of_draw());
    assert_eq!(flatten(backend().draw(&cells)), expected);
}

#[test]
fn draw_starting_at_origin_moves_there() {
    let cells = vec![(0u16, 0u16, cell(" "))];
    let chunks = backend().draw(&cells);
    assert_eq!(chunks.len(), 6);
    assert_eq!(
        flatten(chunks)[..7].to_vec(),
        b"\x1b[1;1H ".to_vec()
    );
}

fn end_of_draw_without_underline() -> Vec<u8> {
    let mut out = ansi(SetForegroundColor(C::Reset));
    out.append(&mut ansi(SetBackgroundColor(C::Reset)));
    out.append(&mut ansi(SetAttribute(Attribute::Reset)));
    out
}

#[test]
fn draw_without_underline_color_never_sets_it() {
    let mut u = cell("u");
    u.underline_color = Color::Rgb(1, 2, 3);
    u.fg = Color::Green;
    let cells = vec![(0u16, 0u16, u), (1, 0, cell("v"))];
    let chunks = backend().draw_without_underline_color(&cells);
    assert!(chunks.iter().all(|c| !c.starts_with(b"\x1b[58") && !c.starts_with(b"\x1b[59")));
    let mut expected = b"\x1b[1;1H\x1b[32m\x1b[49mu\x1b[39m\x1b[49mv".to_vec();
    expected.append(&mut end_of_draw_without_underline());
    assert_eq!(flatten(chunks), expected);
}

#[test]
fn draw_without_underline_color_of_nothing_only_resets() {
    assert_eq!(
        flatten(backend().draw_without_underline_color(&[])),
        end_of_draw_without_underline()
    );
}
