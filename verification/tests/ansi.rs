//! The SGR sequences that set colors.
use ratatui_crossterm::ansi::{push_decimal, push_sgr_code, write_bg_ansi, write_fg_ansi};
use ratatui_crossterm::Color;

fn fg(c: Color) -> Vec<u8> {
    let mut out = Vec::new();
    write_fg_ansi(&mut out, c);
    out
}

fn bg(c: Color) -> Vec<u8> {
    let mut out = Vec::new();
    write_bg_ansi(&mut out, c);
    out
}

#[test]
fn foreground_named_colors() {
    let cases: [(Color, &[u8]); 17] = [
        (Color::Reset, b"\x1b[39m"),
        (Color::Black, b"\x1b[30m"),
        (Color::Red, b"\x1b[31m"),
        (Color::Green, b"\x1b[32m"),
        (Color::Yellow, b"\x1b[33m"),
        (Color::Blue, b"\x1b[34m"),
        (Color::Magenta, b"\x1b[35m"),
        (Color::Cyan, b"\x1b[36m"),
        (Color::Gray, b"\x1b[37m"),
        (Color::DarkGray, b"\x1b[90m"),
        (Color::LightRed, b"\x1b[91m"),
        (Color::LightGreen, b"\x1b[92m"),
        (Color::LightYellow, b"\x1b[93m"),
        (Color::LightBlue, b"\x1b[94m"),
        (Color::LightMagenta, b"\x1b[95m"),
        (Color::LightCyan, b"\x1b[96m"),
        (Color::White, b"\x1b[97m"),
    ];
    for (c, expected) in cases {
        assert_eq!(fg(c), expected.to_vec());
    }
}

#[test]
fn background_named_colors() {
    let cases: [(Color, &[u8]); 17] = [
        (Color::Reset, b"\x1b[49m"),
        (Color::Black, b"\x1b[40m"),
        (Color::Red, b"\x1b[41m"),
        (Color::Green, b"\x1b[42m"),
        (Color::Yellow, b"\x1b[43m"),
        (Color::Blue, b"\x1b[44m"),
        (Color::Magenta, b"\x1b[45m"),
        (Color::Cyan, b"\x1b[46m"),
        (Color::Gray, b"\x1b[47m"),
        (Color::DarkGray, b"\x1b[100m"),
        (Color::LightRed, b"\x1b[101m"),
        (Color::LightGreen, b"\x1b[102m"),
        (Color::LightYellow, b"\x1b[103m"),
        (Color::LightBlue, b"\x1b[104m"),
        (Color::LightMagenta, b"\x1b[105m"),
        (Color::LightCyan, b"\x1b[106m"),
        (Color::White, b"\x1b[107m"),
    ];
    for (c, expected) in cases {
        assert_eq!(bg(c), expected.to_vec());
    }
}

#[test]
fn indexed_colors() {
    assert_eq!(fg(Color::Indexed(0)), b"\x1b[38;5;0m".to_vec());
    assert_eq!(fg(Color::Indexed(42)), b"\x1b[38;5;42m".to_vec());
    assert_eq!(bg(Color::Indexed(255)), b"\x1b[48;5;255m".to_vec());
}

#[test]
fn rgb_colors() {
    assert_eq!(fg(Color::Rgb(1, 2, 3)), b"\x1b[38;2;1;2;3m".to_vec());
    assert_eq!(bg(Color::Rgb(255, 0, 100)), b"\x1b[48;2;255;0;100m".to_vec());
}

#[test]
fn writes_append() {
    let mut out = b"ab".to_vec();
    write_fg_ansi(&mut out, Color::Red);
    write_bg_ansi(&mut out, Color::Rgb(10, 20, 30));
    assert_eq!(out, b"ab\x1b[31m\x1b[48;2;10;20;30m".to_vec());
}

#[test]
fn decimals() {
    let mut out = Vec::new();
    push_decimal(&mut out, 0);
    out.push(b' ');
    push_decimal(&mut out, 7);
    out.push(b' ');
    push_decimal(&mut out, 10);
    out.push(b' ');
    push_decimal(&mut out, 65535);
    out.push(b' ');
    push_decimal(&mut out, 4294967295);
    assert_eq!(out, b"0 7 10 65535 4294967295".to_vec());
}

#[test]
fn sgr_codes() {
    let mut out = Vec::new();
    push_sgr_code(&mut out, 0);
    push_sgr_code(&mut out, 22);
    push_sgr_code(&mut out, 107);
    assert_eq!(out, b"\x1b[0m\x1b[22m\x1b[107m".to_vec());
}

fn split_first_number(seq: &[u8]) -> (u32, Vec<u8>) {
    let body = &seq[2..];
    let end = body.iter().position(|b| *b == b';' || *b == b'm').unwrap();
    let n: u32 = std::str::from_utf8(&body[..end]).unwrap().parse().unwrap();
    (n, body[end..].to_vec())
}

#[test]
fn background_is_foreground_plus_ten() {
    let colors = [
        Color::Reset,
        Color::Black,
        Color::Red,
        Color::Gray,
        Color::DarkGray,
        Color::LightCyan,
        Color::White,
        Color::Indexed(7),
        Color::Rgb(9, 99, 199),
    ];
    for c in colors {
        let (f, f_rest) = split_first_number(&fg(c));
        let (b, b_rest) = split_first_number(&bg(c));
        assert_eq!(b, f + 10);
        assert_eq!(b_rest, f_rest);
    }
}
