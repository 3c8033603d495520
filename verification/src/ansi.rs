//! ANSI escape sequences written byte by byte: numbers in decimal, control sequences, and the
//! Select Graphic Rendition (SGR) sequences that set colors and modifiers.
use vstd::prelude::*;

use crate::style::Color;

verus! {

/// The escape byte that starts every control sequence.
pub const ESC: u8 = 0x1b;
/// `[`, which follows the escape byte in a control sequence.
pub const OPEN_BRACKET: u8 = 0x5b;
/// `;`, which separates the numbers of a control sequence.
pub const SEMICOLON: u8 = 0x3b;
/// `m`, which ends an SGR sequence.
pub const LOWER_M: u8 = 0x6d;
/// The digit `0`.
pub const DIGIT_ZERO: u8 = 0x30;

/// The decimal digits of `n`, most significant first, with no leading zero.
pub open spec fn decimal(n: nat) -> Seq<u8>
    decreases n,
{
    if n < 10 {
        seq![(n + DIGIT_ZERO) as u8]
    } else {
        decimal(n / 10).push((n % 10 + DIGIT_ZERO) as u8)
    }
}

/// A control sequence: the escape byte, `[`, then `body`.
pub open spec fn csi(body: Seq<u8>) -> Seq<u8> {
    seq![ESC, OPEN_BRACKET] + body
}

/// An SGR sequence with the given parameters: `ESC [ params m`.
pub open spec fn sgr(params: Seq<u8>) -> Seq<u8> {
    csi(params.push(LOWER_M))
}

/// The SGR sequence that holds the one code.
pub open spec fn sgr_code(code: u8) -> Seq<u8> {
    sgr(decimal(code as nat))
}

/// The SGR sequences of the codes, one after the other.
#[verifier::opaque]
pub open spec fn sgr_all(codes: Seq<u8>) -> Seq<u8>
    decreases codes.len(),
{
    if codes.len() == 0 {
        seq![]
    } else {
        sgr_all(codes.drop_last()) + sgr_code(codes.last())
    }
}

/// Appends the decimal digits of `n`.
pub fn push_decimal(out: &mut Vec<u8>, n: u32)
    ensures
        final(out)@ == old(out)@ + decimal(n as nat),
    decreases n,
{
    if n >= 10 {
        push_decimal(out, n / 10);
    }
    let d = (n % 10) as u8;
    out.push(d + DIGIT_ZERO);
    proof {
        if n >= 10 {
            assert(final(out)@ =~= old(out)@ + decimal(n as nat));
        } else {
            assert(final(out)@ =~= old(out)@ + decimal(n as nat));
        }
    }
}

/// Appends the SGR sequence that holds the one code.
pub fn push_sgr_code(out: &mut Vec<u8>, code: u8)
    ensures
        final(out)@ == old(out)@ + sgr_code(code),
{
    out.push(ESC);
    out.push(OPEN_BRACKET);
    push_decimal(out, code as u32);
    out.push(LOWER_M);
    assert(final(out)@ =~= old(out)@ + sgr_code(code));
}

/// The SGR parameters that set a color, counted from `base`: 30 for the foreground, 40 for
/// the background. The eight plain colors are `base` to `base + 7`, their bright forms
/// `base + 60` to `base + 67`, the default color is `base + 9`, and indexed and RGB colors
/// follow `base + 8` as `5;i` and `2;r;g;b`.
pub open spec fn color_params(c: Color, base: nat) -> Seq<u8> {
    match c {
        Color::Reset => decimal(base + 9),
        Color::Black => decimal(base),
        Color::Red => decimal(base + 1),
        Color::Green => decimal(base + 2),
        Color::Yellow => decimal(base + 3),
        Color::Blue => decimal(base + 4),
        Color::Magenta => decimal(base + 5),
        Color::Cyan => decimal(base + 6),
        Color::Gray => decimal(base + 7),
        Color::DarkGray => decimal(base + 60),
        Color::LightRed => decimal(base + 61),
        Color::LightGreen => decimal(base + 62),
        Color::LightYellow => decimal(base + 63),
        Color::LightBlue => decimal(base + 64),
        Color::LightMagenta => decimal(base + 65),
        Color::LightCyan => decimal(base + 66),
        Color::White => decimal(base + 67),
        Color::Indexed(i) => decimal(base + 8) + seq![SEMICOLON] + decimal(5) + seq![SEMICOLON]
            + decimal(i as nat),
        Color::Rgb(r, g, b) => decimal(base + 8) + seq![SEMICOLON] + decimal(2) + seq![SEMICOLON]
            + decimal(r as nat) + seq![SEMICOLON] + decimal(g as nat) + seq![SEMICOLON] + decimal(
            b as nat,
        ),
    }
}

/// The sequence that sets the foreground color.
pub open spec fn fg_sequence(c: Color) -> Seq<u8> {
    sgr(color_params(c, 30))
}

/// The sequence that sets the background color.
pub open spec fn bg_sequence(c: Color) -> Seq<u8> {
    sgr(color_params(c, 40))
}

/// The first number of the foreground sequence of a color: 39 for the default color, 30 to 37
/// for black and the plain colors, 90 to 97 for dark gray and the light colors, and 38 for
/// indexed and RGB colors.
pub open spec fn foreground_code(c: Color) -> nat {
    match c {
        Color::Reset => 39,
        Color::Black => 30,
        Color::Red => 31,
        Color::Green => 32,
        Color::Yellow => 33,
        Color::Blue => 34,
        Color::Magenta => 35,
        Color::Cyan => 36,
        Color::Gray => 37,
        Color::DarkGray => 90,
        Color::LightRed => 91,
        Color::LightGreen => 92,
        Color::LightYellow => 93,
        Color::LightBlue => 94,
        Color::LightMagenta => 95,
        Color::LightCyan => 96,
        Color::White => 97,
        Color::Indexed(_) => 38,
        Color::Rgb(_, _, _) => 38,
    }
}

/// What follows the first number of a color's sequence: `;5;i` for an indexed color,
/// `;2;r;g;b` for an RGB color, and nothing for the others.
pub open spec fn color_tail(c: Color) -> Seq<u8> {
    match c {
        Color::Indexed(i) => seq![SEMICOLON] + decimal(5) + seq![SEMICOLON] + decimal(i as nat),
        Color::Rgb(r, g, b) => seq![SEMICOLON] + decimal(2) + seq![SEMICOLON] + decimal(r as nat)
            + seq![SEMICOLON] + decimal(g as nat) + seq![SEMICOLON] + decimal(b as nat),
        _ => seq![],
    }
}

/// A color's background sequence is its foreground sequence with the first number raised by
/// 10 (39 to 49, 30..37 to 40..47, 90..97 to 100..107, 38 to 48), the rest being the same.
pub proof fn lemma_background_is_foreground_plus_ten(c: Color)
    ensures
        fg_sequence(c) == sgr(decimal(foreground_code(c)) + color_tail(c)),
        bg_sequence(c) == sgr(decimal(foreground_code(c) + 10) + color_tail(c)),
{
    assert(color_params(c, 30) =~= decimal(foreground_code(c)) + color_tail(c));
    assert(color_params(c, 40) =~= decimal(foreground_code(c) + 10) + color_tail(c));
}

/// Appends the SGR parameters that set the color, counted from `base`.
fn push_color_params(out: &mut Vec<u8>, c: Color, base: u32)
    requires
        base <= 40,
    ensures
        final(out)@ == old(out)@ + color_params(c, base as nat),
{
    match c {
        Color::Reset => push_decimal(out, base + 9),
        Color::Black => push_decimal(out, base),
        Color::Red => push_decimal(out, base + 1),
        Color::Green => push_decimal(out, base + 2),
        Color::Yellow => push_decimal(out, base + 3),
        Color::Blue => push_decimal(out, base + 4),
        Color::Magenta => push_decimal(out, base + 5),
        Color::Cyan => push_decimal(out, base + 6),
        Color::Gray => push_decimal(out, base + 7),
        Color::DarkGray => push_decimal(out, base + 60),
        Color::LightRed => push_decimal(out, base + 61),
        Color::LightGreen => push_decimal(out, base + 62),
        Color::LightYellow => push_decimal(out, base + 63),
        Color::LightBlue => push_decimal(out, base + 64),
        Color::LightMagenta => push_decimal(out, base + 65),
        Color::LightCyan => push_decimal(out, base + 66),
        Color::White => push_decimal(out, base + 67),
        Color::Indexed(i) => {
            push_decimal(out, base + 8);
            out.push(SEMICOLON);
            push_decimal(out, 5);
            out.push(SEMICOLON);
            push_decimal(out, i as u32);
            assert(final(out)@ =~= old(out)@ + color_params(c, base as nat));
        },
        Color::Rgb(r, g, b) => {
            push_decimal(out, base + 8);
            out.push(SEMICOLON);
            push_decimal(out, 2);
            out.push(SEMICOLON);
            push_decimal(out, r as u32);
            out.push(SEMICOLON);
            push_decimal(out, g as u32);
            out.push(SEMICOLON);
            push_decimal(out, b as u32);
            assert(final(out)@ =~= old(out)@ + color_params(c, base as nat));
        },
    }
}

/// Appends the ANSI sequence that sets the foreground color.
pub fn write_fg_ansi(out: &mut Vec<u8>, color: Color)
    ensures
        final(out)@ == old(out)@ + fg_sequence(color),
{
    out.push(ESC);
    out.push(OPEN_BRACKET);
    push_color_params(out, color, 30);
    out.push(LOWER_M);
    assert(final(out)@ =~= old(out)@ + fg_sequence(color));
}

/// Appends the ANSI sequence that sets the background color.
pub fn write_bg_ansi(out: &mut Vec<u8>, color: Color)
    ensures
        final(out)@ == old(out)@ + bg_sequence(color),
{
    out.push(ESC);
    out.push(OPEN_BRACKET);
    push_color_params(out, color, 40);
    out.push(LOWER_M);
    assert(final(out)@ =~= old(out)@ + bg_sequence(color));
}

} // verus!
