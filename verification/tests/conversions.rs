//! Conversions between Ratatui's and Crossterm's styling vocabularies.
use ratatui_crossterm::{
    Color, ContentStyle, CrosstermAttribute, CrosstermAttributes, CrosstermColor, FromCrossterm,
    IntoCrossterm, Modifier, ModifierDiff, Style,
};

use crossterm::style::Attribute as A;
use crossterm::Command;

fn modifier(bits: u16) -> Modifier {
    Modifier { bits }
}

fn real_attribute(a: CrosstermAttribute) -> crossterm::style::Attribute {
    match a {
        CrosstermAttribute::Reset => A::Reset,
        CrosstermAttribute::Bold => A::Bold,
        CrosstermAttribute::Dim => A::Dim,
        CrosstermAttribute::Italic => A::Italic,
        CrosstermAttribute::Underlined => A::Underlined,
        CrosstermAttribute::DoubleUnderlined => A::DoubleUnderlined,
        CrosstermAttribute::Undercurled => A::Undercurled,
        CrosstermAttribute::Underdotted => A::Underdotted,
        CrosstermAttribute::Underdashed => A::Underdashed,
        CrosstermAttribute::SlowBlink => A::SlowBlink,
        CrosstermAttribute::RapidBlink => A::RapidBlink,
        CrosstermAttribute::Reverse => A::Reverse,
        CrosstermAttribute::Hidden => A::Hidden,
        CrosstermAttribute::CrossedOut => A::CrossedOut,
        CrosstermAttribute::Fraktur => A::Fraktur,
        CrosstermAttribute::NoBold => A::NoBold,
        CrosstermAttribute::NormalIntensity => A::NormalIntensity,
        CrosstermAttribute::NoItalic => A::NoItalic,
        CrosstermAttribute::NoUnderline => A::NoUnderline,
        CrosstermAttribute::NoBlink => A::NoBlink,
        CrosstermAttribute::NoReverse => A::NoReverse,
        CrosstermAttribute::NoHidden => A::NoHidden,
        CrosstermAttribute::NotCrossedOut => A::NotCrossedOut,
        CrosstermAttribute::Framed => A::Framed,
        CrosstermAttribute::Encircled => A::Encircled,
        CrosstermAttribute::OverLined => A::OverLined,
        CrosstermAttribute::NotFramedOrEncircled => A::NotFramedOrEncircled,
        CrosstermAttribute::NotOverLined => A::NotOverLined,
    }
}

const ALL_ATTRIBUTES: [CrosstermAttribute; 28] = [
    CrosstermAttribute::Reset,
    CrosstermAttribute::Bold,
    CrosstermAttribute::Dim,
    CrosstermAttribute::Italic,
    CrosstermAttribute::Underlined,
    CrosstermAttribute::DoubleUnderlined,
    CrosstermAttribute::Undercurled,
    CrosstermAttribute::Underdotted,
    CrosstermAttribute::Underdashed,
    CrosstermAttribute::SlowBlink,
    CrosstermAttribute::RapidBlink,
    CrosstermAttribute::Reverse,
    CrosstermAttribute::Hidden,
    CrosstermAttribute::CrossedOut,
    CrosstermAttribute::Fraktur,
    CrosstermAttribute::NoBold,
    CrosstermAttribute::NormalIntensity,
    CrosstermAttribute::NoItalic,
    CrosstermAttribute::NoUnderline,
    CrosstermAttribute::NoBlink,
    CrosstermAttribute::NoReverse,
    CrosstermAttribute::NoHidden,
    CrosstermAttribute::NotCrossedOut,
    CrosstermAttribute::Framed,
    CrosstermAttribute::Encircled,
    CrosstermAttribute::OverLined,
    CrosstermAttribute::NotFramedOrEncircled,
    CrosstermAttribute::NotOverLined,
];

fn check_from_crossterm_color(crossterm_color: CrosstermColor, color: Color) {
    assert_eq!(Color::from_crossterm(crossterm_color), color);
}

fn check_queue_modifier_diff(from: Modifier, to: Modifier, expected_attributes: &[CrosstermAttribute]) {
    let mut actual = Vec::new();
    ModifierDiff { from, to }.queue(&mut actual);

    let mut expected = String::new();
    for attribute in expected_attributes {
        crossterm::style::SetAttribute(real_attribute(*attribute))
            .write_ansi(&mut expected)
            .unwrap();
    }

    assert_eq!(actual, expected.into_bytes());
}

fn check_from_crossterm_attribute(crossterm_attribute: CrosstermAttribute, ratatui_modifier: Modifier) {
    assert_eq!(Modifier::from_crossterm(crossterm_attribute), ratatui_modifier);
}

fn check_from_crossterm_attributes(
    crossterm_attributes: &[CrosstermAttribute],
    ratatui_modifier: Modifier,
) {
    assert_eq!(
        Modifier::from_crossterm(CrosstermAttributes::from_slice(crossterm_attributes)),
        ratatui_modifier
    );
}

fn check_from_crossterm_content_style(content_style: ContentStyle, style: Style) {
    assert_eq!(Style::from_crossterm(content_style), style);
}

fn check_into_crossterm_content_style(style: Style, content_style: ContentStyle) {
    assert_eq!(style.into_crossterm(), content_style);
}

fn with_attributes(attributes: &[CrosstermAttribute]) -> ContentStyle {
    ContentStyle { attributes: CrosstermAttributes::from_slice(attributes), ..Default::default() }
}

fn with_attribute(attribute: CrosstermAttribute) -> ContentStyle {
    ContentStyle { attributes: CrosstermAttributes::from_attribute(attribute), ..Default::default() }
}

#[test]
fn from_crossterm_color_case_01() {
    check_from_crossterm_color(CrosstermColor::Reset, Color::Reset);
}

#[test]
fn from_crossterm_color_case_02() {
    check_from_crossterm_color(CrosstermColor::Black, Color::Black);
}

#[test]
fn from_crossterm_color_case_03() {
    check_from_crossterm_color(CrosstermColor::DarkGrey, Color::DarkGray);
}

#[test]
fn from_crossterm_color_case_04() {
    check_from_crossterm_color(CrosstermColor::Red, Color::LightRed);
}

#[test]
fn from_crossterm_color_case_05() {
    check_from_crossterm_color(CrosstermColor::DarkRed, Color::Red);
}

#[test]
fn from_crossterm_color_case_06() {
    check_from_crossterm_color(CrosstermColor::Green, Color::LightGreen);
}

#[test]
fn from_crossterm_color_case_07() {
    check_from_crossterm_color(CrosstermColor::DarkGreen, Color::Green);
}

#[test]
fn from_crossterm_color_case_08() {
    check_from_crossterm_color(CrosstermColor::Yellow, Color::LightYellow);
}

#[test]
fn from_crossterm_color_case_09() {
    check_from_crossterm_color(CrosstermColor::DarkYellow, Color::Yellow);
}

#[test]
fn from_crossterm_color_case_10() {
    check_from_crossterm_color(CrosstermColor::Blue, Color::LightBlue);
}

#[test]
fn from_crossterm_color_case_11() {
    check_from_crossterm_color(CrosstermColor::DarkBlue, Color::Blue);
}

#[test]
fn from_crossterm_color_case_12() {
    check_from_crossterm_color(CrosstermColor::Magenta, Color::LightMagenta);
}

#[test]
fn from_crossterm_color_case_13() {
    check_from_crossterm_color(CrosstermColor::DarkMagenta, Color::Magenta);
}

#[test]
fn from_crossterm_color_case_14() {
    check_from_crossterm_color(CrosstermColor::Cyan, Color::LightCyan);
}

#[test]
fn from_crossterm_color_case_15() {
    check_from_crossterm_color(CrosstermColor::DarkCyan, Color::Cyan);
}

#[test]
fn from_crossterm_color_case_16() {
    check_from_crossterm_color(CrosstermColor::White, Color::White);
}

#[test]
fn from_crossterm_color_case_17() {
    check_from_crossterm_color(CrosstermColor::Grey, Color::Gray);
}

#[test]
fn from_crossterm_color_case_18() {
    check_from_crossterm_color(CrosstermColor::Rgb { r: 0, g: 0, b: 0 }, Color::Rgb(0, 0, 0));
}

#[test]
fn from_crossterm_color_case_19() {
    check_from_crossterm_color(CrosstermColor::Rgb { r: 10, g: 20, b: 30 }, Color::Rgb(10, 20, 30));
}

#[test]
fn from_crossterm_color_case_20() {
    check_from_crossterm_color(CrosstermColor::AnsiValue(32), Color::Indexed(32));
}

#[test]
fn from_crossterm_color_case_21() {
    check_from_crossterm_color(CrosstermColor::AnsiValue(37), Color::Indexed(37));
}

#[test]
fn queue_modifier_diff_case_01() {
    check_queue_modifier_diff(modifier(Modifier::BOLD), modifier(Modifier::BOLD | Modifier::HIDDEN), &[CrosstermAttribute::Hidden]);
}

#[test]
fn queue_modifier_diff_case_02() {
    check_queue_modifier_diff(modifier(Modifier::BOLD), modifier(Modifier::DIM), &[CrosstermAttribute::NormalIntensity, CrosstermAttribute::Dim]);
}

#[test]
fn queue_modifier_diff_case_03() {
    check_queue_modifier_diff(modifier(Modifier::CROSSED_OUT), Modifier::empty(), &[CrosstermAttribute::NotCrossedOut]);
}

#[test]
fn queue_modifier_diff_case_04() {
    check_queue_modifier_diff(modifier(Modifier::DIM), modifier(Modifier::BOLD), &[CrosstermAttribute::NormalIntensity, CrosstermAttribute::Bold]);
}

#[test]
fn queue_modifier_diff_case_05() {
    check_queue_modifier_diff(modifier(Modifier::HIDDEN | Modifier::CROSSED_OUT), modifier(Modifier::CROSSED_OUT), &[CrosstermAttribute::NoHidden]);
}

#[test]
fn queue_modifier_diff_case_06() {
    check_queue_modifier_diff(modifier(Modifier::HIDDEN | Modifier::DIM), modifier(Modifier::BOLD | Modifier::DIM), &[CrosstermAttribute::NoHidden, CrosstermAttribute::Bold]);
}

#[test]
fn queue_modifier_diff_case_07() {
    check_queue_modifier_diff(modifier(Modifier::HIDDEN), modifier(Modifier::HIDDEN), &[]);
}

#[test]
fn queue_modifier_diff_case_08() {
    check_queue_modifier_diff(modifier(Modifier::HIDDEN), Modifier::empty(), &[CrosstermAttribute::NoHidden]);
}

#[test]
fn queue_modifier_diff_case_09() {
    check_queue_modifier_diff(modifier(Modifier::REVERSED), Modifier::empty(), &[CrosstermAttribute::NoReverse]);
}

#[test]
fn queue_modifier_diff_case_10() {
    check_queue_modifier_diff(modifier(Modifier::SLOW_BLINK), modifier(Modifier::RAPID_BLINK), &[CrosstermAttribute::NoBlink, CrosstermAttribute::RapidBlink]);
}

#[test]
fn queue_modifier_diff_case_11() {
    check_queue_modifier_diff(Modifier::empty(), modifier(Modifier::CROSSED_OUT), &[CrosstermAttribute::CrossedOut]);
}

#[test]
fn queue_modifier_diff_case_12() {
    check_queue_modifier_diff(Modifier::empty(), modifier(Modifier::HIDDEN), &[CrosstermAttribute::Hidden]);
}

#[test]
fn queue_modifier_diff_case_13() {
    check_queue_modifier_diff(Modifier::empty(), modifier(Modifier::REVERSED), &[CrosstermAttribute::Reverse]);
}

#[test]
fn from_crossterm_attribute_case_01() {
    check_from_crossterm_attribute(CrosstermAttribute::Reset, Modifier::empty());
}

#[test]
fn from_crossterm_attribute_case_02() {
    check_from_crossterm_attribute(CrosstermAttribute::Bold, modifier(Modifier::BOLD));
}

#[test]
fn from_crossterm_attribute_case_03() {
    check_from_crossterm_attribute(CrosstermAttribute::NoBold, Modifier::empty());
}

#[test]
fn from_crossterm_attribute_case_04() {
    check_from_crossterm_attribute(CrosstermAttribute::Italic, modifier(Modifier::ITALIC));
}

#[test]
fn from_crossterm_attribute_case_05() {
    check_from_crossterm_attribute(CrosstermAttribute::NoItalic, Modifier::empty());
}

#[test]
fn from_crossterm_attribute_case_06() {
    check_from_crossterm_attribute(CrosstermAttribute::Underlined, modifier(Modifier::UNDERLINED));
}

#[test]
fn from_crossterm_attribute_case_07() {
    check_from_crossterm_attribute(CrosstermAttribute::NoUnderline, Modifier::empty());
}

#[test]
fn from_crossterm_attribute_case_08() {
    check_from_crossterm_attribute(CrosstermAttribute::OverLined, Modifier::empty());
}

#[test]
fn from_crossterm_attribute_case_09() {
    check_from_crossterm_attribute(CrosstermAttribute::NotOverLined, Modifier::empty());
}

#[test]
fn from_crossterm_attribute_case_10() {
    check_from_crossterm_attribute(CrosstermAttribute::DoubleUnderlined, modifier(Modifier::UNDERLINED));
}

#[test]
fn from_crossterm_attribute_case_11() {
    check_from_crossterm_attribute(CrosstermAttribute::Undercurled, modifier(Modifier::UNDERLINED));
}

#[test]
fn from_crossterm_attribute_case_12() {
    check_from_crossterm_attribute(CrosstermAttribute::Underdotted, modifier(Modifier::UNDERLINED));
}

#[test]
fn from_crossterm_attribute_case_13() {
    check_from_crossterm_attribute(CrosstermAttribute::Underdashed, modifier(Modifier::UNDERLINED));
}

#[test]
fn from_crossterm_attribute_case_14() {
    check_from_crossterm_attribute(CrosstermAttribute::Dim, modifier(Modifier::DIM));
}

#[test]
fn from_crossterm_attribute_case_15() {
    check_from_crossterm_attribute(CrosstermAttribute::NormalIntensity, Modifier::empty());
}

#[test]
fn from_crossterm_attribute_case_16() {
    check_from_crossterm_attribute(CrosstermAttribute::CrossedOut, modifier(Modifier::CROSSED_OUT));
}

#[test]
fn from_crossterm_attribute_case_17() {
    check_from_crossterm_attribute(CrosstermAttribute::NotCrossedOut, Modifier::empty());
}

#[test]
fn from_crossterm_attribute_case_18() {
    check_from_crossterm_attribute(CrosstermAttribute::NoUnderline, Modifier::empty());
}

#[test]
fn from_crossterm_attribute_case_19() {
    check_from_crossterm_attribute(CrosstermAttribute::SlowBlink, modifier(Modifier::SLOW_BLINK));
}

#[test]
fn from_crossterm_attribute_case_20() {
    check_from_crossterm_attribute(CrosstermAttribute::RapidBlink, modifier(Modifier::RAPID_BLINK));
}

#[test]
fn from_crossterm_attribute_case_21() {
    check_from_crossterm_attribute(CrosstermAttribute::Hidden, modifier(Modifier::HIDDEN));
}

#[test]
fn from_crossterm_attribute_case_22() {
    check_from_crossterm_attribute(CrosstermAttribute::NoHidden, Modifier::empty());
}

#[test]
fn from_crossterm_attribute_case_23() {
    check_from_crossterm_attribute(CrosstermAttribute::Reverse, modifier(Modifier::REVERSED));
}

#[test]
fn from_crossterm_attribute_case_24() {
    check_from_crossterm_attribute(CrosstermAttribute::NoReverse, Modifier::empty());
}

#[test]
fn from_crossterm_attributes_case_01() {
    check_from_crossterm_attributes(&[CrosstermAttribute::Bold], modifier(Modifier::BOLD));
}

#[test]
fn from_crossterm_attributes_case_02() {
    check_from_crossterm_attributes(&[CrosstermAttribute::Bold, CrosstermAttribute::Italic], modifier(Modifier::BOLD | Modifier::ITALIC));
}

#[test]
fn from_crossterm_attributes_case_03() {
    check_from_crossterm_attributes(&[CrosstermAttribute::Bold, CrosstermAttribute::NotCrossedOut], modifier(Modifier::BOLD));
}

#[test]
fn from_crossterm_attributes_case_04() {
    check_from_crossterm_attributes(&[CrosstermAttribute::Dim, CrosstermAttribute::Underdotted], modifier(Modifier::DIM | Modifier::UNDERLINED));
}

#[test]
fn from_crossterm_attributes_case_05() {
    check_from_crossterm_attributes(&[CrosstermAttribute::Dim, CrosstermAttribute::SlowBlink, CrosstermAttribute::Italic], modifier(Modifier::DIM | Modifier::SLOW_BLINK | Modifier::ITALIC));
}

#[test]
fn from_crossterm_attributes_case_06() {
    check_from_crossterm_attributes(&[CrosstermAttribute::Hidden, CrosstermAttribute::NoUnderline, CrosstermAttribute::NotCrossedOut], modifier(Modifier::HIDDEN));
}

#[test]
fn from_crossterm_attributes_case_07() {
    check_from_crossterm_attributes(&[CrosstermAttribute::Reverse], modifier(Modifier::REVERSED));
}

#[test]
fn from_crossterm_attributes_case_08() {
    check_from_crossterm_attributes(&[CrosstermAttribute::Reset], Modifier::empty());
}

#[test]
fn from_crossterm_attributes_case_09() {
    check_from_crossterm_attributes(&[CrosstermAttribute::RapidBlink, CrosstermAttribute::CrossedOut], modifier(Modifier::RAPID_BLINK | Modifier::CROSSED_OUT));
}

#[test]
fn from_crossterm_content_style_case_01() {
    check_from_crossterm_content_style(
        ContentStyle::default(),
        Style::default(),
    );
}

#[test]
fn from_crossterm_content_style_case_02() {
    check_from_crossterm_content_style(
        ContentStyle { foreground_color: Some(CrosstermColor::DarkYellow), ..Default::default() },
        Style::default().fg(Color::Yellow),
    );
}

#[test]
fn from_crossterm_content_style_case_03() {
    check_from_crossterm_content_style(
        ContentStyle { background_color: Some(CrosstermColor::DarkYellow), ..Default::default() },
        Style::default().bg(Color::Yellow),
    );
}

#[test]
fn from_crossterm_content_style_case_04() {
    check_from_crossterm_content_style(
        with_attribute(CrosstermAttribute::Bold),
        Style::default().add_modifier(modifier(Modifier::BOLD)),
    );
}

#[test]
fn from_crossterm_content_style_case_05() {
    check_from_crossterm_content_style(
        with_attribute(CrosstermAttribute::NoBold),
        Style::default().remove_modifier(modifier(Modifier::BOLD)),
    );
}

#[test]
fn from_crossterm_content_style_case_06() {
    check_from_crossterm_content_style(
        with_attribute(CrosstermAttribute::Italic),
        Style::default().add_modifier(modifier(Modifier::ITALIC)),
    );
}

#[test]
fn from_crossterm_content_style_case_07() {
    check_from_crossterm_content_style(
        with_attribute(CrosstermAttribute::NoItalic),
        Style::default().remove_modifier(modifier(Modifier::ITALIC)),
    );
}

#[test]
fn from_crossterm_content_style_case_08() {
    check_from_crossterm_content_style(
        with_attributes(&[CrosstermAttribute::Bold, CrosstermAttribute::Italic]),
        Style::default()
            .add_modifier(modifier(Modifier::BOLD))
            .add_modifier(modifier(Modifier::ITALIC)),
    );
}

#[test]
fn from_crossterm_content_style_case_09() {
    check_from_crossterm_content_style(
        with_attributes(&[CrosstermAttribute::NoBold, CrosstermAttribute::NoItalic]),
        Style::default()
            .remove_modifier(modifier(Modifier::BOLD))
            .remove_modifier(modifier(Modifier::ITALIC)),
    );
}

#[test]
fn from_crossterm_content_style_underline() {
    let content_style = ContentStyle {
        underline_color: Some(CrosstermColor::DarkRed),
        ..Default::default()
    };
    assert_eq!(
        Style::from_crossterm(content_style),
        Style::default().underline_color(Color::Red)
    );
}

#[test]
fn into_crossterm_content_style_case_01() {
    check_into_crossterm_content_style(
        Style::default(),
        ContentStyle::default(),
    );
}

#[test]
fn into_crossterm_content_style_case_02() {
    check_into_crossterm_content_style(
        Style::default().fg(Color::Yellow),
        ContentStyle { foreground_color: Some(CrosstermColor::DarkYellow), ..Default::default() },
    );
}

#[test]
fn into_crossterm_content_style_case_03() {
    check_into_crossterm_content_style(
        Style::default().bg(Color::Yellow),
        ContentStyle { background_color: Some(CrosstermColor::DarkYellow), ..Default::default() },
    );
}

#[test]
fn into_crossterm_content_style_case_04() {
    check_into_crossterm_content_style(
        Style::default().add_modifier(modifier(Modifier::BOLD)),
        with_attribute(CrosstermAttribute::Bold),
    );
}

#[test]
fn into_crossterm_content_style_case_05() {
    check_into_crossterm_content_style(
        Style::default().remove_modifier(modifier(Modifier::BOLD)),
        with_attribute(CrosstermAttribute::NoBold),
    );
}

#[test]
fn into_crossterm_content_style_case_06() {
    check_into_crossterm_content_style(
        Style::default().add_modifier(modifier(Modifier::ITALIC)),
        with_attribute(CrosstermAttribute::Italic),
    );
}

#[test]
fn into_crossterm_content_style_case_07() {
    check_into_crossterm_content_style(
        Style::default().remove_modifier(modifier(Modifier::ITALIC)),
        with_attribute(CrosstermAttribute::NoItalic),
    );
}

#[test]
fn into_crossterm_content_style_case_08() {
    check_into_crossterm_content_style(
        Style::default().add_modifier(modifier(Modifier::UNDERLINED)),
        with_attribute(CrosstermAttribute::Underlined),
    );
}

#[test]
fn into_crossterm_content_style_case_09() {
    check_into_crossterm_content_style(
        Style::default().remove_modifier(modifier(Modifier::UNDERLINED)),
        with_attribute(CrosstermAttribute::NoUnderline),
    );
}

#[test]
fn into_crossterm_content_style_case_10() {
    check_into_crossterm_content_style(
        Style::default().add_modifier(modifier(Modifier::DIM)),
        with_attribute(CrosstermAttribute::Dim),
    );
}

#[test]
fn into_crossterm_content_style_case_11() {
    check_into_crossterm_content_style(
        Style::default().remove_modifier(modifier(Modifier::DIM)),
        with_attribute(CrosstermAttribute::NormalIntensity),
    );
}

#[test]
fn into_crossterm_content_style_case_12() {
    check_into_crossterm_content_style(
        Style::default().add_modifier(modifier(Modifier::SLOW_BLINK)),
        with_attribute(CrosstermAttribute::SlowBlink),
    );
}

#[test]
fn into_crossterm_content_style_case_13() {
    check_into_crossterm_content_style(
        Style::default().add_modifier(modifier(Modifier::RAPID_BLINK)),
        with_attribute(CrosstermAttribute::RapidBlink),
    );
}

#[test]
fn into_crossterm_content_style_case_14() {
    check_into_crossterm_content_style(
        Style::default().remove_modifier(modifier(Modifier::SLOW_BLINK)),
        with_attribute(CrosstermAttribute::NoBlink),
    );
}

#[test]
fn into_crossterm_content_style_case_15() {
    check_into_crossterm_content_style(
        Style::default().add_modifier(modifier(Modifier::REVERSED)),
        with_attribute(CrosstermAttribute::Reverse),
    );
}

#[test]
fn into_crossterm_content_style_case_16() {
    check_into_crossterm_content_style(
        Style::default().remove_modifier(modifier(Modifier::REVERSED)),
        with_attribute(CrosstermAttribute::NoReverse),
    );
}

#[test]
fn into_crossterm_content_style_case_17() {
    check_into_crossterm_content_style(
        Style::default().add_modifier(modifier(Modifier::HIDDEN)),
        with_attribute(CrosstermAttribute::Hidden),
    );
}

#[test]
fn into_crossterm_content_style_case_18() {
    check_into_crossterm_content_style(
        Style::default().remove_modifier(modifier(Modifier::HIDDEN)),
        with_attribute(CrosstermAttribute::NoHidden),
    );
}

#[test]
fn into_crossterm_content_style_case_19() {
    check_into_crossterm_content_style(
        Style::default().add_modifier(modifier(Modifier::CROSSED_OUT)),
        with_attribute(CrosstermAttribute::CrossedOut),
    );
}

#[test]
fn into_crossterm_content_style_case_20() {
    check_into_crossterm_content_style(
        Style::default().remove_modifier(modifier(Modifier::CROSSED_OUT)),
        with_attribute(CrosstermAttribute::NotCrossedOut),
    );
}

#[test]
fn into_crossterm_content_style_case_21() {
    check_into_crossterm_content_style(
        Style::default()
            .add_modifier(modifier(Modifier::BOLD))
            .add_modifier(modifier(Modifier::ITALIC)),
        with_attributes(&[CrosstermAttribute::Bold, CrosstermAttribute::Italic]),
    );
}

#[test]
fn into_crossterm_content_style_case_22() {
    check_into_crossterm_content_style(
        Style::default()
            .remove_modifier(modifier(Modifier::BOLD))
            .remove_modifier(modifier(Modifier::ITALIC)),
        with_attributes(&[CrosstermAttribute::NoBold, CrosstermAttribute::NoItalic]),
    );
}

#[test]
fn into_crossterm_content_style_underline() {
    let style = Style::default().underline_color(Color::Red);
    let content_style = ContentStyle {
        underline_color: Some(CrosstermColor::DarkRed),
        ..Default::default()
    };
    assert_eq!(style.into_crossterm(), content_style);
}

#[test]
fn attribute_bits_match_crossterm() {
    for a in ALL_ATTRIBUTES {
        assert_eq!(a.bytes(), real_attribute(a).bytes());
    }
}

#[test]
fn attribute_sets_match_crossterm() {
    let chosen = [
        CrosstermAttribute::Bold,
        CrosstermAttribute::Undercurled,
        CrosstermAttribute::NoBlink,
        CrosstermAttribute::NotOverLined,
    ];
    let mine = CrosstermAttributes::from_slice(&chosen);
    let real_chosen: Vec<crossterm::style::Attribute> = chosen.iter().map(|a| real_attribute(*a)).collect();
    let real = crossterm::style::Attributes::from(real_chosen.as_slice());
    for a in ALL_ATTRIBUTES {
        assert_eq!(mine.has(a), real.has(real_attribute(a)));
    }
}

#[test]
fn color_roundtrip_through_crossterm() {
    let colors = [
        Color::Reset,
        Color::Black,
        Color::Red,
        Color::Green,
        Color::Yellow,
        Color::Blue,
        Color::Magenta,
        Color::Cyan,
        Color::Gray,
        Color::DarkGray,
        Color::LightRed,
        Color::LightGreen,
        Color::LightYellow,
        Color::LightBlue,
        Color::LightMagenta,
        Color::LightCyan,
        Color::White,
        Color::Rgb(1, 2, 3),
        Color::Indexed(200),
    ];
    for c in colors {
        let back: Color = Color::from_crossterm(c.into_crossterm());
        assert_eq!(back, c);
    }
}

#[test]
fn style_roundtrip_through_crossterm() {
    let style = Style::default()
        .fg(Color::LightBlue)
        .bg(Color::Rgb(9, 8, 7))
        .underline_color(Color::Indexed(5))
        .add_modifier(modifier(Modifier::BOLD | Modifier::UNDERLINED | Modifier::RAPID_BLINK))
        .remove_modifier(modifier(Modifier::ITALIC | Modifier::SLOW_BLINK | Modifier::RAPID_BLINK));
    assert_eq!(Style::from_crossterm(style.into_crossterm()), style);
}

#[test]
fn style_roundtrip_loses_removed_dim() {
    let style = Style::default().remove_modifier(modifier(Modifier::DIM));
    assert_eq!(Style::from_crossterm(style.into_crossterm()), Style::default());
}

#[test]
fn removing_both_intensities_keeps_neither() {
    let mut actual = Vec::new();
    ModifierDiff { from: modifier(Modifier::BOLD | Modifier::DIM), to: Modifier::empty() }
        .queue(&mut actual);
    assert_eq!(actual, b"\x1b[22m".to_vec());
}

#[test]
fn kept_rapid_blink_is_switched_on_again() {
    // The code that stops blinking stops both blinks, so the one that stays is sent again.
    let mut actual = Vec::new();
    ModifierDiff {
        from: modifier(Modifier::SLOW_BLINK | Modifier::RAPID_BLINK),
        to: modifier(Modifier::RAPID_BLINK),
    }
    .queue(&mut actual);
    assert_eq!(actual, b"\x1b[25m\x1b[6m".to_vec());
}

#[test]
fn kept_slow_blink_is_switched_on_again() {
    let mut actual = Vec::new();
    ModifierDiff {
        from: modifier(Modifier::SLOW_BLINK | Modifier::RAPID_BLINK | Modifier::ITALIC),
        to: modifier(Modifier::SLOW_BLINK | Modifier::REVERSED),
    }
    .queue(&mut actual);
    assert_eq!(actual, b"\x1b[23m\x1b[25m\x1b[5m\x1b[7m".to_vec());
}

#[test]
fn attribute_set_converts_as_union_of_each() {
    let lists: [&[CrosstermAttribute]; 5] = [
        &[],
        &[CrosstermAttribute::Bold, CrosstermAttribute::Undercurled],
        &[CrosstermAttribute::Underdashed, CrosstermAttribute::Underlined, CrosstermAttribute::NoBold],
        &[CrosstermAttribute::Reset, CrosstermAttribute::Fraktur, CrosstermAttribute::Hidden],
        &ALL_ATTRIBUTES,
    ];
    for attrs in lists {
        let whole = Modifier::from_crossterm(CrosstermAttributes::from_slice(attrs));
        let mut each = Modifier::empty();
        for a in attrs {
            each = each.union(Modifier::from_crossterm(*a));
        }
        assert_eq!(whole, each);
    }
}

#[test]
fn unchanged_modifiers_send_nothing() {
    for bits in [0u16, 1, 0x1ff, 0x30, 0x1234] {
        let diff = ModifierDiff {
            from: modifier(bits),
            to: modifier(bits),
        };
        assert!(diff.codes().is_empty());
        let mut out = Vec::new();
        diff.queue(&mut out);
        assert!(out.is_empty());
    }
}

#[test]
fn modifier_diff_codes_in_order() {
    let diff = ModifierDiff {
        from: modifier(Modifier::REVERSED | Modifier::BOLD | Modifier::SLOW_BLINK),
        to: modifier(Modifier::DIM | Modifier::ITALIC | Modifier::RAPID_BLINK),
    };
    assert_eq!(diff.codes(), vec![27, 22, 2, 25, 3, 6]);
}

#[test]
fn no_code_is_sent_twice() {
    let samples = [0u16, 0x1ff, 0x03, 0x30, 0x31, 0x12, 0x41, 0x1c0, 0x2a, 0x155];
    for from in samples {
        for to in samples {
            let codes = ModifierDiff {
                from: modifier(from),
                to: modifier(to),
            }
            .codes();
            let mut sorted = codes.clone();
            sorted.sort();
            sorted.dedup();
            assert_eq!(sorted.len(), codes.len(), "{from:#x} -> {to:#x}: {codes:?}");
        }
    }
}
