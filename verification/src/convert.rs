//! Conversions between Ratatui's styling vocabulary and Crossterm's.
use vstd::prelude::*;

use crate::crossterm_types::{
    ContentStyle, CrosstermAttribute, CrosstermAttributes, CrosstermColor,
};
use crate::style::{Color, Modifier, Style};

verus! {

/// Converts a Ratatui value into the Crossterm value that stands for it.
pub trait IntoCrossterm<C> {
    /// Converts the Ratatui value into a Crossterm value.
    fn into_crossterm(self) -> C;
}

/// Converts a Crossterm value into the Ratatui value that stands for it.
pub trait FromCrossterm<C>: Sized {
    /// Converts the Crossterm value into a Ratatui value.
    fn from_crossterm(value: C) -> Self;
}

/// The Crossterm color that Ratatui's color stands for. Ratatui's plain colors are
/// Crossterm's dark ones and Ratatui's light colors are Crossterm's plain ones.
pub open spec fn color_to_crossterm(c: Color) -> CrosstermColor {
    match c {
        Color::Reset => CrosstermColor::Reset,
        Color::Black => CrosstermColor::Black,
        Color::Red => CrosstermColor::DarkRed,
        Color::Green => CrosstermColor::DarkGreen,
        Color::Yellow => CrosstermColor::DarkYellow,
        Color::Blue => CrosstermColor::DarkBlue,
        Color::Magenta => CrosstermColor::DarkMagenta,
        Color::Cyan => CrosstermColor::DarkCyan,
        Color::Gray => CrosstermColor::Grey,
        Color::DarkGray => CrosstermColor::DarkGrey,
        Color::LightRed => CrosstermColor::Red,
        Color::LightGreen => CrosstermColor::Green,
        Color::LightBlue => CrosstermColor::Blue,
        Color::LightYellow => CrosstermColor::Yellow,
        Color::LightMagenta => CrosstermColor::Magenta,
        Color::LightCyan => CrosstermColor::Cyan,
        Color::White => CrosstermColor::White,
        Color::Indexed(i) => CrosstermColor::AnsiValue(i),
        Color::Rgb(r, g, b) => CrosstermColor::Rgb { r, g, b },
    }
}

/// The Ratatui color that Crossterm's color stands for.
pub open spec fn color_from_crossterm(c: CrosstermColor) -> Color {
    match c {
        CrosstermColor::Reset => Color::Reset,
        CrosstermColor::Black => Color::Black,
        CrosstermColor::DarkRed => Color::Red,
        CrosstermColor::DarkGreen => Color::Green,
        CrosstermColor::DarkYellow => Color::Yellow,
        CrosstermColor::DarkBlue => Color::Blue,
        CrosstermColor::DarkMagenta => Color::Magenta,
        CrosstermColor::DarkCyan => Color::Cyan,
        CrosstermColor::Grey => Color::Gray,
        CrosstermColor::DarkGrey => Color::DarkGray,
        CrosstermColor::Red => Color::LightRed,
        CrosstermColor::Green => Color::LightGreen,
        CrosstermColor::Blue => Color::LightBlue,
        CrosstermColor::Yellow => Color::LightYellow,
        CrosstermColor::Magenta => Color::LightMagenta,
        CrosstermColor::Cyan => Color::LightCyan,
        CrosstermColor::White => Color::White,
        CrosstermColor::Rgb { r, g, b } => Color::Rgb(r, g, b),
        CrosstermColor::AnsiValue(v) => Color::Indexed(v),
    }
}

/// `color_to_crossterm` applied to an optional color.
pub open spec fn option_to_crossterm(c: Option<Color>) -> Option<CrosstermColor> {
    match c {
        Some(c) => Some(color_to_crossterm(c)),
        None => None,
    }
}

/// `color_from_crossterm` applied to an optional color.
pub open spec fn option_from_crossterm(c: Option<CrosstermColor>) -> Option<Color> {
    match c {
        Some(c) => Some(color_from_crossterm(c)),
        None => None,
    }
}

/// Whether `cs` is the Crossterm form of the style `s`.
pub open spec fn is_content_style_of(s: Style, cs: ContentStyle) -> bool {
    &&& cs.foreground_color == option_to_crossterm(s.fg)
    &&& cs.background_color == option_to_crossterm(s.bg)
    &&& cs.underline_color == option_to_crossterm(s.underline_color)
    &&& cs.attributes.bits == style_attribute_bits(s)
}

/// The modifiers that a set of attributes turns on. Every kind of underline stands for
/// Ratatui's one underline.
pub open spec fn modifier_of_attributes(a: CrosstermAttributes) -> Modifier {
    Modifier::with_flags(
        a.spec_has(CrosstermAttribute::Bold),
        a.spec_has(CrosstermAttribute::Dim),
        a.spec_has(CrosstermAttribute::Italic),
        a.spec_has(CrosstermAttribute::Underlined) || a.spec_has(
            CrosstermAttribute::DoubleUnderlined,
        ) || a.spec_has(CrosstermAttribute::Undercurled) || a.spec_has(
            CrosstermAttribute::Underdotted,
        ) || a.spec_has(CrosstermAttribute::Underdashed),
        a.spec_has(CrosstermAttribute::SlowBlink),
        a.spec_has(CrosstermAttribute::RapidBlink),
        a.spec_has(CrosstermAttribute::Reverse),
        a.spec_has(CrosstermAttribute::Hidden),
        a.spec_has(CrosstermAttribute::CrossedOut),
    )
}

/// The modifiers that a set of attributes turns off. `NoBlink` turns off both blinks;
/// nothing turns off dim alone.
pub open spec fn sub_modifier_of_attributes(a: CrosstermAttributes) -> Modifier {
    Modifier::with_flags(
        a.spec_has(CrosstermAttribute::NoBold),
        false,
        a.spec_has(CrosstermAttribute::NoItalic),
        a.spec_has(CrosstermAttribute::NoUnderline),
        a.spec_has(CrosstermAttribute::NoBlink),
        a.spec_has(CrosstermAttribute::NoBlink),
        a.spec_has(CrosstermAttribute::NoReverse),
        a.spec_has(CrosstermAttribute::NoHidden),
        a.spec_has(CrosstermAttribute::NotCrossedOut),
    )
}

/// The Ratatui form of a Crossterm style.
pub open spec fn style_of_content_style(cs: ContentStyle) -> Style {
    Style {
        fg: option_from_crossterm(cs.foreground_color),
        bg: option_from_crossterm(cs.background_color),
        underline_color: option_from_crossterm(cs.underline_color),
        add_modifier: modifier_of_attributes(cs.attributes),
        sub_modifier: sub_modifier_of_attributes(cs.attributes),
    }
}

fn option_color_into_crossterm(c: Option<Color>) -> (r: Option<CrosstermColor>)
    ensures
        r == option_to_crossterm(c),
{
    match c {
        Some(c) => Some(c.into_crossterm()),
        None => None,
    }
}

fn option_color_from_crossterm(c: Option<CrosstermColor>) -> (r: Option<Color>)
    ensures
        r == option_from_crossterm(c),
{
    match c {
        Some(c) => Some(Color::from_crossterm(c)),
        None => None,
    }
}

impl IntoCrossterm<CrosstermColor> for Color {
    fn into_crossterm(self) -> (c: CrosstermColor)
        ensures
            c == color_to_crossterm(self),
    {
        match self {
            Color::Reset => CrosstermColor::Reset,
            Color::Black => CrosstermColor::Black,
            Color::Red => CrosstermColor::DarkRed,
            Color::Green => CrosstermColor::DarkGreen,
            Color::Yellow => CrosstermColor::DarkYellow,
            Color::Blue => CrosstermColor::DarkBlue,
            Color::Magenta => CrosstermColor::DarkMagenta,
            Color::Cyan => CrosstermColor::DarkCyan,
            Color::Gray => CrosstermColor::Grey,
            Color::DarkGray => CrosstermColor::DarkGrey,
            Color::LightRed => CrosstermColor::Red,
            Color::LightGreen => CrosstermColor::Green,
            Color::LightBlue => CrosstermColor::Blue,
            Color::LightYellow => CrosstermColor::Yellow,
            Color::LightMagenta => CrosstermColor::Magenta,
            Color::LightCyan => CrosstermColor::Cyan,
            Color::White => CrosstermColor::White,
            Color::Indexed(i) => CrosstermColor::AnsiValue(i),
            Color::Rgb(r, g, b) => CrosstermColor::Rgb { r, g, b },
        }
    }
}

impl FromCrossterm<CrosstermColor> for Color {
    fn from_crossterm(value: CrosstermColor) -> (c: Color)
        ensures
            c == color_from_crossterm(value),
    {
        match value {
            CrosstermColor::Reset => Color::Reset,
            CrosstermColor::Black => Color::Black,
            CrosstermColor::DarkRed => Color::Red,
            CrosstermColor::DarkGreen => Color::Green,
            CrosstermColor::DarkYellow => Color::Yellow,
            CrosstermColor::DarkBlue => Color::Blue,
            CrosstermColor::DarkMagenta => Color::Magenta,
            CrosstermColor::DarkCyan => Color::Cyan,
            CrosstermColor::Grey => Color::Gray,
            CrosstermColor::DarkGrey => Color::DarkGray,
            CrosstermColor::Red => Color::LightRed,
            CrosstermColor::Green => Color::LightGreen,
            CrosstermColor::Blue => Color::LightBlue,
            CrosstermColor::Yellow => Color::LightYellow,
            CrosstermColor::Magenta => Color::LightMagenta,
            CrosstermColor::Cyan => Color::LightCyan,
            CrosstermColor::White => Color::White,
            CrosstermColor::Rgb { r, g, b } => Color::Rgb(r, g, b),
            CrosstermColor::AnsiValue(v) => Color::Indexed(v),
        }
    }
}

/// `bit` when `b` holds, else no bit.
pub open spec fn bit_if(b: bool, bit: u32) -> u32 {
    if b {
        bit
    } else {
        0
    }
}

/// The attribute bits of the Crossterm form of a style: the modifiers the style adds become
/// the attributes that set them, and those it removes become the attributes that unset them.
/// Both blinks are unset by the one `NoBlink`.
pub open spec fn style_attribute_bits(s: Style) -> u32 {
    let add = s.add_modifier;
    let sub = s.sub_modifier;
    0u32 | bit_if(add.has(Modifier::BOLD), CrosstermAttribute::Bold.spec_bytes()) | bit_if(
        add.has(Modifier::DIM),
        CrosstermAttribute::Dim.spec_bytes(),
    ) | bit_if(add.has(Modifier::ITALIC), CrosstermAttribute::Italic.spec_bytes()) | bit_if(
        add.has(Modifier::UNDERLINED),
        CrosstermAttribute::Underlined.spec_bytes(),
    ) | bit_if(add.has(Modifier::SLOW_BLINK), CrosstermAttribute::SlowBlink.spec_bytes()) | bit_if(
        add.has(Modifier::RAPID_BLINK),
        CrosstermAttribute::RapidBlink.spec_bytes(),
    ) | bit_if(add.has(Modifier::REVERSED), CrosstermAttribute::Reverse.spec_bytes()) | bit_if(
        add.has(Modifier::HIDDEN),
        CrosstermAttribute::Hidden.spec_bytes(),
    ) | bit_if(add.has(Modifier::CROSSED_OUT), CrosstermAttribute::CrossedOut.spec_bytes())
        | bit_if(sub.has(Modifier::BOLD), CrosstermAttribute::NoBold.spec_bytes()) | bit_if(
        sub.has(Modifier::DIM),
        CrosstermAttribute::NormalIntensity.spec_bytes(),
    ) | bit_if(sub.has(Modifier::ITALIC), CrosstermAttribute::NoItalic.spec_bytes()) | bit_if(
        sub.has(Modifier::UNDERLINED),
        CrosstermAttribute::NoUnderline.spec_bytes(),
    ) | bit_if(
        sub.has(Modifier::SLOW_BLINK) || sub.has(Modifier::RAPID_BLINK),
        CrosstermAttribute::NoBlink.spec_bytes(),
    ) | bit_if(sub.has(Modifier::REVERSED), CrosstermAttribute::NoReverse.spec_bytes()) | bit_if(
        sub.has(Modifier::HIDDEN),
        CrosstermAttribute::NoHidden.spec_bytes(),
    ) | bit_if(sub.has(Modifier::CROSSED_OUT), CrosstermAttribute::NotCrossedOut.spec_bytes())
}

/// Adds the attribute to the set when `cond` holds.
fn set_when(attributes: &mut CrosstermAttributes, cond: bool, a: CrosstermAttribute)
    ensures
        final(attributes).bits == old(attributes).bits | bit_if(cond, a.spec_bytes()),
{
    if cond {
        attributes.set(a);
    } else {
        let b = attributes.bits;
        assert(b | 0u32 == b) by (bit_vector);
    }
}

impl IntoCrossterm<ContentStyle> for Style {
    fn into_crossterm(self) -> (cs: ContentStyle)
        ensures
            is_content_style_of(self, cs),
    {
        let add = self.add_modifier;
        let sub = self.sub_modifier;
        let mut attributes = CrosstermAttributes::none();

        // The modifiers to add.
        set_when(
            &mut attributes,
            add.contains(Modifier { bits: Modifier::BOLD }),
            CrosstermAttribute::Bold,
        );
        set_when(
            &mut attributes,
            add.contains(Modifier { bits: Modifier::DIM }),
            CrosstermAttribute::Dim,
        );
        set_when(
            &mut attributes,
            add.contains(Modifier { bits: Modifier::ITALIC }),
            CrosstermAttribute::Italic,
        );
        set_when(
            &mut attributes,
            add.contains(Modifier { bits: Modifier::UNDERLINED }),
            CrosstermAttribute::Underlined,
        );
        set_when(
            &mut attributes,
            add.contains(Modifier { bits: Modifier::SLOW_BLINK }),
            CrosstermAttribute::SlowBlink,
        );
        set_when(
            &mut attributes,
            add.contains(Modifier { bits: Modifier::RAPID_BLINK }),
            CrosstermAttribute::RapidBlink,
        );
        set_when(
            &mut attributes,
            add.contains(Modifier { bits: Modifier::REVERSED }),
            CrosstermAttribute::Reverse,
        );
        set_when(
            &mut attributes,
            add.contains(Modifier { bits: Modifier::HIDDEN }),
            CrosstermAttribute::Hidden,
        );
        set_when(
            &mut attributes,
            add.contains(Modifier { bits: Modifier::CROSSED_OUT }),
            CrosstermAttribute::CrossedOut,
        );

        // The modifiers to remove.
        set_when(
            &mut attributes,
            sub.contains(Modifier { bits: Modifier::BOLD }),
            CrosstermAttribute::NoBold,
        );
        set_when(
            &mut attributes,
            sub.contains(Modifier { bits: Modifier::DIM }),
            CrosstermAttribute::NormalIntensity,
        );
        set_when(
            &mut attributes,
            sub.contains(Modifier { bits: Modifier::ITALIC }),
            CrosstermAttribute::NoItalic,
        );
        set_when(
            &mut attributes,
            sub.contains(Modifier { bits: Modifier::UNDERLINED }),
            CrosstermAttribute::NoUnderline,
        );
        set_when(
            &mut attributes,
            sub.contains(Modifier { bits: Modifier::SLOW_BLINK }) || sub.contains(
                Modifier { bits: Modifier::RAPID_BLINK },
            ),
            CrosstermAttribute::NoBlink,
        );
        set_when(
            &mut attributes,
            sub.contains(Modifier { bits: Modifier::REVERSED }),
            CrosstermAttribute::NoReverse,
        );
        set_when(
            &mut attributes,
            sub.contains(Modifier { bits: Modifier::HIDDEN }),
            CrosstermAttribute::NoHidden,
        );
        set_when(
            &mut attributes,
            sub.contains(Modifier { bits: Modifier::CROSSED_OUT }),
            CrosstermAttribute::NotCrossedOut,
        );
        ContentStyle {
            foreground_color: option_color_into_crossterm(self.fg),
            background_color: option_color_into_crossterm(self.bg),
            underline_color: option_color_into_crossterm(self.underline_color),
            attributes,
        }
    }
}

impl FromCrossterm<CrosstermAttributes> for Modifier {
    fn from_crossterm(value: CrosstermAttributes) -> (m: Modifier)
        ensures
            m == modifier_of_attributes(value),
    {
        let mut bits: u16 = 0;
        bits = bits | if value.has(CrosstermAttribute::Bold) {
            Modifier::BOLD
        } else {
            0
        };
        bits = bits | if value.has(CrosstermAttribute::Dim) {
            Modifier::DIM
        } else {
            0
        };
        bits = bits | if value.has(CrosstermAttribute::Italic) {
            Modifier::ITALIC
        } else {
            0
        };
        bits = bits | if value.has(CrosstermAttribute::Underlined) || value.has(
            CrosstermAttribute::DoubleUnderlined,
        ) || value.has(CrosstermAttribute::Undercurled) || value.has(
            CrosstermAttribute::Underdotted,
        ) || value.has(CrosstermAttribute::Underdashed) {
            Modifier::UNDERLINED
        } else {
            0
        };
        bits = bits | if value.has(CrosstermAttribute::SlowBlink) {
            Modifier::SLOW_BLINK
        } else {
            0
        };
        bits = bits | if value.has(CrosstermAttribute::RapidBlink) {
            Modifier::RAPID_BLINK
        } else {
            0
        };
        bits = bits | if value.has(CrosstermAttribute::Reverse) {
            Modifier::REVERSED
        } else {
            0
        };
        bits = bits | if value.has(CrosstermAttribute::Hidden) {
            Modifier::HIDDEN
        } else {
            0
        };
        bits = bits | if value.has(CrosstermAttribute::CrossedOut) {
            Modifier::CROSSED_OUT
        } else {
            0
        };
        Modifier { bits }
    }
}

impl FromCrossterm<CrosstermAttribute> for Modifier {
    fn from_crossterm(value: CrosstermAttribute) -> (m: Modifier)
        ensures
            m == modifier_of_attributes(CrosstermAttributes { bits: value.spec_bytes() }),
    {
        // A single attribute converts as the set that holds only it.
        Modifier::from_crossterm(CrosstermAttributes::from_attribute(value))
    }
}

/// Whatever order the flag bits of the removed modifiers are gathered in, they form the same
/// modifier.
proof fn lemma_sub_modifier_bits(
    no_bold: bool,
    no_italic: bool,
    not_crossed_out: bool,
    no_underline: bool,
    no_hidden: bool,
    no_blink: bool,
    no_reverse: bool,
)
    ensures
        0u16 | flag_bits(no_bold, 1) | flag_bits(no_italic, 4) | flag_bits(not_crossed_out, 256)
            | flag_bits(no_underline, 8) | flag_bits(no_hidden, 128) | flag_bits(no_blink, 48)
            | flag_bits(no_reverse, 64) == Modifier::with_flags(
            no_bold,
            false,
            no_italic,
            no_underline,
            no_blink,
            no_blink,
            no_reverse,
            no_hidden,
            not_crossed_out,
        ).bits,
{
    assert(0u16 | (if no_bold { 1u16 } else { 0u16 }) | (if no_italic { 4u16 } else { 0u16 }) | (
    if not_crossed_out {
        256u16
    } else {
        0u16
    }) | (if no_underline { 8u16 } else { 0u16 }) | (if no_hidden { 128u16 } else { 0u16 }) | (
    if no_blink {
        48u16
    } else {
        0u16
    }) | (if no_reverse { 64u16 } else { 0u16 }) == 0u16 | (if no_bold { 1u16 } else { 0u16 })
        | 0u16 | (if no_italic { 4u16 } else { 0u16 }) | (if no_underline { 8u16 } else { 0u16 })
        | (if no_blink { 16u16 } else { 0u16 }) | (if no_blink { 32u16 } else { 0u16 }) | (
    if no_reverse {
        64u16
    } else {
        0u16
    }) | (if no_hidden { 128u16 } else { 0u16 }) | (if not_crossed_out { 256u16 } else { 0u16 }))
        by (bit_vector);
}

/// `flag_if` under the name used while gathering removed modifiers.
pub open spec fn flag_bits(b: bool, flag: u16) -> u16 {
    crate::style::flag_if(b, flag)
}

impl FromCrossterm<ContentStyle> for Style {
    fn from_crossterm(value: ContentStyle) -> (s: Style)
        ensures
            s == style_of_content_style(value),
    {
        let a = value.attributes;
        let mut sub: u16 = 0;
        sub = sub | if a.has(CrosstermAttribute::NoBold) {
            Modifier::BOLD
        } else {
            0
        };
        sub = sub | if a.has(CrosstermAttribute::NoItalic) {
            Modifier::ITALIC
        } else {
            0
        };
        sub = sub | if a.has(CrosstermAttribute::NotCrossedOut) {
            Modifier::CROSSED_OUT
        } else {
            0
        };
        sub = sub | if a.has(CrosstermAttribute::NoUnderline) {
            Modifier::UNDERLINED
        } else {
            0
        };
        sub = sub | if a.has(CrosstermAttribute::NoHidden) {
            Modifier::HIDDEN
        } else {
            0
        };
        sub = sub | if a.has(CrosstermAttribute::NoBlink) {
            Modifier::RAPID_BLINK | Modifier::SLOW_BLINK
        } else {
            0
        };
        sub = sub | if a.has(CrosstermAttribute::NoReverse) {
            Modifier::REVERSED
        } else {
            0
        };
        proof {
            lemma_sub_modifier_bits(
                a.spec_has(CrosstermAttribute::NoBold),
                a.spec_has(CrosstermAttribute::NoItalic),
                a.spec_has(CrosstermAttribute::NotCrossedOut),
                a.spec_has(CrosstermAttribute::NoUnderline),
                a.spec_has(CrosstermAttribute::NoHidden),
                a.spec_has(CrosstermAttribute::NoBlink),
                a.spec_has(CrosstermAttribute::NoReverse),
            );
            assert(Modifier::RAPID_BLINK | Modifier::SLOW_BLINK == 48u16) by (bit_vector);
        }
        Style {
            fg: option_color_from_crossterm(value.foreground_color),
            bg: option_color_from_crossterm(value.background_color),
            underline_color: option_color_from_crossterm(value.underline_color),
            add_modifier: Modifier::from_crossterm(a),
            sub_modifier: Modifier { bits: sub },
        }
    }
}

} // verus!

verus! {

/// Converting a Ratatui color to Crossterm and back gives the color again.
pub proof fn lemma_color_roundtrip(c: Color)
    ensures
        color_from_crossterm(color_to_crossterm(c)) == c,
{
}

/// Converting a Crossterm color to Ratatui and back gives the color again: the two
/// vocabularies name the same colors.
pub proof fn lemma_crossterm_color_roundtrip(c: CrosstermColor)
    ensures
        color_to_crossterm(color_from_crossterm(c)) == c,
{
}

/// The set of attributes that holds only `a`.
pub open spec fn single_attribute(a: CrosstermAttribute) -> CrosstermAttributes {
    CrosstermAttributes { bits: a.spec_bytes() }
}

/// The union of the modifiers that each attribute of the list turns on by itself.
pub open spec fn union_of_each(attrs: Seq<CrosstermAttribute>) -> Modifier
    decreases attrs.len(),
{
    if attrs.len() == 0 {
        Modifier { bits: 0 }
    } else {
        Modifier {
            bits: union_of_each(attrs.drop_last()).bits | modifier_of_attributes(
                single_attribute(attrs.last()),
            ).bits,
        }
    }
}

/// The modifiers that the attributes of a list turn on, read from which attributes it holds.
spec fn modifier_of_list(s: Seq<CrosstermAttribute>) -> Modifier {
    Modifier::with_flags(
        s.contains(CrosstermAttribute::Bold),
        s.contains(CrosstermAttribute::Dim),
        s.contains(CrosstermAttribute::Italic),
        s.contains(CrosstermAttribute::Underlined) || s.contains(
            CrosstermAttribute::DoubleUnderlined,
        ) || s.contains(CrosstermAttribute::Undercurled) || s.contains(
            CrosstermAttribute::Underdotted,
        ) || s.contains(CrosstermAttribute::Underdashed),
        s.contains(CrosstermAttribute::SlowBlink),
        s.contains(CrosstermAttribute::RapidBlink),
        s.contains(CrosstermAttribute::Reverse),
        s.contains(CrosstermAttribute::Hidden),
        s.contains(CrosstermAttribute::CrossedOut),
    )
}

/// A list with one more attribute holds what the list held and that attribute.
proof fn lemma_contains_push(p: Seq<CrosstermAttribute>, x: CrosstermAttribute, b: CrosstermAttribute)
    ensures
        p.push(x).contains(b) == (p.contains(b) || x == b),
{
    let s = p.push(x);
    if p.contains(b) {
        let k = choose|k: int| 0 <= k < p.len() && p[k] == b;
        assert(s[k] == b);
    }
    if x == b {
        assert(s[p.len() as int] == b);
    }
    if s.contains(b) {
        let k = choose|k: int| 0 <= k < s.len() && s[k] == b;
        if k < p.len() {
            assert(p[k] == b);
        }
    }
}

/// Choosing flags from either of two lists of choices gives the union of the two modifiers.
proof fn lemma_with_flags_or(
    a0: bool, a1: bool, a2: bool, a3: bool, a4: bool, a5: bool, a6: bool, a7: bool, a8: bool,
    b0: bool, b1: bool, b2: bool, b3: bool, b4: bool, b5: bool, b6: bool, b7: bool, b8: bool,
)
    ensures
        Modifier::with_flags(a0, a1, a2, a3, a4, a5, a6, a7, a8).bits | Modifier::with_flags(
            b0, b1, b2, b3, b4, b5, b6, b7, b8,
        ).bits == Modifier::with_flags(
            a0 || b0, a1 || b1, a2 || b2, a3 || b3, a4 || b4, a5 || b5, a6 || b6, a7 || b7,
            a8 || b8,
        ).bits,
{
    let ma = Modifier::with_flags(a0, a1, a2, a3, a4, a5, a6, a7, a8);
    let mb = Modifier::with_flags(b0, b1, b2, b3, b4, b5, b6, b7, b8);
    let mo = Modifier::with_flags(
        a0 || b0, a1 || b1, a2 || b2, a3 || b3, a4 || b4, a5 || b5, a6 || b6, a7 || b7, a8 || b8,
    );
    crate::style::lemma_with_flags(a0, a1, a2, a3, a4, a5, a6, a7, a8);
    crate::style::lemma_with_flags(b0, b1, b2, b3, b4, b5, b6, b7, b8);
    crate::style::lemma_with_flags(
        a0 || b0, a1 || b1, a2 || b2, a3 || b3, a4 || b4, a5 || b5, a6 || b6, a7 || b7, a8 || b8,
    );
    let x = ma.bits;
    let y = mb.bits;
    assert({
        &&& ((x | y) & 1 == 1) == ((x & 1 == 1) || (y & 1 == 1))
        &&& ((x | y) & 2 == 2) == ((x & 2 == 2) || (y & 2 == 2))
        &&& ((x | y) & 4 == 4) == ((x & 4 == 4) || (y & 4 == 4))
        &&& ((x | y) & 8 == 8) == ((x & 8 == 8) || (y & 8 == 8))
        &&& ((x | y) & 16 == 16) == ((x & 16 == 16) || (y & 16 == 16))
        &&& ((x | y) & 32 == 32) == ((x & 32 == 32) || (y & 32 == 32))
        &&& ((x | y) & 64 == 64) == ((x & 64 == 64) || (y & 64 == 64))
        &&& ((x | y) & 128 == 128) == ((x & 128 == 128) || (y & 128 == 128))
        &&& ((x | y) & 256 == 256) == ((x & 256 == 256) || (y & 256 == 256))
        &&& (x & !0x1ffu16 == 0 && y & !0x1ffu16 == 0) ==> (x | y) & !0x1ffu16 == 0
    }) by (bit_vector);
    lemma_modifier_ext(Modifier { bits: x | y }, mo);
}

/// Counting the union of each attribute's modifiers over a list gives the modifiers the list
/// holds.
proof fn lemma_union_of_each_list(attrs: Seq<CrosstermAttribute>)
    ensures
        union_of_each(attrs) == modifier_of_list(attrs),
    decreases attrs.len(),
{
    if attrs.len() == 0 {
        assert(0u16 | 0u16 | 0u16 | 0u16 | 0u16 | 0u16 | 0u16 | 0u16 | 0u16 | 0u16 == 0u16)
            by (bit_vector);
        assert forall|b: CrosstermAttribute| !attrs.contains(b) by {}
    } else {
        let p = attrs.drop_last();
        let x = attrs.last();
        lemma_union_of_each_list(p);
        assert(attrs =~= p.push(x));
        assert forall|b: CrosstermAttribute| #[trigger] attrs.contains(b) == (p.contains(b) || x == b)
            by {
            lemma_contains_push(p, x, b);
        }
        assert forall|b: CrosstermAttribute| #[trigger] single_attribute(x).spec_has(b) == (b == x)
            by {
            crate::crossterm_types::lemma_single_attribute(x, b);
        }
        let one = single_attribute(x);
        lemma_with_flags_or(
            p.contains(CrosstermAttribute::Bold),
            p.contains(CrosstermAttribute::Dim),
            p.contains(CrosstermAttribute::Italic),
            p.contains(CrosstermAttribute::Underlined) || p.contains(
                CrosstermAttribute::DoubleUnderlined,
            ) || p.contains(CrosstermAttribute::Undercurled) || p.contains(
                CrosstermAttribute::Underdotted,
            ) || p.contains(CrosstermAttribute::Underdashed),
            p.contains(CrosstermAttribute::SlowBlink),
            p.contains(CrosstermAttribute::RapidBlink),
            p.contains(CrosstermAttribute::Reverse),
            p.contains(CrosstermAttribute::Hidden),
            p.contains(CrosstermAttribute::CrossedOut),
            one.spec_has(CrosstermAttribute::Bold),
            one.spec_has(CrosstermAttribute::Dim),
            one.spec_has(CrosstermAttribute::Italic),
            one.spec_has(CrosstermAttribute::Underlined) || one.spec_has(
                CrosstermAttribute::DoubleUnderlined,
            ) || one.spec_has(CrosstermAttribute::Undercurled) || one.spec_has(
                CrosstermAttribute::Underdotted,
            ) || one.spec_has(CrosstermAttribute::Underdashed),
            one.spec_has(CrosstermAttribute::SlowBlink),
            one.spec_has(CrosstermAttribute::RapidBlink),
            one.spec_has(CrosstermAttribute::Reverse),
            one.spec_has(CrosstermAttribute::Hidden),
            one.spec_has(CrosstermAttribute::CrossedOut),
        );
    }
}

/// Converting a set of attributes gives the union of the modifiers that each of its
/// attributes gives by itself: for the set that holds exactly the listed attributes, as
/// `CrosstermAttributes::from_slice` builds it.
pub proof fn lemma_modifier_of_union(attrs: Seq<CrosstermAttribute>, a: CrosstermAttributes)
    requires
        forall|b: CrosstermAttribute| #[trigger] a.spec_has(b) == attrs.contains(b),
    ensures
        modifier_of_attributes(a) == union_of_each(attrs),
{
    lemma_union_of_each_list(attrs);
}

/// Two modifiers with the same named flags and no other bits are the same.
pub proof fn lemma_modifier_ext(x: Modifier, y: Modifier)
    requires
        x.has(Modifier::BOLD) == y.has(Modifier::BOLD),
        x.has(Modifier::DIM) == y.has(Modifier::DIM),
        x.has(Modifier::ITALIC) == y.has(Modifier::ITALIC),
        x.has(Modifier::UNDERLINED) == y.has(Modifier::UNDERLINED),
        x.has(Modifier::SLOW_BLINK) == y.has(Modifier::SLOW_BLINK),
        x.has(Modifier::RAPID_BLINK) == y.has(Modifier::RAPID_BLINK),
        x.has(Modifier::REVERSED) == y.has(Modifier::REVERSED),
        x.has(Modifier::HIDDEN) == y.has(Modifier::HIDDEN),
        x.has(Modifier::CROSSED_OUT) == y.has(Modifier::CROSSED_OUT),
        x.bits & !Modifier::ALL == 0,
        y.bits & !Modifier::ALL == 0,
    ensures
        x == y,
{
    let a = x.bits;
    let b = y.bits;
    assert(a == b) by (bit_vector)
        requires
            (a & 1 == 1) == (b & 1 == 1),
            (a & 2 == 2) == (b & 2 == 2),
            (a & 4 == 4) == (b & 4 == 4),
            (a & 8 == 8) == (b & 8 == 8),
            (a & 16 == 16) == (b & 16 == 16),
            (a & 32 == 32) == (b & 32 == 32),
            (a & 64 == 64) == (b & 64 == 64),
            (a & 128 == 128) == (b & 128 == 128),
            (a & 256 == 256) == (b & 256 == 256),
            a & !0x1ffu16 == 0,
            b & !0x1ffu16 == 0,
    ;
}

/// The attributes that the Crossterm form of a style holds, read back one by one.
proof fn lemma_read_style_attributes(s: Style)
    ensures
        ({
            let b = style_attribute_bits(s);
            let add = s.add_modifier;
            let sub = s.sub_modifier;
            &&& (b & 0x4 != 0) == add.has(Modifier::BOLD)
            &&& (b & 0x8 != 0) == add.has(Modifier::DIM)
            &&& (b & 0x10 != 0) == add.has(Modifier::ITALIC)
            &&& (b & 0x20 != 0) == add.has(Modifier::UNDERLINED)
            &&& b & 0x40 == 0
            &&& b & 0x80 == 0
            &&& b & 0x100 == 0
            &&& b & 0x200 == 0
            &&& (b & 0x400 != 0) == add.has(Modifier::SLOW_BLINK)
            &&& (b & 0x800 != 0) == add.has(Modifier::RAPID_BLINK)
            &&& (b & 0x1000 != 0) == add.has(Modifier::REVERSED)
            &&& (b & 0x2000 != 0) == add.has(Modifier::HIDDEN)
            &&& (b & 0x4000 != 0) == add.has(Modifier::CROSSED_OUT)
            &&& (b & 0x10000 != 0) == sub.has(Modifier::BOLD)
            &&& (b & 0x40000 != 0) == sub.has(Modifier::ITALIC)
            &&& (b & 0x80000 != 0) == sub.has(Modifier::UNDERLINED)
            &&& (b & 0x100000 != 0) == (sub.has(Modifier::SLOW_BLINK) || sub.has(Modifier::RAPID_BLINK))
            &&& (b & 0x200000 != 0) == sub.has(Modifier::REVERSED)
            &&& (b & 0x400000 != 0) == sub.has(Modifier::HIDDEN)
            &&& (b & 0x800000 != 0) == sub.has(Modifier::CROSSED_OUT)
        }),
{
    let add = s.add_modifier;
    let sub = s.sub_modifier;
    let c0 = add.has(Modifier::BOLD);
    let c1 = add.has(Modifier::DIM);
    let c2 = add.has(Modifier::ITALIC);
    let c3 = add.has(Modifier::UNDERLINED);
    let c4 = add.has(Modifier::SLOW_BLINK);
    let c5 = add.has(Modifier::RAPID_BLINK);
    let c6 = add.has(Modifier::REVERSED);
    let c7 = add.has(Modifier::HIDDEN);
    let c8 = add.has(Modifier::CROSSED_OUT);
    let c9 = sub.has(Modifier::BOLD);
    let c10 = sub.has(Modifier::DIM);
    let c11 = sub.has(Modifier::ITALIC);
    let c12 = sub.has(Modifier::UNDERLINED);
    let c13 = sub.has(Modifier::SLOW_BLINK) || sub.has(Modifier::RAPID_BLINK);
    let c14 = sub.has(Modifier::REVERSED);
    let c15 = sub.has(Modifier::HIDDEN);
    let c16 = sub.has(Modifier::CROSSED_OUT);
    crate::crossterm_types::lemma_attribute_bits();
    let b = style_attribute_bits(s);
    assert(b == 0u32 | (if c0 { 0x4u32 } else { 0 }) | (if c1 { 0x8u32 } else { 0 }) | (if c2 {
        0x10u32
    } else {
        0
    }) | (if c3 { 0x20u32 } else { 0 }) | (if c4 { 0x400u32 } else { 0 }) | (if c5 {
        0x800u32
    } else {
        0
    }) | (if c6 { 0x1000u32 } else { 0 }) | (if c7 { 0x2000u32 } else { 0 }) | (if c8 {
        0x4000u32
    } else {
        0
    }) | (if c9 { 0x10000u32 } else { 0 }) | (if c10 { 0x20000u32 } else { 0 }) | (if c11 {
        0x40000u32
    } else {
        0
    }) | (if c12 { 0x80000u32 } else { 0 }) | (if c13 { 0x100000u32 } else { 0 }) | (if c14 {
        0x200000u32
    } else {
        0
    }) | (if c15 { 0x400000u32 } else { 0 }) | (if c16 { 0x800000u32 } else { 0 }));
    // Each attribute's bit is read back from the bits built above.
    assert({
        &&& (b & 0x4 != 0) == c0
        &&& (b & 0x8 != 0) == c1
        &&& (b & 0x10 != 0) == c2
        &&& (b & 0x20 != 0) == c3
        &&& b & 0x40 == 0
        &&& b & 0x80 == 0
        &&& b & 0x100 == 0
        &&& b & 0x200 == 0
        &&& (b & 0x400 != 0) == c4
        &&& (b & 0x800 != 0) == c5
        &&& (b & 0x1000 != 0) == c6
        &&& (b & 0x2000 != 0) == c7
        &&& (b & 0x4000 != 0) == c8
        &&& (b & 0x10000 != 0) == c9
        &&& (b & 0x40000 != 0) == c11
        &&& (b & 0x80000 != 0) == c12
        &&& (b & 0x100000 != 0) == c13
        &&& (b & 0x200000 != 0) == c14
        &&& (b & 0x400000 != 0) == c15
        &&& (b & 0x800000 != 0) == c16
    }) by (bit_vector)
        requires
            b == 0u32 | (if c0 { 0x4u32 } else { 0 }) | (if c1 { 0x8u32 } else { 0 }) | (if c2 {
                0x10u32
            } else {
                0
            }) | (if c3 { 0x20u32 } else { 0 }) | (if c4 { 0x400u32 } else { 0 }) | (if c5 {
                0x800u32
            } else {
                0
            }) | (if c6 { 0x1000u32 } else { 0 }) | (if c7 { 0x2000u32 } else { 0 }) | (if c8 {
                0x4000u32
            } else {
                0
            }) | (if c9 { 0x10000u32 } else { 0 }) | (if c10 { 0x20000u32 } else { 0 }) | (if c11 {
                0x40000u32
            } else {
                0
            }) | (if c12 { 0x80000u32 } else { 0 }) | (if c13 { 0x100000u32 } else { 0 }) | (if c14 {
                0x200000u32
            } else {
                0
            }) | (if c15 { 0x400000u32 } else { 0 }) | (if c16 { 0x800000u32 } else { 0 }),
    ;
}

/// The other attributes of the Crossterm form of a style, read back: normal intensity is there
/// exactly when the style removes dim, and no attribute that no modifier stands for is there.
proof fn lemma_read_style_attributes_rest(s: Style)
    ensures
        ({
            let b = style_attribute_bits(s);
            &&& (b & 0x20000 != 0) == s.sub_modifier.has(Modifier::DIM)
            &&& b & 0x2 == 0
            &&& b & 0x8000 == 0
            &&& b & 0x1000000 == 0
            &&& b & 0x2000000 == 0
            &&& b & 0x4000000 == 0
            &&& b & 0x8000000 == 0
            &&& b & 0x10000000 == 0
        }),
{
    let add = s.add_modifier;
    let sub = s.sub_modifier;
    let c0 = add.has(Modifier::BOLD);
    let c1 = add.has(Modifier::DIM);
    let c2 = add.has(Modifier::ITALIC);
    let c3 = add.has(Modifier::UNDERLINED);
    let c4 = add.has(Modifier::SLOW_BLINK);
    let c5 = add.has(Modifier::RAPID_BLINK);
    let c6 = add.has(Modifier::REVERSED);
    let c7 = add.has(Modifier::HIDDEN);
    let c8 = add.has(Modifier::CROSSED_OUT);
    let c9 = sub.has(Modifier::BOLD);
    let c10 = sub.has(Modifier::DIM);
    let c11 = sub.has(Modifier::ITALIC);
    let c12 = sub.has(Modifier::UNDERLINED);
    let c13 = sub.has(Modifier::SLOW_BLINK) || sub.has(Modifier::RAPID_BLINK);
    let c14 = sub.has(Modifier::REVERSED);
    let c15 = sub.has(Modifier::HIDDEN);
    let c16 = sub.has(Modifier::CROSSED_OUT);
    crate::crossterm_types::lemma_attribute_bits();
    let b = style_attribute_bits(s);
    assert(b == 0u32 | (if c0 { 0x4u32 } else { 0 }) | (if c1 { 0x8u32 } else { 0 }) | (if c2 {
                0x10u32
            } else {
                0
            }) | (if c3 { 0x20u32 } else { 0 }) | (if c4 { 0x400u32 } else { 0 }) | (if c5 {
                0x800u32
            } else {
                0
            }) | (if c6 { 0x1000u32 } else { 0 }) | (if c7 { 0x2000u32 } else { 0 }) | (if c8 {
                0x4000u32
            } else {
                0
            }) | (if c9 { 0x10000u32 } else { 0 }) | (if c10 { 0x20000u32 } else { 0 }) | (if c11 {
                0x40000u32
            } else {
                0
            }) | (if c12 { 0x80000u32 } else { 0 }) | (if c13 { 0x100000u32 } else { 0 }) | (if c14 {
                0x200000u32
            } else {
                0
            }) | (if c15 { 0x400000u32 } else { 0 }) | (if c16 { 0x800000u32 } else { 0 }));
    assert({
        &&& (b & 0x20000 != 0) == c10
        &&& b & 0x2 == 0
        &&& b & 0x8000 == 0
        &&& b & 0x1000000 == 0
        &&& b & 0x2000000 == 0
        &&& b & 0x4000000 == 0
        &&& b & 0x8000000 == 0
        &&& b & 0x10000000 == 0
    }) by (bit_vector)
        requires
            b == 0u32 | (if c0 { 0x4u32 } else { 0 }) | (if c1 { 0x8u32 } else { 0 }) | (if c2 {
                0x10u32
            } else {
                0
            }) | (if c3 { 0x20u32 } else { 0 }) | (if c4 { 0x400u32 } else { 0 }) | (if c5 {
                0x800u32
            } else {
                0
            }) | (if c6 { 0x1000u32 } else { 0 }) | (if c7 { 0x2000u32 } else { 0 }) | (if c8 {
                0x4000u32
            } else {
                0
            }) | (if c9 { 0x10000u32 } else { 0 }) | (if c10 { 0x20000u32 } else { 0 }) | (if c11 {
                0x40000u32
            } else {
                0
            }) | (if c12 { 0x80000u32 } else { 0 }) | (if c13 { 0x100000u32 } else { 0 }) | (if c14 {
                0x200000u32
            } else {
                0
            }) | (if c15 { 0x400000u32 } else { 0 }) | (if c16 { 0x800000u32 } else { 0 }),
    ;
}

/// The Crossterm form of a style holds exactly these attributes: each modifier the style adds,
/// as the attribute that switches it on (underlined as `Underlined`); each modifier it removes,
/// as the attribute that switches it off (bold as `NoBold`, dim as `NormalIntensity`, either
/// blink as `NoBlink`); and no other attribute.
pub proof fn lemma_content_style_attributes(s: Style, cs: ContentStyle)
    requires
        is_content_style_of(s, cs),
    ensures
        cs.attributes.spec_has(CrosstermAttribute::Bold) == s.add_modifier.has(Modifier::BOLD),
        cs.attributes.spec_has(CrosstermAttribute::Dim) == s.add_modifier.has(Modifier::DIM),
        cs.attributes.spec_has(CrosstermAttribute::Italic) == s.add_modifier.has(Modifier::ITALIC),
        cs.attributes.spec_has(CrosstermAttribute::Underlined) == s.add_modifier.has(
            Modifier::UNDERLINED,
        ),
        cs.attributes.spec_has(CrosstermAttribute::SlowBlink) == s.add_modifier.has(
            Modifier::SLOW_BLINK,
        ),
        cs.attributes.spec_has(CrosstermAttribute::RapidBlink) == s.add_modifier.has(
            Modifier::RAPID_BLINK,
        ),
        cs.attributes.spec_has(CrosstermAttribute::Reverse) == s.add_modifier.has(
            Modifier::REVERSED,
        ),
        cs.attributes.spec_has(CrosstermAttribute::Hidden) == s.add_modifier.has(Modifier::HIDDEN),
        cs.attributes.spec_has(CrosstermAttribute::CrossedOut) == s.add_modifier.has(
            Modifier::CROSSED_OUT,
        ),
        cs.attributes.spec_has(CrosstermAttribute::NoBold) == s.sub_modifier.has(Modifier::BOLD),
        cs.attributes.spec_has(CrosstermAttribute::NormalIntensity) == s.sub_modifier.has(
            Modifier::DIM,
        ),
        cs.attributes.spec_has(CrosstermAttribute::NoItalic) == s.sub_modifier.has(
            Modifier::ITALIC,
        ),
        cs.attributes.spec_has(CrosstermAttribute::NoUnderline) == s.sub_modifier.has(
            Modifier::UNDERLINED,
        ),
        cs.attributes.spec_has(CrosstermAttribute::NoBlink) == (s.sub_modifier.has(
            Modifier::SLOW_BLINK,
        ) || s.sub_modifier.has(Modifier::RAPID_BLINK)),
        cs.attributes.spec_has(CrosstermAttribute::NoReverse) == s.sub_modifier.has(
            Modifier::REVERSED,
        ),
        cs.attributes.spec_has(CrosstermAttribute::NoHidden) == s.sub_modifier.has(
            Modifier::HIDDEN,
        ),
        cs.attributes.spec_has(CrosstermAttribute::NotCrossedOut) == s.sub_modifier.has(
            Modifier::CROSSED_OUT,
        ),
        !cs.attributes.spec_has(CrosstermAttribute::Reset),
        !cs.attributes.spec_has(CrosstermAttribute::DoubleUnderlined),
        !cs.attributes.spec_has(CrosstermAttribute::Undercurled),
        !cs.attributes.spec_has(CrosstermAttribute::Underdotted),
        !cs.attributes.spec_has(CrosstermAttribute::Underdashed),
        !cs.attributes.spec_has(CrosstermAttribute::Fraktur),
        !cs.attributes.spec_has(CrosstermAttribute::Framed),
        !cs.attributes.spec_has(CrosstermAttribute::Encircled),
        !cs.attributes.spec_has(CrosstermAttribute::OverLined),
        !cs.attributes.spec_has(CrosstermAttribute::NotFramedOrEncircled),
        !cs.attributes.spec_has(CrosstermAttribute::NotOverLined),
{
    lemma_read_style_attributes(s);
    lemma_read_style_attributes_rest(s);
    crate::crossterm_types::lemma_attribute_bits();
}

/// Converting a style to Crossterm and back gives the style again, provided the style uses
/// only named modifiers, does not remove dim alone (Crossterm's `NormalIntensity` is not read
/// back as removing dim), and removes either both blinks or neither (Crossterm has one
/// `NoBlink` for both).
pub proof fn lemma_style_roundtrip(s: Style, cs: ContentStyle)
    requires
        is_content_style_of(s, cs),
        s.add_modifier.bits & !Modifier::ALL == 0,
        s.sub_modifier.bits & !Modifier::ALL == 0,
        !s.sub_modifier.has(Modifier::DIM),
        s.sub_modifier.has(Modifier::SLOW_BLINK) == s.sub_modifier.has(Modifier::RAPID_BLINK),
    ensures
        style_of_content_style(cs) == s,
{
    let add = s.add_modifier;
    let sub = s.sub_modifier;
    lemma_read_style_attributes(s);
    crate::crossterm_types::lemma_attribute_bits();
    let a = cs.attributes;
    assert(a == CrosstermAttributes { bits: style_attribute_bits(s) });
    let m = modifier_of_attributes(a);
    crate::style::lemma_with_flags(
        a.spec_has(CrosstermAttribute::Bold),
        a.spec_has(CrosstermAttribute::Dim),
        a.spec_has(CrosstermAttribute::Italic),
        a.spec_has(CrosstermAttribute::Underlined) || a.spec_has(
            CrosstermAttribute::DoubleUnderlined,
        ) || a.spec_has(CrosstermAttribute::Undercurled) || a.spec_has(
            CrosstermAttribute::Underdotted,
        ) || a.spec_has(CrosstermAttribute::Underdashed),
        a.spec_has(CrosstermAttribute::SlowBlink),
        a.spec_has(CrosstermAttribute::RapidBlink),
        a.spec_has(CrosstermAttribute::Reverse),
        a.spec_has(CrosstermAttribute::Hidden),
        a.spec_has(CrosstermAttribute::CrossedOut),
    );
    lemma_modifier_ext(m, add);
    let n = sub_modifier_of_attributes(a);
    crate::style::lemma_with_flags(
        a.spec_has(CrosstermAttribute::NoBold),
        false,
        a.spec_has(CrosstermAttribute::NoItalic),
        a.spec_has(CrosstermAttribute::NoUnderline),
        a.spec_has(CrosstermAttribute::NoBlink),
        a.spec_has(CrosstermAttribute::NoBlink),
        a.spec_has(CrosstermAttribute::NoReverse),
        a.spec_has(CrosstermAttribute::NoHidden),
        a.spec_has(CrosstermAttribute::NotCrossedOut),
    );
    lemma_modifier_ext(n, sub);
    match s.fg {
        Some(c) => lemma_color_roundtrip(c),
        None => {},
    }
    match s.bg {
        Some(c) => lemma_color_roundtrip(c),
        None => {},
    }
    match s.underline_color {
        Some(c) => lemma_color_roundtrip(c),
        None => {},
    }
}

} // verus!
