//! Ratatui's side of the styling vocabulary: colors, modifiers, styles and cells.
use vstd::prelude::*;

verus! {

/// A terminal color, as Ratatui names it.
#[derive(Debug, Clone, Copy, PartialEq, Eq, Structural)]
pub enum Color {
    Reset,
    Black,
    Red,
    Green,
    Yellow,
    Blue,
    Magenta,
    Cyan,
    Gray,
    DarkGray,
    LightRed,
    LightGreen,
    LightYellow,
    LightBlue,
    LightMagenta,
    LightCyan,
    White,
    Rgb(u8, u8, u8),
    Indexed(u8),
}

/// A set of text modifiers (bold, italic, ...), held as the bits Ratatui gives them.
#[derive(Debug, Clone, Copy, PartialEq, Eq, Structural)]
pub struct Modifier {
    pub bits: u16,
}

/// The flag bits that the result of `with_flags` holds for the given choices.
pub open spec fn flag_if(b: bool, flag: u16) -> u16 {
    if b {
        flag
    } else {
        0
    }
}

impl Modifier {
    /// Bold text.
    pub const BOLD: u16 = 0b0000_0000_0001;
    /// Dim (faint) text.
    pub const DIM: u16 = 0b0000_0000_0010;
    /// Italic text.
    pub const ITALIC: u16 = 0b0000_0000_0100;
    /// Underlined text.
    pub const UNDERLINED: u16 = 0b0000_0000_1000;
    /// Slowly blinking text.
    pub const SLOW_BLINK: u16 = 0b0000_0001_0000;
    /// Rapidly blinking text.
    pub const RAPID_BLINK: u16 = 0b0000_0010_0000;
    /// Foreground and background swapped.
    pub const REVERSED: u16 = 0b0000_0100_0000;
    /// Hidden text.
    pub const HIDDEN: u16 = 0b0000_1000_0000;
    /// Crossed-out text.
    pub const CROSSED_OUT: u16 = 0b0001_0000_0000;
    /// Every flag bit that has a name.
    pub const ALL: u16 = 0b0001_1111_1111;

    /// Whether every bit of `flags` is set.
    pub open spec fn has(self, flags: u16) -> bool {
        self.bits & flags == flags
    }

    /// The bits of this modifier that have a name.
    pub open spec fn known(self) -> u16 {
        self.bits & Self::ALL
    }

    /// The modifier whose named flags are exactly the chosen ones, in the order
    /// bold, dim, italic, underlined, slow blink, rapid blink, reversed, hidden, crossed out.
    pub open spec fn with_flags(
        bold: bool,
        dim: bool,
        italic: bool,
        underlined: bool,
        slow_blink: bool,
        rapid_blink: bool,
        reversed: bool,
        hidden: bool,
        crossed_out: bool,
    ) -> Modifier {
        Modifier {
            bits: 0u16 | flag_if(bold, Self::BOLD) | flag_if(dim, Self::DIM) | flag_if(
                italic,
                Self::ITALIC,
            ) | flag_if(underlined, Self::UNDERLINED) | flag_if(slow_blink, Self::SLOW_BLINK)
                | flag_if(rapid_blink, Self::RAPID_BLINK) | flag_if(reversed, Self::REVERSED)
                | flag_if(hidden, Self::HIDDEN) | flag_if(crossed_out, Self::CROSSED_OUT),
        }
    }

    /// The empty set of modifiers.
    pub fn empty() -> (m: Modifier)
        ensures
            m.bits == 0,
    {
        Modifier { bits: 0 }
    }

    /// Whether every modifier of `other` is also in `self`.
    pub fn contains(self, other: Modifier) -> (r: bool)
        ensures
            r == self.has(other.bits),
    {
        self.bits & other.bits == other.bits
    }

    /// The modifiers of `self` that are not in `other` (`self - other` in Ratatui).
    pub fn difference(self, other: Modifier) -> (m: Modifier)
        ensures
            m.bits == self.bits & !other.bits,
    {
        Modifier { bits: self.bits & !other.bits }
    }

    /// The modifiers that are in both `self` and `other` (`self & other` in Ratatui).
    pub fn intersection(self, other: Modifier) -> (m: Modifier)
        ensures
            m.bits == self.bits & other.bits,
    {
        Modifier { bits: self.bits & other.bits }
    }

    /// The modifiers that are in `self` or in `other` (`self | other` in Ratatui).
    pub fn union(self, other: Modifier) -> (m: Modifier)
        ensures
            m.bits == self.bits | other.bits,
    {
        Modifier { bits: self.bits | other.bits }
    }
}

/// What `with_flags` builds: each named flag is set exactly when it was chosen, and no other
/// bit is set.
pub proof fn lemma_with_flags(
    bold: bool,
    dim: bool,
    italic: bool,
    underlined: bool,
    slow_blink: bool,
    rapid_blink: bool,
    reversed: bool,
    hidden: bool,
    crossed_out: bool,
)
    ensures
        ({
            let m = Modifier::with_flags(
                bold,
                dim,
                italic,
                underlined,
                slow_blink,
                rapid_blink,
                reversed,
                hidden,
                crossed_out,
            );
            &&& m.has(Modifier::BOLD) == bold
            &&& m.has(Modifier::DIM) == dim
            &&& m.has(Modifier::ITALIC) == italic
            &&& m.has(Modifier::UNDERLINED) == underlined
            &&& m.has(Modifier::SLOW_BLINK) == slow_blink
            &&& m.has(Modifier::RAPID_BLINK) == rapid_blink
            &&& m.has(Modifier::REVERSED) == reversed
            &&& m.has(Modifier::HIDDEN) == hidden
            &&& m.has(Modifier::CROSSED_OUT) == crossed_out
            &&& m.bits & !Modifier::ALL == 0
        }),
{
    let b = Modifier::with_flags(
        bold,
        dim,
        italic,
        underlined,
        slow_blink,
        rapid_blink,
        reversed,
        hidden,
        crossed_out,
    ).bits;
    assert(b == 0u16 | (if bold { 1u16 } else { 0u16 }) | (if dim { 2u16 } else { 0u16 }) | (if italic {
        4u16
    } else {
        0u16
    }) | (if underlined { 8u16 } else { 0u16 }) | (if slow_blink { 16u16 } else { 0u16 }) | (
    if rapid_blink {
        32u16
    } else {
        0u16
    }) | (if reversed { 64u16 } else { 0u16 }) | (if hidden { 128u16 } else { 0u16 }) | (
    if crossed_out {
        256u16
    } else {
        0u16
    }));
    assert({
        &&& (b & 1 == 1) == bold
        &&& (b & 2 == 2) == dim
        &&& (b & 4 == 4) == italic
        &&& (b & 8 == 8) == underlined
        &&& (b & 16 == 16) == slow_blink
        &&& (b & 32 == 32) == rapid_blink
        &&& (b & 64 == 64) == reversed
        &&& (b & 128 == 128) == hidden
        &&& (b & 256 == 256) == crossed_out
        &&& b & !0x1ffu16 == 0
    }) by (bit_vector)
        requires
            b == 0u16 | (if bold { 1u16 } else { 0u16 }) | (if dim { 2u16 } else { 0u16 }) | (
            if italic {
                4u16
            } else {
                0u16
            }) | (if underlined { 8u16 } else { 0u16 }) | (if slow_blink { 16u16 } else { 0u16 })
                | (if rapid_blink { 32u16 } else { 0u16 }) | (if reversed { 64u16 } else { 0u16 })
                | (if hidden { 128u16 } else { 0u16 }) | (if crossed_out { 256u16 } else { 0u16 }),
    ;
}

/// The style of a piece of text: colors to set, and modifiers to add and to remove.
#[derive(Debug, Clone, Copy, PartialEq, Eq, Structural)]
pub struct Style {
    pub fg: Option<Color>,
    pub bg: Option<Color>,
    pub underline_color: Option<Color>,
    pub add_modifier: Modifier,
    pub sub_modifier: Modifier,
}

impl Style {
    /// The style that changes nothing.
    pub open spec fn spec_default() -> Style {
        Style {
            fg: None,
            bg: None,
            underline_color: None,
            add_modifier: Modifier { bits: 0 },
            sub_modifier: Modifier { bits: 0 },
        }
    }

    /// Sets the foreground color.
    pub fn fg(self, color: Color) -> (s: Style)
        ensures
            s == (Style { fg: Some(color), ..self }),
    {
        Style { fg: Some(color), ..self }
    }

    /// Sets the background color.
    pub fn bg(self, color: Color) -> (s: Style)
        ensures
            s == (Style { bg: Some(color), ..self }),
    {
        Style { bg: Some(color), ..self }
    }

    /// Sets the underline color.
    pub fn underline_color(self, color: Color) -> (s: Style)
        ensures
            s == (Style { underline_color: Some(color), ..self }),
    {
        Style { underline_color: Some(color), ..self }
    }

    /// Adds the given modifiers, and no longer removes them.
    pub fn add_modifier(self, modifier: Modifier) -> (s: Style)
        ensures
            s.add_modifier.bits == self.add_modifier.bits | modifier.bits,
            s.sub_modifier.bits == self.sub_modifier.bits & !modifier.bits,
            s.fg == self.fg,
            s.bg == self.bg,
            s.underline_color == self.underline_color,
    {
        Style {
            sub_modifier: self.sub_modifier.difference(modifier),
            add_modifier: self.add_modifier.union(modifier),
            ..self
        }
    }

    /// Removes the given modifiers, and no longer adds them.
    pub fn remove_modifier(self, modifier: Modifier) -> (s: Style)
        ensures
            s.add_modifier.bits == self.add_modifier.bits & !modifier.bits,
            s.sub_modifier.bits == self.sub_modifier.bits | modifier.bits,
            s.fg == self.fg,
            s.bg == self.bg,
            s.underline_color == self.underline_color,
    {
        Style {
            add_modifier: self.add_modifier.difference(modifier),
            sub_modifier: self.sub_modifier.union(modifier),
            ..self
        }
    }
}

impl Default for Style {
    fn default() -> (s: Style)
        ensures
            s == Style::spec_default(),
    {
        Style {
            fg: None,
            bg: None,
            underline_color: None,
            add_modifier: Modifier { bits: 0 },
            sub_modifier: Modifier { bits: 0 },
        }
    }
}

/// One cell of the screen: the symbol it shows and the style it shows it in.
#[derive(Debug, Clone, PartialEq, Eq)]
pub struct Cell {
    pub symbol: String,
    pub fg: Color,
    pub bg: Color,
    pub underline_color: Color,
    pub modifier: Modifier,
}

} // verus!
