//! Crossterm's side of the styling vocabulary, held as plain values: colors, attributes and
//! content styles, with the layout Crossterm gives them.
use vstd::prelude::*;

verus! {

/// A terminal color, as Crossterm names it.
#[derive(Debug, Clone, Copy, PartialEq, Eq, Structural)]
pub enum CrosstermColor {
    Reset,
    Black,
    DarkGrey,
    Red,
    DarkRed,
    Green,
    DarkGreen,
    Yellow,
    DarkYellow,
    Blue,
    DarkBlue,
    Magenta,
    DarkMagenta,
    Cyan,
    DarkCyan,
    White,
    Grey,
    Rgb { r: u8, g: u8, b: u8 },
    AnsiValue(u8),
}

/// A text attribute, as Crossterm names it, in Crossterm's order.
#[derive(Debug, Clone, Copy, PartialEq, Eq, Structural)]
pub enum CrosstermAttribute {
    Reset,
    Bold,
    Dim,
    Italic,
    Underlined,
    DoubleUnderlined,
    Undercurled,
    Underdotted,
    Underdashed,
    SlowBlink,
    RapidBlink,
    Reverse,
    Hidden,
    CrossedOut,
    Fraktur,
    NoBold,
    NormalIntensity,
    NoItalic,
    NoUnderline,
    NoBlink,
    NoReverse,
    NoHidden,
    NotCrossedOut,
    Framed,
    Encircled,
    OverLined,
    NotFramedOrEncircled,
    NotOverLined,
}

/// The number of attributes Crossterm names.
pub const ATTRIBUTE_COUNT: u32 = 28;

impl CrosstermAttribute {
    /// The position of the attribute in Crossterm's list.
    pub open spec fn spec_index(self) -> u32 {
        match self {
            CrosstermAttribute::Reset => 0,
            CrosstermAttribute::Bold => 1,
            CrosstermAttribute::Dim => 2,
            CrosstermAttribute::Italic => 3,
            CrosstermAttribute::Underlined => 4,
            CrosstermAttribute::DoubleUnderlined => 5,
            CrosstermAttribute::Undercurled => 6,
            CrosstermAttribute::Underdotted => 7,
            CrosstermAttribute::Underdashed => 8,
            CrosstermAttribute::SlowBlink => 9,
            CrosstermAttribute::RapidBlink => 10,
            CrosstermAttribute::Reverse => 11,
            CrosstermAttribute::Hidden => 12,
            CrosstermAttribute::CrossedOut => 13,
            CrosstermAttribute::Fraktur => 14,
            CrosstermAttribute::NoBold => 15,
            CrosstermAttribute::NormalIntensity => 16,
            CrosstermAttribute::NoItalic => 17,
            CrosstermAttribute::NoUnderline => 18,
            CrosstermAttribute::NoBlink => 19,
            CrosstermAttribute::NoReverse => 20,
            CrosstermAttribute::NoHidden => 21,
            CrosstermAttribute::NotCrossedOut => 22,
            CrosstermAttribute::Framed => 23,
            CrosstermAttribute::Encircled => 24,
            CrosstermAttribute::OverLined => 25,
            CrosstermAttribute::NotFramedOrEncircled => 26,
            CrosstermAttribute::NotOverLined => 27,
        }
    }

    /// The attribute at the given position of Crossterm's list.
    pub open spec fn spec_from_index(i: u32) -> CrosstermAttribute {
        if i == 0 {
            CrosstermAttribute::Reset
        } else if i == 1 {
            CrosstermAttribute::Bold
        } else if i == 2 {
            CrosstermAttribute::Dim
        } else if i == 3 {
            CrosstermAttribute::Italic
        } else if i == 4 {
            CrosstermAttribute::Underlined
        } else if i == 5 {
            CrosstermAttribute::DoubleUnderlined
        } else if i == 6 {
            CrosstermAttribute::Undercurled
        } else if i == 7 {
            CrosstermAttribute::Underdotted
        } else if i == 8 {
            CrosstermAttribute::Underdashed
        } else if i == 9 {
            CrosstermAttribute::SlowBlink
        } else if i == 10 {
            CrosstermAttribute::RapidBlink
        } else if i == 11 {
            CrosstermAttribute::Reverse
        } else if i == 12 {
            CrosstermAttribute::Hidden
        } else if i == 13 {
            CrosstermAttribute::CrossedOut
        } else if i == 14 {
            CrosstermAttribute::Fraktur
        } else if i == 15 {
            CrosstermAttribute::NoBold
        } else if i == 16 {
            CrosstermAttribute::NormalIntensity
        } else if i == 17 {
            CrosstermAttribute::NoItalic
        } else if i == 18 {
            CrosstermAttribute::NoUnderline
        } else if i == 19 {
            CrosstermAttribute::NoBlink
        } else if i == 20 {
            CrosstermAttribute::NoReverse
        } else if i == 21 {
            CrosstermAttribute::NoHidden
        } else if i == 22 {
            CrosstermAttribute::NotCrossedOut
        } else if i == 23 {
            CrosstermAttribute::Framed
        } else if i == 24 {
            CrosstermAttribute::Encircled
        } else if i == 25 {
            CrosstermAttribute::OverLined
        } else if i == 26 {
            CrosstermAttribute::NotFramedOrEncircled
        } else {
            CrosstermAttribute::NotOverLined
        }
    }

    /// The bit that stands for the attribute in a set of attributes.
    pub open spec fn spec_bytes(self) -> u32 {
        1u32 << (self.spec_index() + 1)
    }

    /// The position of the attribute in Crossterm's list.
    pub fn index(self) -> (i: u32)
        ensures
            i == self.spec_index(),
            i < ATTRIBUTE_COUNT,
    {
        match self {
            CrosstermAttribute::Reset => 0,
            CrosstermAttribute::Bold => 1,
            CrosstermAttribute::Dim => 2,
            CrosstermAttribute::Italic => 3,
            CrosstermAttribute::Underlined => 4,
            CrosstermAttribute::DoubleUnderlined => 5,
            CrosstermAttribute::Undercurled => 6,
            CrosstermAttribute::Underdotted => 7,
            CrosstermAttribute::Underdashed => 8,
            CrosstermAttribute::SlowBlink => 9,
            CrosstermAttribute::RapidBlink => 10,
            CrosstermAttribute::Reverse => 11,
            CrosstermAttribute::Hidden => 12,
            CrosstermAttribute::CrossedOut => 13,
            CrosstermAttribute::Fraktur => 14,
            CrosstermAttribute::NoBold => 15,
            CrosstermAttribute::NormalIntensity => 16,
            CrosstermAttribute::NoItalic => 17,
            CrosstermAttribute::NoUnderline => 18,
            CrosstermAttribute::NoBlink => 19,
            CrosstermAttribute::NoReverse => 20,
            CrosstermAttribute::NoHidden => 21,
            CrosstermAttribute::NotCrossedOut => 22,
            CrosstermAttribute::Framed => 23,
            CrosstermAttribute::Encircled => 24,
            CrosstermAttribute::OverLined => 25,
            CrosstermAttribute::NotFramedOrEncircled => 26,
            CrosstermAttribute::NotOverLined => 27,
        }
    }

    /// The bit that stands for the attribute in a set of attributes.
    pub fn bytes(self) -> (b: u32)
        ensures
            b == self.spec_bytes(),
    {
        let i = self.index();
        1u32 << (i + 1)
    }
}

/// Two attributes with the same position are the same attribute.
pub proof fn lemma_index_injective(a: CrosstermAttribute, b: CrosstermAttribute)
    ensures
        a.spec_index() < ATTRIBUTE_COUNT,
        CrosstermAttribute::spec_from_index(a.spec_index()) == a,
        (a.spec_index() == b.spec_index()) == (a == b),
{
    assert(CrosstermAttribute::spec_from_index(b.spec_index()) == b);
}

/// Setting the bit of attribute `i` adds exactly attribute `i`, and keeps the set within
/// the bits that stand for attributes.
proof fn lemma_set_bit(bits: u32, i: u32, j: u32)
    requires
        i < 28,
        j < 28,
    ensures
        ((bits | (1u32 << (i + 1))) & (1u32 << (j + 1)) != 0) == ((bits & (1u32 << (j + 1)) != 0)
            || i == j),
        bits & !0x1fff_fffeu32 == 0 ==> (bits | (1u32 << (i + 1))) & !0x1fff_fffeu32 == 0,
{
    assert(((bits | (1u32 << (i + 1))) & (1u32 << (j + 1)) != 0) == ((bits & (1u32 << (j + 1))
        != 0) || i == j)) by (bit_vector)
        requires
            i < 28,
            j < 28,
    ;
    assert(bits & !0x1fff_fffeu32 == 0 ==> (bits | (1u32 << (i + 1))) & !0x1fff_fffeu32 == 0)
        by (bit_vector)
        requires
            i < 28,
    ;
}

/// The set that holds only the attribute `a` holds `a` and no other attribute.
pub proof fn lemma_single_attribute(a: CrosstermAttribute, b: CrosstermAttribute)
    ensures
        (CrosstermAttributes { bits: a.spec_bytes() }).spec_has(b) == (b == a),
{
    lemma_index_injective(a, b);
    lemma_index_injective(b, a);
    lemma_set_bit(0, a.spec_index(), b.spec_index());
    let k = a.spec_bytes();
    let kb = b.spec_bytes();
    assert(0u32 | k == k && 0u32 & kb == 0) by (bit_vector);
}

/// The bit of each attribute, written out.
pub proof fn lemma_attribute_bits()
    ensures
        CrosstermAttribute::Reset.spec_bytes() == 0x2,
        CrosstermAttribute::Bold.spec_bytes() == 0x4,
        CrosstermAttribute::Dim.spec_bytes() == 0x8,
        CrosstermAttribute::Italic.spec_bytes() == 0x10,
        CrosstermAttribute::Underlined.spec_bytes() == 0x20,
        CrosstermAttribute::DoubleUnderlined.spec_bytes() == 0x40,
        CrosstermAttribute::Undercurled.spec_bytes() == 0x80,
        CrosstermAttribute::Underdotted.spec_bytes() == 0x100,
        CrosstermAttribute::Underdashed.spec_bytes() == 0x200,
        CrosstermAttribute::SlowBlink.spec_bytes() == 0x400,
        CrosstermAttribute::RapidBlink.spec_bytes() == 0x800,
        CrosstermAttribute::Reverse.spec_bytes() == 0x1000,
        CrosstermAttribute::Hidden.spec_bytes() == 0x2000,
        CrosstermAttribute::CrossedOut.spec_bytes() == 0x4000,
        CrosstermAttribute::Fraktur.spec_bytes() == 0x8000,
        CrosstermAttribute::NoBold.spec_bytes() == 0x10000,
        CrosstermAttribute::NormalIntensity.spec_bytes() == 0x20000,
        CrosstermAttribute::NoItalic.spec_bytes() == 0x40000,
        CrosstermAttribute::NoUnderline.spec_bytes() == 0x80000,
        CrosstermAttribute::NoBlink.spec_bytes() == 0x100000,
        CrosstermAttribute::NoReverse.spec_bytes() == 0x200000,
        CrosstermAttribute::NoHidden.spec_bytes() == 0x400000,
        CrosstermAttribute::NotCrossedOut.spec_bytes() == 0x800000,
        CrosstermAttribute::Framed.spec_bytes() == 0x1000000,
        CrosstermAttribute::Encircled.spec_bytes() == 0x2000000,
        CrosstermAttribute::OverLined.spec_bytes() == 0x4000000,
        CrosstermAttribute::NotFramedOrEncircled.spec_bytes() == 0x8000000,
        CrosstermAttribute::NotOverLined.spec_bytes() == 0x10000000,
{
    assert({
        &&& 1u32 << 1u32 == 0x2u32
        &&& 1u32 << 2u32 == 0x4u32
        &&& 1u32 << 3u32 == 0x8u32
        &&& 1u32 << 4u32 == 0x10u32
        &&& 1u32 << 5u32 == 0x20u32
        &&& 1u32 << 6u32 == 0x40u32
        &&& 1u32 << 7u32 == 0x80u32
        &&& 1u32 << 8u32 == 0x100u32
        &&& 1u32 << 9u32 == 0x200u32
        &&& 1u32 << 10u32 == 0x400u32
        &&& 1u32 << 11u32 == 0x800u32
        &&& 1u32 << 12u32 == 0x1000u32
        &&& 1u32 << 13u32 == 0x2000u32
        &&& 1u32 << 14u32 == 0x4000u32
        &&& 1u32 << 15u32 == 0x8000u32
        &&& 1u32 << 16u32 == 0x10000u32
        &&& 1u32 << 17u32 == 0x20000u32
        &&& 1u32 << 18u32 == 0x40000u32
        &&& 1u32 << 19u32 == 0x80000u32
        &&& 1u32 << 20u32 == 0x100000u32
        &&& 1u32 << 21u32 == 0x200000u32
        &&& 1u32 << 22u32 == 0x400000u32
        &&& 1u32 << 23u32 == 0x800000u32
        &&& 1u32 << 24u32 == 0x1000000u32
        &&& 1u32 << 25u32 == 0x2000000u32
        &&& 1u32 << 26u32 == 0x4000000u32
        &&& 1u32 << 27u32 == 0x8000000u32
        &&& 1u32 << 28u32 == 0x10000000u32
    }) by (bit_vector);
}

/// A set of text attributes, held as Crossterm holds it: one bit per attribute.
#[derive(Debug, Clone, Copy, PartialEq, Eq, Structural)]
pub struct CrosstermAttributes {
    pub bits: u32,
}

impl CrosstermAttributes {
    /// The bits that stand for some attribute.
    pub open spec fn mask() -> u32 {
        0x1fff_fffe
    }

    /// Whether the set holds the attribute.
    pub open spec fn spec_has(self, a: CrosstermAttribute) -> bool {
        self.bits & a.spec_bytes() != 0
    }

    /// Whether every set bit stands for an attribute.
    pub open spec fn well_formed(self) -> bool {
        self.bits & !Self::mask() == 0
    }

    /// The empty set of attributes.
    pub fn none() -> (s: CrosstermAttributes)
        ensures
            s.bits == 0,
            s.well_formed(),
            forall|a: CrosstermAttribute| !#[trigger] s.spec_has(a),
    {
        let s = CrosstermAttributes { bits: 0 };
        assert forall|a: CrosstermAttribute| !#[trigger] s.spec_has(a) by {
            let k = a.spec_bytes();
            assert(0u32 & k == 0) by (bit_vector);
        }
        assert(0u32 & !0x1fff_fffeu32 == 0) by (bit_vector);
        s
    }

    /// Whether the set holds the attribute.
    pub fn has(self, a: CrosstermAttribute) -> (r: bool)
        ensures
            r == self.spec_has(a),
    {
        self.bits & a.bytes() != 0
    }

    /// Adds the attribute to the set.
    pub fn set(&mut self, a: CrosstermAttribute)
        ensures
            final(self).bits == old(self).bits | a.spec_bytes(),
            forall|b: CrosstermAttribute| #[trigger]
                final(self).spec_has(b) == (old(self).spec_has(b) || b == a),
            old(self).well_formed() ==> final(self).well_formed(),
    {
        let ghost before = *self;
        self.bits = self.bits | a.bytes();
        proof {
            assert forall|b: CrosstermAttribute| #[trigger]
                self.spec_has(b) == (before.spec_has(b) || b == a) by {
                lemma_set_bit(before.bits, a.spec_index(), b.spec_index());
                lemma_index_injective(a, b);
            }
            lemma_set_bit(before.bits, a.spec_index(), a.spec_index());
        }
    }

    /// The set that holds the one attribute.
    pub fn from_attribute(a: CrosstermAttribute) -> (s: CrosstermAttributes)
        ensures
            s.bits == a.spec_bytes(),
            s.well_formed(),
            forall|b: CrosstermAttribute| #[trigger] s.spec_has(b) == (b == a),
    {
        let mut s = CrosstermAttributes::none();
        s.set(a);
        assert(0u32 | a.spec_bytes() == a.spec_bytes()) by (bit_vector);
        s
    }

    /// The set that holds the listed attributes.
    pub fn from_slice(attributes: &[CrosstermAttribute]) -> (s: CrosstermAttributes)
        ensures
            s.well_formed(),
            forall|b: CrosstermAttribute| #[trigger] s.spec_has(b) == attributes@.contains(b),
    {
        let mut s = CrosstermAttributes::none();
        let n = attributes.len();
        for i in 0..n
            invariant
                n == attributes@.len(),
                s.well_formed(),
                forall|b: CrosstermAttribute| #[trigger]
                    s.spec_has(b) == attributes@.take(i as int).contains(b),
        {
            let a = attributes[i];
            s.set(a);
            proof {
                let prev = attributes@.take(i as int);
                let next = attributes@.take(i + 1);
                assert(next =~= prev.push(a));
                assert forall|b: CrosstermAttribute| #[trigger]
                    s.spec_has(b) == next.contains(b) by {
                    if b == a {
                        assert(next[i as int] == a);
                    } else if prev.contains(b) {
                        let k = choose|k: int| 0 <= k < prev.len() && prev[k] == b;
                        assert(next[k] == b);
                    } else if next.contains(b) {
                        let k = choose|k: int| 0 <= k < next.len() && next[k] == b;
                        assert(prev[k] == b);
                    }
                }
            }
        }
        assert(attributes@.take(n as int) =~= attributes@);
        s
    }
}

/// A text style, as Crossterm holds it.
#[derive(Debug, Clone, Copy, PartialEq, Eq, Structural)]
pub struct ContentStyle {
    pub foreground_color: Option<CrosstermColor>,
    pub background_color: Option<CrosstermColor>,
    pub underline_color: Option<CrosstermColor>,
    pub attributes: CrosstermAttributes,
}

impl ContentStyle {
    /// The style that sets nothing.
    pub open spec fn spec_default() -> ContentStyle {
        ContentStyle {
            foreground_color: None,
            background_color: None,
            underline_color: None,
            attributes: CrosstermAttributes { bits: 0 },
        }
    }
}

impl Default for ContentStyle {
    fn default() -> (s: ContentStyle)
        ensures
            s == ContentStyle::spec_default(),
    {
        ContentStyle {
            foreground_color: None,
            background_color: None,
            underline_color: None,
            attributes: CrosstermAttributes { bits: 0 },
        }
    }
}

/// The ways Crossterm knows to clear the screen.
#[derive(Debug, Clone, Copy, PartialEq, Eq, Structural)]
pub enum CrosstermClearType {
    All,
    Purge,
    FromCursorDown,
    FromCursorUp,
    CurrentLine,
    UntilNewLine,
}

} // verus!
