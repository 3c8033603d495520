//! The SGR codes that turn one set of modifiers into another, and what a terminal does with
//! them.
use vstd::prelude::*;

use crate::ansi::{push_sgr_code, sgr_all, sgr_code};
use crate::style::Modifier;

verus! {

/// `codes` with `code` appended when `cond` holds.
#[verifier::opaque]
pub open spec fn push_if(codes: Seq<u8>, cond: bool, code: u8) -> Seq<u8> {
    if cond {
        codes.push(code)
    } else {
        codes
    }
}

/// The modifiers of `from` that `to` does not have.
pub open spec fn removed_modifiers(from: Modifier, to: Modifier) -> Modifier {
    Modifier { bits: from.bits & !to.bits }
}

/// The modifiers of `to` that `from` does not have.
pub open spec fn added_modifiers(from: Modifier, to: Modifier) -> Modifier {
    Modifier { bits: to.bits & !from.bits }
}

/// The modifiers that both `from` and `to` have.
pub open spec fn kept_modifiers(from: Modifier, to: Modifier) -> Modifier {
    Modifier { bits: from.bits & to.bits }
}

/// Whether the change removes a blink, which one code switches off together with the other.
pub open spec fn resets_blink(from: Modifier, to: Modifier) -> bool {
    removed_modifiers(from, to).has(Modifier::SLOW_BLINK) || removed_modifiers(from, to).has(
        Modifier::RAPID_BLINK,
    )
}

/// Whether the change removes bold or dim, which one code switches off together.
pub open spec fn resets_intensity(from: Modifier, to: Modifier) -> bool {
    removed_modifiers(from, to).has(Modifier::BOLD) || removed_modifiers(from, to).has(
        Modifier::DIM,
    )
}

/// The `k`-th choice made while changing the modifiers `from` into `to`: whether to send a
/// code, and which.
///
/// First every removed modifier is switched off: reverse (27); bold and dim together by one
/// normal-intensity code (22), after which whichever of dim (2) and bold (1) `to` has is
/// switched on again; italic (23); underline (24); crossed out (29); hidden (28); and both
/// blinks together by one code (25), after which whichever of slow blink (5) and rapid blink
/// (6) both `from` and `to` have is switched on again. Then every added modifier is switched
/// on: reverse (7), bold (1) unless the intensity was reset, italic (3), underline (4), dim (2)
/// unless the intensity was reset, crossed out (9), hidden (8), slow blink (5) and rapid blink
/// (6).
pub open spec fn diff_step(from: Modifier, to: Modifier, k: int) -> (bool, u8) {
    if k == 0 {
        (removed_modifiers(from, to).has(Modifier::REVERSED), 27)
    } else if k == 1 {
        (resets_intensity(from, to), 22)
    } else if k == 2 {
        (resets_intensity(from, to) && to.has(Modifier::DIM), 2)
    } else if k == 3 {
        (resets_intensity(from, to) && to.has(Modifier::BOLD), 1)
    } else if k == 4 {
        (removed_modifiers(from, to).has(Modifier::ITALIC), 23)
    } else if k == 5 {
        (removed_modifiers(from, to).has(Modifier::UNDERLINED), 24)
    } else if k == 6 {
        (removed_modifiers(from, to).has(Modifier::CROSSED_OUT), 29)
    } else if k == 7 {
        (removed_modifiers(from, to).has(Modifier::HIDDEN), 28)
    } else if k == 8 {
        (resets_blink(from, to), 25)
    } else if k == 9 {
        (resets_blink(from, to) && kept_modifiers(from, to).has(Modifier::SLOW_BLINK), 5)
    } else if k == 10 {
        (resets_blink(from, to) && kept_modifiers(from, to).has(Modifier::RAPID_BLINK), 6)
    } else if k == 11 {
        (added_modifiers(from, to).has(Modifier::REVERSED), 7)
    } else if k == 12 {
        (added_modifiers(from, to).has(Modifier::BOLD) && !resets_intensity(from, to), 1)
    } else if k == 13 {
        (added_modifiers(from, to).has(Modifier::ITALIC), 3)
    } else if k == 14 {
        (added_modifiers(from, to).has(Modifier::UNDERLINED), 4)
    } else if k == 15 {
        (added_modifiers(from, to).has(Modifier::DIM) && !resets_intensity(from, to), 2)
    } else if k == 16 {
        (added_modifiers(from, to).has(Modifier::CROSSED_OUT), 9)
    } else if k == 17 {
        (added_modifiers(from, to).has(Modifier::HIDDEN), 8)
    } else if k == 18 {
        (added_modifiers(from, to).has(Modifier::SLOW_BLINK), 5)
    } else {
        (added_modifiers(from, to).has(Modifier::RAPID_BLINK), 6)
    }
}

/// The number of choices made while changing one set of modifiers into another.
pub open spec fn diff_step_count() -> nat {
    20
}

/// The codes chosen among the first `n` choices, in order.
pub open spec fn diff_codes_upto(from: Modifier, to: Modifier, n: nat) -> Seq<u8>
    decreases n,
{
    if n == 0 {
        Seq::<u8>::empty()
    } else {
        push_if(
            diff_codes_upto(from, to, (n - 1) as nat),
            diff_step(from, to, n - 1).0,
            diff_step(from, to, n - 1).1,
        )
    }
}

/// The SGR codes sent to change the modifiers `from` into `to`, in order.
pub open spec fn modifier_diff_codes(from: Modifier, to: Modifier) -> Seq<u8> {
    diff_codes_upto(from, to, diff_step_count())
}

/// The bytes sent to change the modifiers `from` into `to`.
pub open spec fn modifier_diff_sequence(from: Modifier, to: Modifier) -> Seq<u8> {
    sgr_all(modifier_diff_codes(from, to))
}

/// The difference between two sets of modifiers, which is sent as the SGR codes that turn the
/// first into the second, so that only the needed changes reach the terminal.
#[derive(Debug, Clone, Copy, PartialEq, Eq, Structural)]
pub struct ModifierDiff {
    pub from: Modifier,
    pub to: Modifier,
}

/// Appends `code` to `codes` when `cond` holds.
fn push_code_if(codes: &mut Vec<u8>, cond: bool, code: u8)
    ensures
        final(codes)@ == push_if(old(codes)@, cond, code),
{
    reveal(push_if);
    if cond {
        codes.push(code);
    }
}

impl ModifierDiff {
    /// The SGR codes that change the modifiers `from` into `to`, in the order they are sent.
    pub fn codes(self) -> (codes: Vec<u8>)
        ensures
            codes@ == modifier_diff_codes(self.from, self.to),
    {
        let from = self.from;
        let to = self.to;
        let removed = from.difference(to);
        let added = to.difference(from);
        let mut codes: Vec<u8> = Vec::new();
        assert(codes@ == diff_codes_upto(from, to, 0));

        push_code_if(&mut codes, removed.contains(Modifier { bits: Modifier::REVERSED }), 27);
        assert(codes@ == diff_codes_upto(from, to, 1));
        // Bold and dim are both switched off by one code, after which those that remain are
        // switched on again.
        let reset_intensity = removed.contains(Modifier { bits: Modifier::BOLD })
            || removed.contains(Modifier { bits: Modifier::DIM });
        push_code_if(&mut codes, reset_intensity, 22);
        assert(codes@ == diff_codes_upto(from, to, 2));
        push_code_if(
            &mut codes,
            reset_intensity && to.contains(Modifier { bits: Modifier::DIM }),
            2,
        );
        assert(codes@ == diff_codes_upto(from, to, 3));
        push_code_if(
            &mut codes,
            reset_intensity && to.contains(Modifier { bits: Modifier::BOLD }),
            1,
        );
        assert(codes@ == diff_codes_upto(from, to, 4));
        push_code_if(&mut codes, removed.contains(Modifier { bits: Modifier::ITALIC }), 23);
        assert(codes@ == diff_codes_upto(from, to, 5));
        push_code_if(&mut codes, removed.contains(Modifier { bits: Modifier::UNDERLINED }), 24);
        assert(codes@ == diff_codes_upto(from, to, 6));
        push_code_if(&mut codes, removed.contains(Modifier { bits: Modifier::CROSSED_OUT }), 29);
        assert(codes@ == diff_codes_upto(from, to, 7));
        push_code_if(&mut codes, removed.contains(Modifier { bits: Modifier::HIDDEN }), 28);
        assert(codes@ == diff_codes_upto(from, to, 8));
        // Both blinks are switched off by one code, after which a blink that stays is
        // switched on again.
        let reset_blink = removed.contains(Modifier { bits: Modifier::SLOW_BLINK })
            || removed.contains(Modifier { bits: Modifier::RAPID_BLINK });
        let kept = from.intersection(to);
        push_code_if(&mut codes, reset_blink, 25);
        assert(codes@ == diff_codes_upto(from, to, 9));
        push_code_if(
            &mut codes,
            reset_blink && kept.contains(Modifier { bits: Modifier::SLOW_BLINK }),
            5,
        );
        assert(codes@ == diff_codes_upto(from, to, 10));
        push_code_if(
            &mut codes,
            reset_blink && kept.contains(Modifier { bits: Modifier::RAPID_BLINK }),
            6,
        );
        assert(codes@ == diff_codes_upto(from, to, 11));

        push_code_if(&mut codes, added.contains(Modifier { bits: Modifier::REVERSED }), 7);
        assert(codes@ == diff_codes_upto(from, to, 12));
        push_code_if(
            &mut codes,
            added.contains(Modifier { bits: Modifier::BOLD }) && !reset_intensity,
            1,
        );
        assert(codes@ == diff_codes_upto(from, to, 13));
        push_code_if(&mut codes, added.contains(Modifier { bits: Modifier::ITALIC }), 3);
        assert(codes@ == diff_codes_upto(from, to, 14));
        push_code_if(&mut codes, added.contains(Modifier { bits: Modifier::UNDERLINED }), 4);
        assert(codes@ == diff_codes_upto(from, to, 15));
        push_code_if(
            &mut codes,
            added.contains(Modifier { bits: Modifier::DIM }) && !reset_intensity,
            2,
        );
        assert(codes@ == diff_codes_upto(from, to, 16));
        push_code_if(&mut codes, added.contains(Modifier { bits: Modifier::CROSSED_OUT }), 9);
        assert(codes@ == diff_codes_upto(from, to, 17));
        push_code_if(&mut codes, added.contains(Modifier { bits: Modifier::HIDDEN }), 8);
        assert(codes@ == diff_codes_upto(from, to, 18));
        push_code_if(&mut codes, added.contains(Modifier { bits: Modifier::SLOW_BLINK }), 5);
        assert(codes@ == diff_codes_upto(from, to, 19));
        push_code_if(&mut codes, added.contains(Modifier { bits: Modifier::RAPID_BLINK }), 6);
        assert(codes@ == diff_codes_upto(from, to, 20));
        codes
    }

    /// Appends the SGR sequences that change the modifiers `from` into `to`.
    pub fn queue(self, out: &mut Vec<u8>)
        ensures
            final(out)@ == old(out)@ + modifier_diff_sequence(self.from, self.to),
    {
        let codes = self.codes();
        let n = codes.len();
        assert(out@ =~= old(out)@ + sgr_all(codes@.take(0))) by {
            reveal(sgr_all);
        }
        for i in 0..n
            invariant
                n == codes@.len(),
                out@ == old(out)@ + sgr_all(codes@.take(i as int)),
        {
            push_sgr_code(out, codes[i]);
            proof {
                let t = codes@.take(i + 1);
                assert(t.drop_last() =~= codes@.take(i as int));
                reveal(sgr_all);
                assert(out@ =~= old(out)@ + sgr_all(t));
            }
        }
        assert(codes@.take(n as int) =~= codes@);
    }
}

/// What a terminal does to its modifiers on an SGR code: 0 switches every modifier off;
/// 1 to 9 switch on bold, dim, italic, underline, slow blink, rapid blink, reverse, hidden and
/// crossed out; 22 switches off bold and dim, 23 italic, 24 underline, 25 both blinks,
/// 27 reverse, 28 hidden and 29 crossed out. Other codes leave the modifiers alone.
pub open spec fn sgr_effect(m: u16, code: u8) -> u16 {
    if code == 0 {
        0
    } else if code == 1 {
        m | Modifier::BOLD
    } else if code == 2 {
        m | Modifier::DIM
    } else if code == 3 {
        m | Modifier::ITALIC
    } else if code == 4 {
        m | Modifier::UNDERLINED
    } else if code == 5 {
        m | Modifier::SLOW_BLINK
    } else if code == 6 {
        m | Modifier::RAPID_BLINK
    } else if code == 7 {
        m | Modifier::REVERSED
    } else if code == 8 {
        m | Modifier::HIDDEN
    } else if code == 9 {
        m | Modifier::CROSSED_OUT
    } else if code == 22 {
        m & !(Modifier::BOLD | Modifier::DIM)
    } else if code == 23 {
        m & !Modifier::ITALIC
    } else if code == 24 {
        m & !Modifier::UNDERLINED
    } else if code == 25 {
        m & !(Modifier::SLOW_BLINK | Modifier::RAPID_BLINK)
    } else if code == 27 {
        m & !Modifier::REVERSED
    } else if code == 28 {
        m & !Modifier::HIDDEN
    } else if code == 29 {
        m & !Modifier::CROSSED_OUT
    } else {
        m
    }
}

/// The modifiers a terminal shows after it receives the codes, one after the other.
#[verifier::opaque]
pub open spec fn apply_sgr_codes(m: u16, codes: Seq<u8>) -> u16
    decreases codes.len(),
{
    if codes.len() == 0 {
        m
    } else {
        sgr_effect(apply_sgr_codes(m, codes.drop_last()), codes.last())
    }
}

/// Appending a code that was chosen applies its effect last.
proof fn lemma_apply_push_if(m: u16, codes: Seq<u8>, cond: bool, code: u8)
    ensures
        apply_sgr_codes(m, push_if(codes, cond, code)) == if cond {
            sgr_effect(apply_sgr_codes(m, codes), code)
        } else {
            apply_sgr_codes(m, codes)
        },
{
    reveal(push_if);
    reveal(apply_sgr_codes);
    if cond {
        assert(codes.push(code).drop_last() =~= codes);
    }
}
/// The modifiers a terminal shows after the codes chosen among the first `n` choices of the
/// change from `from` to `to`, when it showed `m` before them.
pub open spec fn diff_effect_upto(from: Modifier, to: Modifier, m: u16, n: nat) -> u16
    decreases n,
{
    if n == 0 {
        m
    } else {
        let before = diff_effect_upto(from, to, m, (n - 1) as nat);
        if diff_step(from, to, n - 1).0 {
            sgr_effect(before, diff_step(from, to, n - 1).1)
        } else {
            before
        }
    }
}

/// Receiving the codes chosen among the first `n` choices has the effect of those choices.
proof fn lemma_apply_diff_codes(from: Modifier, to: Modifier, m: u16, n: nat)
    ensures
        apply_sgr_codes(m, diff_codes_upto(from, to, n)) == diff_effect_upto(from, to, m, n),
    decreases n,
{
    if n == 0 {
        reveal(apply_sgr_codes);
    } else {
        lemma_apply_diff_codes(from, to, m, (n - 1) as nat);
        lemma_apply_push_if(
            m,
            diff_codes_upto(from, to, (n - 1) as nat),
            diff_step(from, to, n - 1).0,
            diff_step(from, to, n - 1).1,
        );
    }
}

/// The effect of all the choices is the named modifiers of `to`.
proof fn lemma_diff_effect(from: Modifier, to: Modifier)
    ensures
        diff_effect_upto(from, to, from.known(), diff_step_count()) == to.known(),
{
    let f = from.bits;
    let t = to.bits;
    let r = f & !t;
    let a = t & !f;
    let k = f & t;
    let ri = resets_intensity(from, to);
    let rb = resets_blink(from, to);
    assert(Modifier::BOLD | Modifier::DIM == 3u16 && Modifier::SLOW_BLINK | Modifier::RAPID_BLINK
        == 48u16) by (bit_vector);
    let m0 = from.known();
    assert(diff_effect_upto(from, to, m0, 0) == m0);
    let m1 = diff_effect_upto(from, to, m0, 1);
    assert(m1 == if (r & 64u16 == 64u16) { m0 & !64u16 } else { m0 });
    let m2 = diff_effect_upto(from, to, m0, 2);
    assert(m2 == if ri { m1 & !3u16 } else { m1 });
    let m3 = diff_effect_upto(from, to, m0, 3);
    assert(m3 == if (ri && (t & 2u16 == 2u16)) { m2 | 2u16 } else { m2 });
    let m4 = diff_effect_upto(from, to, m0, 4);
    assert(m4 == if (ri && (t & 1u16 == 1u16)) { m3 | 1u16 } else { m3 });
    let m5 = diff_effect_upto(from, to, m0, 5);
    assert(m5 == if (r & 4u16 == 4u16) { m4 & !4u16 } else { m4 });
    let m6 = diff_effect_upto(from, to, m0, 6);
    assert(m6 == if (r & 8u16 == 8u16) { m5 & !8u16 } else { m5 });
    let m7 = diff_effect_upto(from, to, m0, 7);
    assert(m7 == if (r & 256u16 == 256u16) { m6 & !256u16 } else { m6 });
    let m8 = diff_effect_upto(from, to, m0, 8);
    assert(m8 == if (r & 128u16 == 128u16) { m7 & !128u16 } else { m7 });
    let m9 = diff_effect_upto(from, to, m0, 9);
    assert(m9 == if rb { m8 & !48u16 } else { m8 });
    let m10 = diff_effect_upto(from, to, m0, 10);
    assert(m10 == if (rb && (k & 16u16 == 16u16)) { m9 | 16u16 } else { m9 });
    let m11 = diff_effect_upto(from, to, m0, 11);
    assert(m11 == if (rb && (k & 32u16 == 32u16)) { m10 | 32u16 } else { m10 });
    let m12 = diff_effect_upto(from, to, m0, 12);
    assert(m12 == if (a & 64u16 == 64u16) { m11 | 64u16 } else { m11 });
    let m13 = diff_effect_upto(from, to, m0, 13);
    assert(m13 == if ((a & 1u16 == 1u16) && !ri) { m12 | 1u16 } else { m12 });
    let m14 = diff_effect_upto(from, to, m0, 14);
    assert(m14 == if (a & 4u16 == 4u16) { m13 | 4u16 } else { m13 });
    let m15 = diff_effect_upto(from, to, m0, 15);
    assert(m15 == if (a & 8u16 == 8u16) { m14 | 8u16 } else { m14 });
    let m16 = diff_effect_upto(from, to, m0, 16);
    assert(m16 == if ((a & 2u16 == 2u16) && !ri) { m15 | 2u16 } else { m15 });
    let m17 = diff_effect_upto(from, to, m0, 17);
    assert(m17 == if (a & 256u16 == 256u16) { m16 | 256u16 } else { m16 });
    let m18 = diff_effect_upto(from, to, m0, 18);
    assert(m18 == if (a & 128u16 == 128u16) { m17 | 128u16 } else { m17 });
    let m19 = diff_effect_upto(from, to, m0, 19);
    assert(m19 == if (a & 16u16 == 16u16) { m18 | 16u16 } else { m18 });
    let m20 = diff_effect_upto(from, to, m0, 20);
    assert(m20 == if (a & 32u16 == 32u16) { m19 | 32u16 } else { m19 });
    assert(m20 == t & 0x1ffu16) by (bit_vector)
        requires
            r == f & !t,
            a == t & !f,
            k == f & t,
            ri == ((r & 1u16 == 1u16) || (r & 2u16 == 2u16)),
            rb == ((r & 16u16 == 16u16) || (r & 32u16 == 32u16)),
            m0 == f & 0x1ffu16,
            m1 == if (r & 64u16 == 64u16) { m0 & !64u16 } else { m0 },
            m2 == if ri { m1 & !3u16 } else { m1 },
            m3 == if (ri && (t & 2u16 == 2u16)) { m2 | 2u16 } else { m2 },
            m4 == if (ri && (t & 1u16 == 1u16)) { m3 | 1u16 } else { m3 },
            m5 == if (r & 4u16 == 4u16) { m4 & !4u16 } else { m4 },
            m6 == if (r & 8u16 == 8u16) { m5 & !8u16 } else { m5 },
            m7 == if (r & 256u16 == 256u16) { m6 & !256u16 } else { m6 },
            m8 == if (r & 128u16 == 128u16) { m7 & !128u16 } else { m7 },
            m9 == if rb { m8 & !48u16 } else { m8 },
            m10 == if (rb && (k & 16u16 == 16u16)) { m9 | 16u16 } else { m9 },
            m11 == if (rb && (k & 32u16 == 32u16)) { m10 | 32u16 } else { m10 },
            m12 == if (a & 64u16 == 64u16) { m11 | 64u16 } else { m11 },
            m13 == if ((a & 1u16 == 1u16) && !ri) { m12 | 1u16 } else { m12 },
            m14 == if (a & 4u16 == 4u16) { m13 | 4u16 } else { m13 },
            m15 == if (a & 8u16 == 8u16) { m14 | 8u16 } else { m14 },
            m16 == if ((a & 2u16 == 2u16) && !ri) { m15 | 2u16 } else { m15 },
            m17 == if (a & 256u16 == 256u16) { m16 | 256u16 } else { m16 },
            m18 == if (a & 128u16 == 128u16) { m17 | 128u16 } else { m17 },
            m19 == if (a & 16u16 == 16u16) { m18 | 16u16 } else { m18 },
            m20 == if (a & 32u16 == 32u16) { m19 | 32u16 } else { m19 },
    ;
}

/// No choice among the first `n` sends a code, so none is sent.
proof fn lemma_no_codes_upto(from: Modifier, to: Modifier, n: nat)
    requires
        forall|k: int| 0 <= k < n ==> !(#[trigger] diff_step(from, to, k)).0,
    ensures
        diff_codes_upto(from, to, n) == Seq::<u8>::empty(),
    decreases n,
{
    reveal(push_if);
    if n > 0 {
        lemma_no_codes_upto(from, to, (n - 1) as nat);
        assert(!diff_step(from, to, n - 1).0);
    }
}

/// Changing a set of modifiers into itself sends no code: only the changes reach the terminal.
pub proof fn lemma_modifier_diff_unchanged(m: Modifier)
    ensures
        modifier_diff_codes(m, m) == Seq::<u8>::empty(),
{
    let b = m.bits;
    assert(b & !b == 0u16) by (bit_vector);
    let none = Modifier { bits: 0 };
    assert(removed_modifiers(m, m) == none);
    assert(added_modifiers(m, m) == none);
    let z: u16 = 0;
    assert(z & 1 != 1 && z & 2 != 2 && z & 4 != 4 && z & 8 != 8 && z & 16 != 16 && z & 32 != 32
        && z & 64 != 64 && z & 128 != 128 && z & 256 != 256) by (bit_vector)
        requires
            z == 0,
    ;
    assert forall|k: int| 0 <= k < diff_step_count() implies !(#[trigger] diff_step(m, m, k)).0 by {}
    lemma_no_codes_upto(m, m, diff_step_count());
}

/// Whether choice `k` sends the code `c`.
pub open spec fn step_sends(from: Modifier, to: Modifier, k: int, c: u8) -> bool {
    diff_step(from, to, k).0 && diff_step(from, to, k).1 == c
}

/// No two choices of a change send the same code: the choices that share a code exclude each
/// other (bold or dim switched on again after the intensity reset, or as added; a blink
/// switched on again because it stays, or as added).
proof fn lemma_steps_distinct(from: Modifier, to: Modifier)
    ensures
        forall|j: int, k: int, c: u8|
            0 <= j < k < diff_step_count() && #[trigger] step_sends(from, to, j, c)
                && #[trigger] step_sends(from, to, k, c) ==> false,
{
    let f = from.bits;
    let t = to.bits;
    assert(!(((f & t) & 16u16 == 16u16) && ((t & !f) & 16u16 == 16u16))) by (bit_vector);
    assert(!(((f & t) & 32u16 == 32u16) && ((t & !f) & 32u16 == 32u16))) by (bit_vector);
    assert forall|j: int, k: int, c: u8|
        0 <= j < k < diff_step_count() && #[trigger] step_sends(from, to, j, c)
            && #[trigger] step_sends(from, to, k, c) implies false by {}
}

/// The codes chosen among the first `n` choices: none is sent again by a later choice, and
/// none is sent twice.
proof fn lemma_codes_upto_distinct(from: Modifier, to: Modifier, n: nat)
    requires
        n <= diff_step_count(),
    ensures
        forall|i: int, k: int|
            0 <= i < diff_codes_upto(from, to, n).len() && n <= k < diff_step_count()
                ==> !#[trigger] step_sends(from, to, k, diff_codes_upto(from, to, n)[i]),
        diff_codes_upto(from, to, n).no_duplicates(),
    decreases n,
{
    reveal(push_if);
    lemma_steps_distinct(from, to);
    if n > 0 {
        let m = (n - 1) as nat;
        lemma_codes_upto_distinct(from, to, m);
        let prev = diff_codes_upto(from, to, m);
        let cur = diff_codes_upto(from, to, n);
        let code = diff_step(from, to, m as int).1;
        if diff_step(from, to, m as int).0 {
            assert(cur == prev.push(code));
            assert(step_sends(from, to, m as int, code));
            assert forall|i: int| 0 <= i < prev.len() implies prev[i] != code by {
                assert(!step_sends(from, to, m as int, prev[i]));
            }
            assert forall|i: int, k: int|
                0 <= i < cur.len() && n <= k < diff_step_count() implies !#[trigger] step_sends(
                from,
                to,
                k,
                cur[i],
            ) by {
                if i < prev.len() {
                    assert(cur[i] == prev[i]);
                    assert(!step_sends(from, to, k, prev[i]));
                } else {
                    assert(cur[i] == code);
                    if step_sends(from, to, k, code) {
                        assert(step_sends(from, to, m as int, code));
                    }
                }
            }
            assert forall|i: int, j: int| 0 <= i < cur.len() && 0 <= j < cur.len() && i != j
                implies cur[i] != cur[j] by {
                if i < prev.len() && j < prev.len() {
                    assert(cur[i] == prev[i] && cur[j] == prev[j]);
                } else if i < prev.len() {
                    assert(cur[j] == code && cur[i] == prev[i]);
                } else {
                    assert(cur[i] == code && cur[j] == prev[j]);
                }
            }
        } else {
            assert(cur == prev);
        }
    }
}

/// No code is sent twice in one change of modifiers.
pub proof fn lemma_modifier_diff_no_repeats(from: Modifier, to: Modifier)
    ensures
        modifier_diff_codes(from, to).no_duplicates(),
{
    lemma_codes_upto_distinct(from, to, diff_step_count());
}

/// Every choice that sends a code among the first `n` has its code among the codes chosen, and
/// every code chosen switches a modifier on (1 to 9) or off (22 to 25, 27 to 29).
proof fn lemma_codes_upto_members(from: Modifier, to: Modifier, n: nat)
    ensures
        forall|k: int|
            0 <= k < n && (#[trigger] diff_step(from, to, k)).0 ==> diff_codes_upto(
                from,
                to,
                n,
            ).contains(diff_step(from, to, k).1),
        forall|i: int|
            0 <= i < diff_codes_upto(from, to, n).len() ==> {
                let c = #[trigger] diff_codes_upto(from, to, n)[i];
                (1 <= c <= 9 || 22 <= c <= 25 || 27 <= c <= 29)
            },
    decreases n,
{
    reveal(push_if);
    if n > 0 {
        let m = (n - 1) as nat;
        lemma_codes_upto_members(from, to, m);
        let prev = diff_codes_upto(from, to, m);
        let cur = diff_codes_upto(from, to, n);
        let code = diff_step(from, to, m as int).1;
        if diff_step(from, to, m as int).0 {
            assert(cur == prev.push(code));
            assert(cur[prev.len() as int] == code);
            assert forall|k: int| 0 <= k < n && (#[trigger] diff_step(from, to, k)).0 implies cur.contains(
                diff_step(from, to, k).1,
            ) by {
                if k < m {
                    let j = choose|j: int| 0 <= j < prev.len() && prev[j] == diff_step(from, to, k).1;
                    assert(cur[j] == prev[j]);
                }
            }
            assert forall|i: int| 0 <= i < cur.len() implies {
                let c = #[trigger] cur[i];
                (1 <= c <= 9 || 22 <= c <= 25 || 27 <= c <= 29)
            } by {
                if i < prev.len() {
                    assert(cur[i] == prev[i]);
                }
            }
        } else {
            assert(cur == prev);
        }
    }
}

/// The codes of a change of modifiers only switch modifiers, each on its own: a modifier that
/// `from` has and `to` lacks is switched off by its own code (reverse 27, bold or dim 22,
/// italic 23, underline 24, crossed out 29, hidden 28, either blink 25), a modifier that `to`
/// has and `from` lacks is switched on by its own code (bold 1, dim 2, italic 3, underline 4,
/// slow blink 5, rapid blink 6, reverse 7, hidden 8, crossed out 9), and no code is anything
/// else: none resets everything (0) or touches a color.
pub proof fn lemma_modifier_diff_codes_switch_modifiers(from: Modifier, to: Modifier)
    ensures
        ({
            let codes = modifier_diff_codes(from, to);
            let off = |flag: u16| from.has(flag) && !to.has(flag);
            let on = |flag: u16| to.has(flag) && !from.has(flag);
            &&& forall|i: int|
                0 <= i < codes.len() ==> {
                    let c = #[trigger] codes[i];
                    (1 <= c <= 9 || 22 <= c <= 25 || 27 <= c <= 29)
                }
            &&& off(Modifier::REVERSED) ==> codes.contains(27)
            &&& off(Modifier::BOLD) || off(Modifier::DIM) ==> codes.contains(22)
            &&& off(Modifier::ITALIC) ==> codes.contains(23)
            &&& off(Modifier::UNDERLINED) ==> codes.contains(24)
            &&& off(Modifier::CROSSED_OUT) ==> codes.contains(29)
            &&& off(Modifier::HIDDEN) ==> codes.contains(28)
            &&& off(Modifier::SLOW_BLINK) || off(Modifier::RAPID_BLINK) ==> codes.contains(25)
            &&& on(Modifier::BOLD) ==> codes.contains(1)
            &&& on(Modifier::DIM) ==> codes.contains(2)
            &&& on(Modifier::ITALIC) ==> codes.contains(3)
            &&& on(Modifier::UNDERLINED) ==> codes.contains(4)
            &&& on(Modifier::SLOW_BLINK) ==> codes.contains(5)
            &&& on(Modifier::RAPID_BLINK) ==> codes.contains(6)
            &&& on(Modifier::REVERSED) ==> codes.contains(7)
            &&& on(Modifier::HIDDEN) ==> codes.contains(8)
            &&& on(Modifier::CROSSED_OUT) ==> codes.contains(9)
        }),
{
    lemma_codes_upto_members(from, to, diff_step_count());
    let f = from.bits;
    let t = to.bits;
    assert({
        &&& (((f & !t) & 1u16 == 1u16) == ((f & 1u16 == 1u16) && !(t & 1u16 == 1u16)))
        &&& (((f & !t) & 2u16 == 2u16) == ((f & 2u16 == 2u16) && !(t & 2u16 == 2u16)))
        &&& (((f & !t) & 4u16 == 4u16) == ((f & 4u16 == 4u16) && !(t & 4u16 == 4u16)))
        &&& (((f & !t) & 8u16 == 8u16) == ((f & 8u16 == 8u16) && !(t & 8u16 == 8u16)))
        &&& (((f & !t) & 16u16 == 16u16) == ((f & 16u16 == 16u16) && !(t & 16u16 == 16u16)))
        &&& (((f & !t) & 32u16 == 32u16) == ((f & 32u16 == 32u16) && !(t & 32u16 == 32u16)))
        &&& (((f & !t) & 64u16 == 64u16) == ((f & 64u16 == 64u16) && !(t & 64u16 == 64u16)))
        &&& (((f & !t) & 128u16 == 128u16) == ((f & 128u16 == 128u16) && !(t & 128u16 == 128u16)))
        &&& (((f & !t) & 256u16 == 256u16) == ((f & 256u16 == 256u16) && !(t & 256u16 == 256u16)))
        &&& (((t & !f) & 1u16 == 1u16) == ((t & 1u16 == 1u16) && !(f & 1u16 == 1u16)))
        &&& (((t & !f) & 2u16 == 2u16) == ((t & 2u16 == 2u16) && !(f & 2u16 == 2u16)))
        &&& (((t & !f) & 4u16 == 4u16) == ((t & 4u16 == 4u16) && !(f & 4u16 == 4u16)))
        &&& (((t & !f) & 8u16 == 8u16) == ((t & 8u16 == 8u16) && !(f & 8u16 == 8u16)))
        &&& (((t & !f) & 16u16 == 16u16) == ((t & 16u16 == 16u16) && !(f & 16u16 == 16u16)))
        &&& (((t & !f) & 32u16 == 32u16) == ((t & 32u16 == 32u16) && !(f & 32u16 == 32u16)))
        &&& (((t & !f) & 64u16 == 64u16) == ((t & 64u16 == 64u16) && !(f & 64u16 == 64u16)))
        &&& (((t & !f) & 128u16 == 128u16) == ((t & 128u16 == 128u16) && !(f & 128u16 == 128u16)))
        &&& (((t & !f) & 256u16 == 256u16) == ((t & 256u16 == 256u16) && !(f & 256u16 == 256u16)))
    }) by (bit_vector);
    let s0 = diff_step(from, to, 0);
    let s1 = diff_step(from, to, 1);
    let s2 = diff_step(from, to, 2);
    let s3 = diff_step(from, to, 3);
    let s4 = diff_step(from, to, 4);
    let s5 = diff_step(from, to, 5);
    let s6 = diff_step(from, to, 6);
    let s7 = diff_step(from, to, 7);
    let s8 = diff_step(from, to, 8);
    let s11 = diff_step(from, to, 11);
    let s12 = diff_step(from, to, 12);
    let s13 = diff_step(from, to, 13);
    let s14 = diff_step(from, to, 14);
    let s15 = diff_step(from, to, 15);
    let s16 = diff_step(from, to, 16);
    let s17 = diff_step(from, to, 17);
    let s18 = diff_step(from, to, 18);
    let s19 = diff_step(from, to, 19);
}

/// A terminal that shows the named modifiers of `from` and receives the codes of the change
/// from `from` to `to` then shows the named modifiers of `to`.
pub proof fn lemma_modifier_diff_effect(from: Modifier, to: Modifier)
    ensures
        apply_sgr_codes(from.known(), modifier_diff_codes(from, to)) == to.known(),
{
    lemma_apply_diff_codes(from, to, from.known(), diff_step_count());
    lemma_diff_effect(from, to);
}

} // verus!
