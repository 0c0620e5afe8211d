//! UTF-16: how text is encoded in 16-bit units, and how a sequence of units
//! decodes, with U+FFFD for each unpaired surrogate.

use vstd::prelude::*;
use vstd::utf8::{char_is_scalar, char_u32_cast, is_scalar};

verus! {

/// Whether `u` is a surrogate, half of an encoded character above U+FFFF.
pub open spec fn is_surrogate(u: u16) -> bool {
    0xd800 <= u <= 0xdfff
}

/// Whether `u` is a leading (high) surrogate.
pub open spec fn is_high_surrogate(u: u16) -> bool {
    0xd800 <= u <= 0xdbff
}

/// Whether `u` is a trailing (low) surrogate.
pub open spec fn is_low_surrogate(u: u16) -> bool {
    0xdc00 <= u <= 0xdfff
}

/// The character that the surrogate pair `hi`, `lo` encodes.
pub open spec fn pair_char(hi: u16, lo: u16) -> char {
    ((0x10000 + (hi - 0xd800) * 0x400 + (lo - 0xdc00)) as u32) as char
}

/// The replacement character U+FFFD.
pub open spec fn replacement() -> char {
    '\u{fffd}'
}

/// The text that the units `u` encode: a unit that is no surrogate is a
/// character of its own, a high surrogate followed by a low one is one
/// character, and every other surrogate becomes U+FFFD (a high surrogate
/// not followed by a low one takes only itself).
pub open spec fn utf16_decode(u: Seq<u16>) -> Seq<char>
    decreases u.len(),
{
    if u.len() == 0 {
        Seq::empty()
    } else if !is_surrogate(u[0]) {
        seq![(u[0] as u32) as char] + utf16_decode(u.drop_first())
    } else if is_high_surrogate(u[0]) && u.len() >= 2 && is_low_surrogate(u[1]) {
        seq![pair_char(u[0], u[1])] + utf16_decode(u.skip(2))
    } else {
        seq![replacement()] + utf16_decode(u.drop_first())
    }
}

/// The UTF-16 units of one character: itself below U+10000, else a pair of
/// surrogates.
pub open spec fn char_units(c: char) -> Seq<u16> {
    let v = c as u32;
    if v < 0x10000 {
        seq![v as u16]
    } else {
        seq![(0xd800 + (v - 0x10000) / 0x400) as u16, (0xdc00 + (v - 0x10000) % 0x400) as u16]
    }
}

/// The UTF-16 encoding of `s`, as `str::encode_utf16` yields it.
pub open spec fn utf16_encode(s: Seq<char>) -> Seq<u16>
    decreases s.len(),
{
    if s.len() == 0 {
        Seq::empty()
    } else {
        char_units(s[0]) + utf16_encode(s.drop_first())
    }
}

proof fn lemma_decode_char(c: char, rest: Seq<u16>)
    ensures
        utf16_decode(char_units(c) + rest) == seq![c] + utf16_decode(rest),
{
    broadcast use char_is_scalar, char_u32_cast;

    let v = c as u32;
    assert(is_scalar(v));
    let u = char_units(c) + rest;
    if v < 0x10000 {
        assert(u[0] == v as u16);
        assert(u.drop_first() =~= rest);
        assert((u[0] as u32) == v);
    } else {
        let w = v - 0x10000;
        let hi = (0xd800 + w / 0x400) as u16;
        let lo = (0xdc00 + w % 0x400) as u16;
        assert(0 <= w / 0x400 < 0x400 && 0 <= w % 0x400 < 0x400) by (nonlinear_arith)
            requires
                0 <= w <= 0xfffff,
        ;
        assert(w == (w / 0x400) * 0x400 + w % 0x400) by (nonlinear_arith)
            requires
                0 <= w,
        ;
        assert(u[0] == hi && u[1] == lo);
        assert(u.skip(2) =~= rest);
        assert((0x10000 + (hi - 0xd800) * 0x400 + (lo - 0xdc00)) == v);
    }
}

/// Decoding undoes encoding: every text comes back from its UTF-16 units.
pub proof fn lemma_utf16_roundtrip(s: Seq<char>)
    ensures
        utf16_decode(utf16_encode(s)) == s,
    decreases s.len(),
{
    if s.len() > 0 {
        lemma_decode_char(s[0], utf16_encode(s.drop_first()));
        lemma_utf16_roundtrip(s.drop_first());
        assert(seq![s[0]] + s.drop_first() =~= s);
    }
}

} // verus!
