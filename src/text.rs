use vstd::prelude::*;

use encoding::all::UTF_16LE;
use encoding::{EncoderTrap, Encoding};

verus! {

/// The UTF-16 code units of one character: itself below U+10000, else a surrogate pair.
pub open spec fn char_units(c: char) -> Seq<u16> {
    let v = c as u32;
    if v < 0x10000 {
        seq![v as u16]
    } else {
        let w = v - 0x10000;
        seq![(0xD800 + w / 0x400) as u16, (0xDC00 + w % 0x400) as u16]
    }
}

/// The UTF-16 code units of a string.
pub open spec fn utf16_units(s: Seq<char>) -> Seq<u16>
    decreases s.len(),
{
    if s.len() == 0 {
        seq![]
    } else {
        char_units(s[0]) + utf16_units(s.drop_first())
    }
}

/// Code units laid out little-endian, two bytes each.
pub open spec fn units_le(u: Seq<u16>) -> Seq<u8>
    decreases u.len(),
{
    if u.len() == 0 {
        seq![]
    } else {
        seq![(u[0] & 0xff) as u8, (u[0] >> 8) as u8] + units_le(u.drop_first())
    }
}

/// UTF-16LE bytes of a string, without terminator.
pub open spec fn utf16le(s: Seq<char>) -> Seq<u8> {
    units_le(utf16_units(s))
}

/// The string that UTF-16 code units decode to: a high surrogate followed by a low one
/// gives one supplementary character, any other surrogate gives U+FFFD, and any other
/// unit gives the character with that value.
pub open spec fn decode_units(u: Seq<u16>) -> Seq<char>
    decreases u.len(),
{
    if u.len() == 0 {
        seq![]
    } else {
        let a = u[0] as u32;
        if 0xD800 <= a < 0xDC00 && u.len() >= 2 && 0xDC00 <= (u[1] as u32) < 0xE000 {
            let c = 0x10000 + (a - 0xD800) * 0x400 + ((u[1] as u32) - 0xDC00);
            seq![c as char] + decode_units(u.skip(2))
        } else if 0xD800 <= a < 0xE000 {
            seq!['\u{FFFD}'] + decode_units(u.skip(1))
        } else {
            seq![a as char] + decode_units(u.skip(1))
        }
    }
}

/// Relies on `encoding`'s UTF-16LE encoder: each character below U+10000 becomes its
/// code point, others a surrogate pair, each unit written low byte first. Strict
/// encoding never fails for this encoding, so the error arm is not taken.
#[verifier::external_body]
pub(crate) fn encode_utf16le(s: &str) -> (r: Vec<u8>)
    ensures
        r@ == utf16le(s@),
{
    match UTF_16LE.encode(s, EncoderTrap::Strict) {
        Ok(v) => v,
        Err(_) => Vec::new(),
    }
}

/// Relies on `String::from_utf16_lossy`: decodes UTF-16, putting U+FFFD in place of
/// each unpaired surrogate.
#[verifier::external_body]
pub(crate) fn decode_utf16(units: &[u16]) -> (r: String)
    ensures
        r@ == decode_units(units@),
{
    String::from_utf16_lossy(units)
}

/// No character of `s` is NUL.
pub open spec fn no_nul(s: Seq<char>) -> bool {
    forall|i: int| 0 <= i < s.len() ==> s[i] != '\0'
}

pub proof fn lemma_units_nonzero(s: Seq<char>)
    requires
        no_nul(s),
    ensures
        forall|i: int| 0 <= i < utf16_units(s).len() ==> utf16_units(s)[i] != 0,
    decreases s.len(),
{
    if s.len() > 0 {
        let c = s[0];
        assert(c != '\0');
        vstd::utf8::char_is_scalar(c);
        assert('\0' as u32 == 0);
        vstd::utf8::char_u32_cast('\0', 0);
        vstd::utf8::char_u32_cast(c, c as u32);
        assert((c as u32) != 0);
        assert(no_nul(s.drop_first())) by {
            assert forall|i: int| 0 <= i < s.drop_first().len() implies s.drop_first()[i] != '\0' by {
                assert(s.drop_first()[i] == s[i + 1]);
            }
        }
        lemma_units_nonzero(s.drop_first());
        let cu = char_units(c);
        let rest = utf16_units(s.drop_first());
        assert(utf16_units(s) == cu + rest);
        assert((c as u32) <= 0x10FFFF);
        assert(forall|k: int| 0 <= k < cu.len() ==> cu[k] != 0) by {
            let v = c as u32;
            if v >= 0x10000 {
                let w = v - 0x10000;
                assert(0 <= w / 0x400 < 0x400);
                assert(0 <= w % 0x400 < 0x400);
            }
        }
        assert forall|i: int| 0 <= i < utf16_units(s).len() implies utf16_units(s)[i] != 0 by {
            if i < cu.len() {
                assert(utf16_units(s)[i] == cu[i]);
            } else {
                assert(utf16_units(s)[i] == rest[i - cu.len()]);
            }
        }
    }
}

/// Decoding the UTF-16 units of a string gives the string back.
pub proof fn lemma_decode_units(s: Seq<char>)
    ensures
        decode_units(utf16_units(s)) == s,
    decreases s.len(),
{
    if s.len() > 0 {
        let c = s[0];
        let t = s.drop_first();
        lemma_decode_units(t);
        let cu = char_units(c);
        let u = utf16_units(s);
        assert(u == cu + utf16_units(t));
        vstd::utf8::char_is_scalar(c);
        vstd::utf8::char_u32_cast(c, c as u32);
        let v = c as u32;
        if v < 0x10000 {
            assert(v < 0xD800 || v >= 0xE000);
            assert((v as u16) as u32 == v);
            assert(u.skip(1) =~= utf16_units(t));
        } else {
            let w = v - 0x10000;
            let hi = (0xD800 + w / 0x400) as u16;
            let lo = (0xDC00 + w % 0x400) as u16;
            assert(0 <= w < 0x100000);
            assert(0 <= w / 0x400 < 0x400);
            assert(0 <= w % 0x400 < 0x400);
            assert(w == 0x400 * (w / 0x400) + w % 0x400);
            assert(u[0] == hi && u[1] == lo);
            assert(0x10000 + ((hi as u32) - 0xD800) * 0x400 + ((lo as u32) - 0xDC00) == v);
            assert(u.skip(2) =~= utf16_units(t));
        }
        assert(seq![c] + t =~= s);
    }
}

pub proof fn lemma_units_le_len(u: Seq<u16>)
    ensures
        units_le(u).len() == 2 * u.len(),
    decreases u.len(),
{
    if u.len() > 0 {
        lemma_units_le_len(u.drop_first());
    }
}

} // verus!
