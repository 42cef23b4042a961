//! A string descriptor's payload decodes back to the text it was written
//! from: UTF-16, little-endian.
use vstd::prelude::*;

use crate::ch9_core::{spec_decode_utf16, spec_le_units};

verus! {

/// The UTF-16 units of a character: itself below `0x10000`, else a high and
/// a low surrogate.
pub open spec fn utf16_units(c: char) -> Seq<u16> {
    let v = c as u32;
    if v < 0x10000 {
        seq![v as u16]
    } else {
        seq![(0xD800 + (v - 0x10000) / 0x400) as u16, (0xDC00 + (v - 0x10000) % 0x400) as u16]
    }
}

/// The UTF-16 units of a text.
pub open spec fn utf16_of(s: Seq<char>) -> Seq<u16>
    decreases s.len(),
{
    if s.len() == 0 {
        seq![]
    } else {
        utf16_units(s[0]) + utf16_of(s.drop_first())
    }
}

/// Units written little-endian, two bytes each.
pub open spec fn le_bytes(units: Seq<u16>) -> Seq<u8>
    decreases units.len(),
{
    if units.len() == 0 {
        seq![]
    } else {
        seq![(units[0] % 256) as u8, (units[0] / 256) as u8] + le_bytes(units.drop_first())
    }
}

proof fn lemma_le_bytes(units: Seq<u16>)
    ensures
        le_bytes(units).len() == 2 * units.len(),
        forall|i: int|
            0 <= i < units.len() ==> le_bytes(units)[2 * i] == (#[trigger] units[i] % 256) as u8
                && le_bytes(units)[2 * i + 1] == (units[i] / 256) as u8,
    decreases units.len(),
{
    if units.len() > 0 {
        let rest = units.drop_first();
        lemma_le_bytes(rest);
        let b = le_bytes(units);
        assert forall|i: int| 0 <= i < units.len() implies b[2 * i] == (#[trigger] units[i] % 256) as u8
            && b[2 * i + 1] == (units[i] / 256) as u8 by {
            if i > 0 {
                assert(units[i] == rest[i - 1]);
                assert(b[2 * i] == le_bytes(rest)[2 * (i - 1)]);
                assert(b[2 * i + 1] == le_bytes(rest)[2 * (i - 1) + 1]);
            }
        }
    }
}

/// Reading little-endian units back from their bytes gives the units.
pub proof fn le_units_read_back(units: Seq<u16>)
    ensures
        spec_le_units(le_bytes(units)) == units,
{
    lemma_le_bytes(units);
    let b = le_bytes(units);
    assert forall|i: int| 0 <= i < units.len() implies #[trigger] spec_le_units(b)[i] == units[i] by {
        let lo = b[2 * i];
        let hi = b[2 * i + 1];
        assert(lo == (units[i] % 256) as u8);
        assert(hi == (units[i] / 256) as u8);
    }
    assert(spec_le_units(b) =~= units);
}

proof fn lemma_decode_prefix(c: char, rest: Seq<u16>)
    ensures
        spec_decode_utf16(utf16_units(c) + rest) == seq![Ok::<char, u16>(c)] + spec_decode_utf16(rest),
{
    let u = utf16_units(c) + rest;
    let v = c as u32;
    if v < 0x10000 {
        assert(u.drop_first() =~= rest);
        assert(((v as u16) as u32) as char == c);
    } else {
        let hi = (0xD800 + (v - 0x10000) / 0x400) as u16;
        let lo = (0xDC00 + (v - 0x10000) % 0x400) as u16;
        assert(u[0] == hi && u[1] == lo);
        assert(u.subrange(2, u.len() as int) =~= rest);
        assert((0x10000 + (hi as int - 0xD800) * 0x400 + (lo as int - 0xDC00)) == v);
        assert(((0x10000 + (hi as int - 0xD800) * 0x400 + (lo as int - 0xDC00)) as u32) as char == c);
    }
}

/// Decoding the UTF-16 units of a text gives its characters back, each as
/// a character (no unpaired surrogates).
pub proof fn utf16_decodes_back(s: Seq<char>)
    ensures
        spec_decode_utf16(utf16_of(s)) == s.map_values(|c: char| Ok::<char, u16>(c)),
    decreases s.len(),
{
    if s.len() == 0 {
        assert(spec_decode_utf16(utf16_of(s)) =~= s.map_values(|c: char| Ok::<char, u16>(c)));
    } else {
        utf16_decodes_back(s.drop_first());
        lemma_decode_prefix(s[0], utf16_of(s.drop_first()));
        assert(spec_decode_utf16(utf16_of(s)) =~= s.map_values(|c: char| Ok::<char, u16>(c)));
    }
}

/// A string descriptor whose payload is a text written as UTF-16,
/// little-endian, decodes to that text: `payload` gives each character of it,
/// in order.
pub proof fn string_payload_decodes_back(s: Seq<char>)
    ensures
        spec_decode_utf16(spec_le_units(le_bytes(utf16_of(s)))) == s.map_values(
            |c: char| Ok::<char, u16>(c),
        ),
{
    le_units_read_back(utf16_of(s));
    utf16_decodes_back(s);
}

} // verus!
