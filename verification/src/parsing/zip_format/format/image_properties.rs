//! Text decoding for `ImageProperties.json`, which is typically UTF-16LE
//! with a byte order mark.

use vstd::prelude::*;

use crate::text::{lemma_utf16_round_trip, utf16_decode, utf16_encode, utf16_string, utf8_string};

verus! {

/// The bytes of `s` paired into UTF-16 code units, a trailing odd byte
/// dropped.
pub open spec fn utf16_units(s: Seq<u8>, big_endian: bool) -> Seq<u16> {
    Seq::new(
        s.len() / 2,
        |i: int|
            if big_endian {
                (256 * s[2 * i] as int + s[2 * i + 1] as int) as u16
            } else {
                (s[2 * i] as int + 256 * s[2 * i + 1] as int) as u16
            },
    )
}

/// The text that a file's bytes hold: UTF-16 little-endian after a
/// FF FE byte order mark, big-endian after FE FF, else UTF-8.
pub open spec fn spec_decode_text(bytes: Seq<u8>) -> Option<Seq<char>> {
    if bytes.len() >= 2 && bytes[0] == 0xFF && bytes[1] == 0xFE {
        utf16_decode(utf16_units(bytes.skip(2), false))
    } else if bytes.len() >= 2 && bytes[0] == 0xFE && bytes[1] == 0xFF {
        utf16_decode(utf16_units(bytes.skip(2), true))
    } else if vstd::utf8::valid_utf8(bytes) {
        Some(vstd::utf8::decode_utf8(bytes))
    } else {
        None
    }
}

/// Pairs the bytes after the byte order mark into code units.
fn units_after_mark(bytes: &[u8], big_endian: bool) -> (r: Vec<u16>)
    requires
        bytes@.len() >= 2,
    ensures
        r@ == utf16_units(bytes@.skip(2), big_endian),
{
    let count = (bytes.len() - 2) / 2;
    let mut units: Vec<u16> = Vec::with_capacity(count);
    let mut i: usize = 0;
    while i < count
        invariant
            count == (bytes@.len() - 2) / 2,
            bytes@.len() == bytes.len(),
            bytes@.len() >= 2,
            i <= count,
            units@ =~= utf16_units(bytes@.skip(2), big_endian).take(i as int),
        decreases count - i,
    {
        assert(3 + 2 * i < bytes.len());
        let first = bytes[2 + 2 * i] as u16;
        let second = bytes[3 + 2 * i] as u16;
        let unit = if big_endian {
            256 * first + second
        } else {
            first + 256 * second
        };
        units.push(unit);
        i += 1;
    }
    proof {
        assert(utf16_units(bytes@.skip(2), big_endian).take(count as int) =~= utf16_units(bytes@.skip(2), big_endian));
    }
    units
}

/// Decodes a file's bytes to text: `ImageProperties.json` is typically
/// UTF-16LE with a BOM. See `spec_decode_text`.
pub fn decode_text(bytes: &[u8]) -> (r: Option<String>)
    ensures
        match r {
            Some(text) => spec_decode_text(bytes@) == Some(text@),
            None => spec_decode_text(bytes@) is None,
        },
{
    if bytes.len() >= 2 && bytes[0] == 0xFF && bytes[1] == 0xFE {
        let units = units_after_mark(bytes, false);
        utf16_string(units.as_slice())
    } else if bytes.len() >= 2 && bytes[0] == 0xFE && bytes[1] == 0xFF {
        let units = units_after_mark(bytes, true);
        utf16_string(units.as_slice())
    } else {
        utf8_string(bytes)
    }
}

/// The bytes of these code units, two per unit, in the given byte order.
pub open spec fn utf16_bytes(units: Seq<u16>, big_endian: bool) -> Seq<u8> {
    Seq::new(
        2 * units.len(),
        |i: int|
            if (i % 2 == 0) != big_endian {
                (units[i / 2] % 256) as u8
            } else {
                (units[i / 2] / 256) as u8
            },
    )
}

/// Pairing the bytes of code units gives those units back.
proof fn lemma_units_of_bytes(units: Seq<u16>, big_endian: bool)
    ensures
        utf16_units(utf16_bytes(units, big_endian), big_endian) == units,
{
    let b = utf16_bytes(units, big_endian);
    assert forall|i: int| 0 <= i < units.len() implies #[trigger] utf16_units(b, big_endian)[i]
        == units[i] by {
        assert((2 * i) / 2 == i && (2 * i) % 2 == 0);
        assert((2 * i + 1) / 2 == i && (2 * i + 1) % 2 == 1);
        let w = units[i] as int;
        assert(256 * (w / 256) + w % 256 == w);
    }
    assert(utf16_units(b, big_endian) =~= units);
}

/// Text written as UTF-16 behind a byte order mark, in either byte order,
/// decodes to that same text; the mark itself is not part of it.
pub proof fn lemma_decode_text_utf16_round_trip(s: Seq<char>)
    ensures
        spec_decode_text(seq![0xFFu8, 0xFEu8] + utf16_bytes(utf16_encode(s), false)) == Some(s),
        spec_decode_text(seq![0xFEu8, 0xFFu8] + utf16_bytes(utf16_encode(s), true)) == Some(s),
{
    lemma_utf16_round_trip(s);
    let le = utf16_bytes(utf16_encode(s), false);
    let be = utf16_bytes(utf16_encode(s), true);
    lemma_units_of_bytes(utf16_encode(s), false);
    lemma_units_of_bytes(utf16_encode(s), true);
    assert((seq![0xFFu8, 0xFEu8] + le).skip(2) =~= le);
    assert((seq![0xFEu8, 0xFFu8] + be).skip(2) =~= be);
}

} // verus!
