//! Text helpers: the characters of a string, prefix and suffix tests.

use vstd::prelude::*;

verus! {

/// The characters of `s`, in order.
pub fn chars_of(s: &str) -> (r: Vec<char>)
    ensures
        r@ == s@,
{
    let mut r: Vec<char> = Vec::new();
    for c in it: s.chars()
        invariant
            r@ == it.seq().take(it.index() as int),
            it.seq() == s@,
    {
        proof {
            assert(it.seq().take(it.index() + 1) =~= it.seq().take(it.index() as int).push(c));
        }
        r.push(c);
    }
    r
}


/// `s` begins with `prefix`.
pub open spec fn starts_with(s: Seq<char>, prefix: Seq<char>) -> bool {
    prefix.len() <= s.len() && s.subrange(0, prefix.len() as int) == prefix
}

/// `s` ends with `suffix`.
pub open spec fn ends_with(s: Seq<char>, suffix: Seq<char>) -> bool {
    suffix.len() <= s.len() && s.subrange(s.len() - suffix.len(), s.len() as int) == suffix
}

/// Whether `s` begins with `prefix`.
pub fn has_prefix(s: &Vec<char>, prefix: &Vec<char>) -> (r: bool)
    ensures
        r == starts_with(s@, prefix@),
{
    if prefix.len() > s.len() {
        return false;
    }
    let mut i: usize = 0;
    while i < prefix.len()
        invariant
            prefix@.len() <= s@.len(),
            i <= prefix@.len(),
            forall|j: int| 0 <= j < i ==> s@[j] == prefix@[j],
        decreases prefix@.len() - i,
    {
        if s[i] != prefix[i] {
            proof {
                assert(s@.subrange(0, prefix@.len() as int)[i as int] != prefix@[i as int]);
            }
            return false;
        }
        i += 1;
    }
    proof {
        assert(s@.subrange(0, prefix@.len() as int) =~= prefix@);
    }
    true
}

/// Whether `s` ends with `suffix`.
pub fn has_suffix(s: &Vec<char>, suffix: &Vec<char>) -> (r: bool)
    ensures
        r == ends_with(s@, suffix@),
{
    if suffix.len() > s.len() {
        return false;
    }
    let start = s.len() - suffix.len();
    let mut i: usize = 0;
    while i < suffix.len()
        invariant
            suffix@.len() <= s@.len(),
            start == s@.len() - suffix@.len(),
            s@.len() == s.len(),
            i <= suffix@.len(),
            forall|j: int| 0 <= j < i ==> s@[start + j] == suffix@[j],
        decreases suffix@.len() - i,
    {
        assert(start + i < s.len());
        if s[start + i] != suffix[i] {
            proof {
                assert(s@.subrange(start as int, s@.len() as int)[i as int] != suffix@[i as int]);
            }
            return false;
        }
        i += 1;
    }
    proof {
        assert(s@.subrange(start as int, s@.len() as int) =~= suffix@);
    }
    true
}

/// Decodes `bytes` as UTF-8 with `std::str::from_utf8`.
///
/// Claims: it succeeds exactly on valid UTF-8, giving the characters that
/// vstd's `decode_utf8` reads from it.
#[verifier::external_body]
pub(crate) fn utf8_string(bytes: &[u8]) -> (r: Option<String>)
    ensures
        r is Some <==> vstd::utf8::valid_utf8(bytes@),
        r matches Some(s) ==> s@ == vstd::utf8::decode_utf8(bytes@),
{
    match std::str::from_utf8(bytes) {
        Ok(s) => Some(s.to_owned()),
        Err(_) => None,
    }
}

/// The UTF-16 code units `u` decoded: a unit outside 0xD800..=0xDFFF is a
/// character itself; a high surrogate (0xD800..=0xDBFF) followed by a low
/// one (0xDC00..=0xDFFF) is the character 0x10000 + (high - 0xD800) * 0x400
/// + (low - 0xDC00); anything else is invalid.
pub open spec fn utf16_decode(u: Seq<u16>) -> Option<Seq<char>>
    decreases u.len(),
{
    if u.len() == 0 {
        Some(Seq::empty())
    } else if u[0] < 0xD800 || u[0] > 0xDFFF {
        match utf16_decode(u.drop_first()) {
            Some(rest) => Some(seq![(u[0] as u32) as char] + rest),
            None => None,
        }
    } else if u[0] <= 0xDBFF && u.len() >= 2 && 0xDC00 <= u[1] <= 0xDFFF {
        let code = 0x10000 + (u[0] - 0xD800) * 0x400 + (u[1] - 0xDC00);
        match utf16_decode(u.skip(2)) {
            Some(rest) => Some(seq![(code as u32) as char] + rest),
            None => None,
        }
    } else {
        None
    }
}

/// Decodes UTF-16 code units with `String::from_utf16`.
///
/// Claims: it succeeds exactly where `utf16_decode` does (the documented
/// rule: invalid data, unpaired surrogates, is an error), with its
/// characters.
#[verifier::external_body]
pub(crate) fn utf16_string(units: &[u16]) -> (r: Option<String>)
    ensures
        match r {
            Some(s) => utf16_decode(units@) == Some(s@),
            None => utf16_decode(units@) is None,
        },
{
    String::from_utf16(units).ok()
}

/// `a` sorts before `b` or equals it, comparing character by character by
/// code point, a prefix first: the order of `str`'s `Ord`.
pub open spec fn text_le(a: Seq<char>, b: Seq<char>) -> bool
    decreases a.len(),
{
    if a.len() == 0 {
        true
    } else if b.len() == 0 {
        false
    } else if a[0] != b[0] {
        (a[0] as int) < (b[0] as int)
    } else {
        text_le(a.drop_first(), b.drop_first())
    }
}

/// `text_le` orders any two texts.
pub proof fn lemma_text_le_total(a: Seq<char>, b: Seq<char>)
    ensures
        text_le(a, b) || text_le(b, a),
    decreases a.len(),
{
    if a.len() > 0 && b.len() > 0 {
        if a[0] == b[0] {
            lemma_text_le_total(a.drop_first(), b.drop_first());
        } else {
            assert((a[0] as int) != (b[0] as int));
        }
    }
}

/// `text_le` is transitive.
pub proof fn lemma_text_le_transitive(a: Seq<char>, b: Seq<char>, c: Seq<char>)
    requires
        text_le(a, b),
        text_le(b, c),
    ensures
        text_le(a, c),
    decreases a.len(),
{
    if a.len() > 0 && b.len() > 0 && c.len() > 0 && a[0] == b[0] && b[0] == c[0] {
        lemma_text_le_transitive(a.drop_first(), b.drop_first(), c.drop_first());
    }
}

/// `text_le` is antisymmetric: two texts that each sort no later than the
/// other are equal.
pub proof fn lemma_text_le_antisymmetric(a: Seq<char>, b: Seq<char>)
    requires
        text_le(a, b),
        text_le(b, a),
    ensures
        a == b,
    decreases a.len(),
{
    if a.len() > 0 && b.len() > 0 {
        if a[0] == b[0] {
            lemma_text_le_antisymmetric(a.drop_first(), b.drop_first());
            assert(a =~= seq![a[0]] + a.drop_first());
            assert(b =~= seq![b[0]] + b.drop_first());
        }
    } else {
        assert(a.len() == 0 && b.len() == 0);
        assert(a =~= b);
    }
}

/// Whether `a` sorts before `b` or equals it; see `text_le`.
pub fn chars_le(a: &Vec<char>, b: &Vec<char>) -> (r: bool)
    ensures
        r == text_le(a@, b@),
{
    let mut i: usize = 0;
    proof {
        assert(a@.skip(0) =~= a@);
        assert(b@.skip(0) =~= b@);
    }
    while i < a.len() && i < b.len()
        invariant
            i <= a@.len(),
            i <= b@.len(),
            text_le(a@, b@) == text_le(a@.skip(i as int), b@.skip(i as int)),
        decreases a@.len() - i,
    {
        proof {
            assert(a@.skip(i as int).drop_first() =~= a@.skip(i + 1));
            assert(b@.skip(i as int).drop_first() =~= b@.skip(i + 1));
        }
        if a[i] != b[i] {
            return a[i] < b[i];
        }
        i += 1;
    }
    i == a.len()
}

/// The UTF-16 code units of these characters: one unit below 0x10000,
/// else a high and a low surrogate.
pub open spec fn utf16_encode(s: Seq<char>) -> Seq<u16>
    decreases s.len(),
{
    if s.len() == 0 {
        Seq::empty()
    } else {
        let c = s[0] as int;
        let first = if c < 0x10000 {
            seq![c as u16]
        } else {
            seq![(0xD800 + (c - 0x10000) / 0x400) as u16, (0xDC00 + (c - 0x10000) % 0x400) as u16]
        };
        first + utf16_encode(s.drop_first())
    }
}

/// A character is a Unicode scalar value: at most 0x10FFFF, and no
/// surrogate.
proof fn lemma_char_is_scalar(ch: char)
    ensures
        0 <= ch as int <= 0x10FFFF,
        !(0xD800 <= ch as int <= 0xDFFF),
{
}

/// Decoding UTF-16 undoes encoding it.
pub proof fn lemma_utf16_round_trip(s: Seq<char>)
    ensures
        utf16_decode(utf16_encode(s)) == Some(s),
    decreases s.len(),
{
    if s.len() > 0 {
        let c = s[0] as int;
        let rest = s.drop_first();
        lemma_utf16_round_trip(rest);
        let u = utf16_encode(s);
        lemma_char_is_scalar(s[0]);
        if c < 0x10000 {
            assert(u[0] as int == c);
            assert(u.drop_first() =~= utf16_encode(rest));
            let x: u32 = u[0] as u32;
            assert(x as int == c);
            assert((x as char) == s[0]);
        } else {
            let high = 0xD800 + (c - 0x10000) / 0x400;
            let low = 0xDC00 + (c - 0x10000) % 0x400;
            assert(0xD800 <= high <= 0xDBFF && 0xDC00 <= low <= 0xDFFF) by (nonlinear_arith)
                requires
                    0x10000 <= c <= 0x10FFFF,
                    high == 0xD800 + (c - 0x10000) / 0x400,
                    low == 0xDC00 + (c - 0x10000) % 0x400,
            ;
            assert(0x10000 + (high - 0xD800) * 0x400 + (low - 0xDC00) == c) by (nonlinear_arith)
                requires
                    high == 0xD800 + (c - 0x10000) / 0x400,
                    low == 0xDC00 + (c - 0x10000) % 0x400,
            ;
            assert(u[0] as int == high);
            assert(u[1] as int == low);
            assert(u.skip(2) =~= utf16_encode(rest));
            let code = 0x10000 + (u[0] - 0xD800) * 0x400 + (u[1] - 0xDC00);
            assert(code == c);
            let x: u32 = code as u32;
            assert(x as int == c);
            assert((x as char) == s[0]);
        }
        assert(s =~= seq![s[0]] + rest);
    } else {
        assert(s =~= Seq::<char>::empty());
    }
}

} // verus!
