//! UTF-16: encoding characters, decoding with replacement of unpaired
//! surrogates, and the little-endian byte image of a code-unit string.
use vstd::prelude::*;

use crate::text::chars_of;
use crate::trusted::is_scalar_value;

verus! {

/// The UTF-16 code units of `c`: one unit below U+10000, a surrogate pair
/// above.
pub open spec fn char_units(c: char) -> Seq<u16> {
    let x = c as int;
    if x < 0x10000 {
        seq![x as u16]
    } else {
        let y = x - 0x10000;
        seq![(0xD800 + y / 0x400) as u16, (0xDC00 + y % 0x400) as u16]
    }
}

/// The UTF-16 encoding of `s`, as `str::encode_utf16` yields it.
pub open spec fn encode_utf16(s: Seq<char>) -> Seq<u16>
    decreases s.len(),
{
    if s.len() == 0 {
        Seq::empty()
    } else {
        encode_utf16(s.drop_last()) + char_units(s.last())
    }
}

pub open spec fn is_high_surrogate(u: u16) -> bool {
    0xD800 <= u <= 0xDBFF
}

pub open spec fn is_low_surrogate(u: u16) -> bool {
    0xDC00 <= u <= 0xDFFF
}

/// The character of the surrogate pair `hi`, `lo`.
pub open spec fn pair_char(hi: u16, lo: u16) -> char {
    (0x10000 + (hi - 0xD800) * 0x400 + (lo - 0xDC00)) as char
}

/// The characters that `units` decode to, with U+FFFD in place of each
/// unpaired surrogate, as `String::from_utf16_lossy` gives them.
pub open spec fn decode_utf16_lossy(units: Seq<u16>) -> Seq<char>
    decreases units.len(),
{
    if units.len() == 0 {
        Seq::empty()
    } else if units.len() > 1 && is_high_surrogate(units[0]) && is_low_surrogate(units[1]) {
        seq![pair_char(units[0], units[1])] + decode_utf16_lossy(units.skip(2))
    } else if 0xD800 <= units[0] <= 0xDFFF {
        seq!['\u{FFFD}'] + decode_utf16_lossy(units.skip(1))
    } else {
        seq![(units[0] as int) as char] + decode_utf16_lossy(units.skip(1))
    }
}

/// The units of `units` before the first zero (all of them if none is zero).
pub open spec fn until_nul(units: Seq<u16>) -> Seq<u16>
    decreases units.len(),
{
    if units.len() == 0 || units[0] == 0 {
        Seq::empty()
    } else {
        seq![units[0]] + until_nul(units.skip(1))
    }
}

/// The bytes of `units`, each unit low byte first.
pub open spec fn le_bytes(units: Seq<u16>) -> Seq<u8>
    decreases units.len(),
{
    if units.len() == 0 {
        Seq::empty()
    } else {
        le_bytes(units.drop_last()) + seq![
            (units.last() % 256) as u8,
            (units.last() / 256) as u8,
        ]
    }
}

/// Appends the UTF-16 encoding of `c` to `out`.
pub fn push_char_units(out: &mut Vec<u16>, c: char)
    ensures
        final(out)@ == old(out)@ + char_units(c),
{
    let x = c as u32;
    if x < 0x10000 {
        out.push(x as u16);
    } else {
        let y = x - 0x10000;
        out.push((0xD800 + y / 0x400) as u16);
        out.push((0xDC00 + y % 0x400) as u16);
    }
    assert(out@ =~= old(out)@ + char_units(c));
}

/// The UTF-16 encoding of `v`.
pub fn encode_chars(v: &Vec<char>) -> (units: Vec<u16>)
    ensures
        units@ == encode_utf16(v@),
{
    let mut out: Vec<u16> = Vec::new();
    let mut i: usize = 0;
    while i < v.len()
        invariant
            i <= v@.len(),
            out@ == encode_utf16(v@.take(i as int)),
        decreases v@.len() - i,
    {
        assert(v@.take(i + 1).drop_last() == v@.take(i as int));
        push_char_units(&mut out, v[i]);
        i = i + 1;
    }
    assert(v@.take(v@.len() as int) == v@);
    out
}

/// The UTF-16 encoding of `s` followed by a zero unit: the form in which
/// the Windows API takes a string.
pub fn wide_string(s: &str) -> (units: Vec<u16>)
    ensures
        units@ == encode_utf16(s@).push(0),
{
    let v = chars_of(s);
    let mut units = encode_chars(&v);
    units.push(0);
    units
}

/// The bytes of `units`, each unit low byte first.
pub fn units_to_le_bytes(units: &Vec<u16>) -> (bytes: Vec<u8>)
    ensures
        bytes@ == le_bytes(units@),
{
    let mut out: Vec<u8> = Vec::new();
    let mut i: usize = 0;
    while i < units.len()
        invariant
            i <= units@.len(),
            out@ == le_bytes(units@.take(i as int)),
        decreases units@.len() - i,
    {
        assert(units@.take(i + 1).drop_last() == units@.take(i as int));
        let u = units[i];
        out.push((u % 256) as u8);
        out.push((u / 256) as u8);
        assert(out@ =~= le_bytes(units@.take(i + 1)));
        i = i + 1;
    }
    assert(units@.take(units@.len() as int) == units@);
    out
}

/// The units of `units` before the first zero.
pub fn units_until_nul(units: &Vec<u16>) -> (r: Vec<u16>)
    ensures
        r@ == until_nul(units@),
{
    let mut out: Vec<u16> = Vec::new();
    let mut i: usize = 0;
    assert(units@.skip(0) == units@);
    assert(out@ + until_nul(units@) == until_nul(units@));
    while i < units.len() && units[i] != 0
        invariant
            i <= units@.len(),
            forall|j: int| 0 <= j < i ==> units@[j] != 0,
            out@ + until_nul(units@.skip(i as int)) == until_nul(units@),
        decreases units@.len() - i,
    {
        assert(units@.skip(i as int).skip(1) == units@.skip(i + 1));
        out.push(units[i]);
        i = i + 1;
    }
    assert(until_nul(units@.skip(i as int)) == Seq::<u16>::empty());
    out
}

/// The character with code `x`, which the caller knows to be a Unicode
/// scalar value.
fn scalar_char(x: u32) -> (c: char)
    requires
        is_scalar_value(x),
    ensures
        c == x as char,
{
    match char::from_u32(x) {
        Some(c) => c,
        None => '\u{FFFD}',
    }
}

/// The characters that `units` decode to, with U+FFFD in place of each
/// unpaired surrogate.
pub fn decode_units_lossy(units: &Vec<u16>) -> (r: Vec<char>)
    ensures
        r@ == decode_utf16_lossy(units@),
{
    let n = units.len();
    let mut out: Vec<char> = Vec::new();
    let mut i: usize = 0;
    assert(units@.skip(0) == units@);
    assert(out@ + decode_utf16_lossy(units@) == decode_utf16_lossy(units@));
    while i < n
        invariant
            i <= n == units@.len(),
            out@ + decode_utf16_lossy(units@.skip(i as int)) == decode_utf16_lossy(units@),
        decreases n - i,
    {
        let ghost rest = units@.skip(i as int);
        let u = units[i];
        assert(rest[0] == u);
        if i + 1 < n && 0xD800 <= u && u <= 0xDBFF && 0xDC00 <= units[i + 1] && units[i + 1]
            <= 0xDFFF {
            let lo = units[i + 1];
            assert(rest[1] == lo);
            assert(rest.skip(2) == units@.skip(i + 2));
            let x: u32 = 0x10000 + ((u - 0xD800) as u32) * 0x400 + ((lo - 0xDC00) as u32);
            let c = scalar_char(x);
            out.push(c);
            assert(out@ + decode_utf16_lossy(units@.skip(i + 2)) == decode_utf16_lossy(units@));
            i = i + 2;
        } else {
            assert(rest.skip(1) == units@.skip(i + 1));
            if 0xD800 <= u && u <= 0xDFFF {
                out.push('\u{FFFD}');
            } else {
                out.push(scalar_char(u as u32));
            }
            assert(out@ + decode_utf16_lossy(units@.skip(i + 1)) == decode_utf16_lossy(units@));
            i = i + 1;
        }
    }
    assert(units@.skip(n as int) == Seq::<u16>::empty());
    assert(out@ + Seq::<char>::empty() == out@);
    out
}

/// The UTF-16 units of `c`: below U+10000 one unit holding its code; above,
/// a high surrogate then a low surrogate whose ten-bit payloads together
/// hold `c - 0x10000`.
pub proof fn lemma_char_units(c: char)
    ensures
        (c as int) < 0x10000 ==> char_units(c).len() == 1 && char_units(c)[0] as int == c as int,
        (c as int) >= 0x10000 ==> {
            &&& char_units(c).len() == 2
            &&& is_high_surrogate(char_units(c)[0])
            &&& is_low_surrogate(char_units(c)[1])
            &&& (char_units(c)[0] - 0xD800) * 0x400 + (char_units(c)[1] - 0xDC00) + 0x10000
                == c as int
        },
{
    let x = c as int;
    if x >= 0x10000 {
        assert(x <= 0x10FFFF);
        let y = x - 0x10000;
        assert(y / 0x400 < 0x400);
        assert((y / 0x400) * 0x400 + y % 0x400 == y);
    }
}

proof fn lemma_encode_cons(c: char, s: Seq<char>)
    ensures
        encode_utf16(seq![c] + s) == char_units(c) + encode_utf16(s),
    decreases s.len(),
{
    if s.len() == 0 {
        assert(seq![c] + s == seq![c]);
        assert(seq![c].drop_last() == Seq::<char>::empty());
        assert(encode_utf16(Seq::<char>::empty()) == Seq::<u16>::empty());
        assert(char_units(c) + Seq::<u16>::empty() == char_units(c));
        assert(Seq::<u16>::empty() + char_units(c) == char_units(c));
    } else {
        lemma_encode_cons(c, s.drop_last());
        assert((seq![c] + s).drop_last() == seq![c] + s.drop_last());
        assert((seq![c] + s).last() == s.last());
        assert(char_units(c) + encode_utf16(s.drop_last()) + char_units(s.last()) == char_units(c)
            + (encode_utf16(s.drop_last()) + char_units(s.last())));
    }
}

proof fn lemma_decode_units(c: char, rest: Seq<u16>)
    ensures
        decode_utf16_lossy(char_units(c) + rest) == seq![c] + decode_utf16_lossy(rest),
{
    lemma_char_units(c);
    let u = char_units(c) + rest;
    let x = c as int;
    if x < 0x10000 {
        assert(u[0] as int == x);
        assert(!(0xD800 <= x <= 0xDFFF));
        assert(u.skip(1) == rest);
        assert((x as char) == c);
    } else {
        assert(u[0] == char_units(c)[0]);
        assert(u[1] == char_units(c)[1]);
        assert(u.skip(2) == rest);
        assert(pair_char(u[0], u[1]) == (x as char));
        assert((x as char) == c);
    }
}

/// Decoding the UTF-16 encoding of any text gives the text back.
pub proof fn lemma_utf16_round_trip(s: Seq<char>)
    ensures
        decode_utf16_lossy(encode_utf16(s)) == s,
    decreases s.len(),
{
    if s.len() > 0 {
        let c = s[0];
        let rest = s.drop_first();
        assert(s == seq![c] + rest);
        lemma_encode_cons(c, rest);
        lemma_decode_units(c, encode_utf16(rest));
        lemma_utf16_round_trip(rest);
    }
}

/// The byte image holds two bytes per unit, low byte first.
pub proof fn lemma_le_bytes(units: Seq<u16>)
    ensures
        le_bytes(units).len() == 2 * units.len(),
        forall|i: int|
            0 <= i < units.len() ==> le_bytes(units)[2 * i] as int + 256 * le_bytes(units)[2 * i
                + 1] as int == #[trigger] units[i] as int,
    decreases units.len(),
{
    if units.len() > 0 {
        let p = units.drop_last();
        lemma_le_bytes(p);
        let b = le_bytes(units);
        assert forall|i: int| 0 <= i < units.len() implies le_bytes(units)[2 * i] as int + 256
            * le_bytes(units)[2 * i + 1] as int == #[trigger] units[i] as int by {
            if i < p.len() {
                assert(b[2 * i] == le_bytes(p)[2 * i]);
                assert(b[2 * i + 1] == le_bytes(p)[2 * i + 1]);
                assert(units[i] == p[i]);
            } else {
                let u = units.last();
                assert(b[2 * i] == (u % 256) as u8);
                assert(b[2 * i + 1] == (u / 256) as u8);
            }
        }
    }
}

/// `until_nul(units)` is the longest prefix of `units` without a zero.
pub proof fn lemma_until_nul(units: Seq<u16>)
    ensures
        until_nul(units).len() <= units.len(),
        until_nul(units) == units.take(until_nul(units).len() as int),
        forall|i: int| 0 <= i < until_nul(units).len() ==> #[trigger] until_nul(units)[i] != 0,
        until_nul(units).len() == units.len() || units[until_nul(units).len() as int] == 0,
    decreases units.len(),
{
    if units.len() > 0 && units[0] != 0 {
        let r = units.skip(1);
        lemma_until_nul(r);
        let t = until_nul(units);
        assert(t == seq![units[0]] + until_nul(r));
        assert(t.len() == 1 + until_nul(r).len());
        assert forall|i: int| 0 <= i < t.len() implies #[trigger] units.take(t.len() as int)[i]
            == t[i] by {
            if i > 0 {
                assert(t[i] == until_nul(r)[i - 1]);
                assert(until_nul(r)[i - 1] == r.take(until_nul(r).len() as int)[i - 1]);
                assert(units[i] == r[i - 1]);
            }
        }
        assert(units.take(t.len() as int) =~= t);
        assert forall|i: int| 0 <= i < t.len() implies #[trigger] t[i] != 0 by {
            if i > 0 {
                assert(t[i] == until_nul(r)[i - 1]);
            }
        }
        if until_nul(r).len() < r.len() {
            assert(units[t.len() as int] == r[until_nul(r).len() as int]);
        }
    } else {
        assert(until_nul(units) == Seq::<u16>::empty());
        assert(units.take(0) == Seq::<u16>::empty());
    }
}

/// Units that are not surrogates decode one for one to the characters with
/// the same codes.
pub proof fn lemma_decode_plain_units(units: Seq<u16>)
    requires
        forall|i: int| 0 <= i < units.len() ==> !(0xD800 <= #[trigger] units[i] <= 0xDFFF),
    ensures
        decode_utf16_lossy(units).len() == units.len(),
        forall|i: int|
            0 <= i < units.len() ==> #[trigger] decode_utf16_lossy(units)[i] as int == units[i] as int,
    decreases units.len(),
{
    if units.len() > 0 {
        let r = units.skip(1);
        assert forall|i: int| 0 <= i < r.len() implies !(0xD800 <= #[trigger] r[i] <= 0xDFFF) by {
            assert(r[i] == units[i + 1]);
        }
        lemma_decode_plain_units(r);
        assert(!(0xD800 <= units[0] <= 0xDFFF));
        let d = decode_utf16_lossy(units);
        assert(d == seq![(units[0] as int) as char] + decode_utf16_lossy(r));
        assert forall|i: int| 0 <= i < units.len() implies #[trigger] d[i] as int == units[i] as int by {
            if i > 0 {
                assert(d[i] == decode_utf16_lossy(r)[i - 1]);
                assert(units[i] == r[i - 1]);
            }
        }
    }
}

/// A surrogate that is not the high half of a pair decodes to U+FFFD.
pub proof fn lemma_decode_unpaired(units: Seq<u16>)
    requires
        units.len() > 0,
        0xD800 <= units[0] <= 0xDFFF,
        !(units.len() > 1 && is_high_surrogate(units[0]) && is_low_surrogate(units[1])),
    ensures
        decode_utf16_lossy(units)[0] == '\u{FFFD}',
        decode_utf16_lossy(units).skip(1) == decode_utf16_lossy(units.skip(1)),
{
    assert((seq!['\u{FFFD}'] + decode_utf16_lossy(units.skip(1))).skip(1) == decode_utf16_lossy(
        units.skip(1),
    ));
}

} // verus!
