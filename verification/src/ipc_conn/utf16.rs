//! Text as UTF-16 code units, and the code units as bytes.
//!
//! A character below U+10000 is one code unit; any other is a surrogate pair.
//! Decoding is strict: a surrogate that is not part of a well-formed pair makes
//! the whole text invalid. On the wire a code unit is two bytes, low byte first.

use vstd::prelude::*;

verus! {

/// The largest number of code units that a text on the wire may have.
pub const MAX_UNITS: u32 = 2147483647;

/// Whether `u` is the first half of a surrogate pair.
pub open spec fn is_high_surrogate(u: u16) -> bool {
    0xD800 <= u < 0xDC00
}

/// Whether `u` is the second half of a surrogate pair.
pub open spec fn is_low_surrogate(u: u16) -> bool {
    0xDC00 <= u < 0xE000
}

/// The code units that stand for `c`.
pub open spec fn char_units(c: char) -> Seq<u16> {
    let v = c as u32;
    if v < 0x10000 {
        seq![v as u16]
    } else {
        seq![(0xD800 + (v - 0x10000) / 0x400) as u16, (0xDC00 + (v - 0x10000) % 0x400) as u16]
    }
}

/// The character that the surrogate pair `hi`, `lo` stands for.
pub open spec fn pair_char(hi: u16, lo: u16) -> char {
    (0x10000 + (hi - 0xD800) * 0x400 + (lo - 0xDC00)) as char
}

/// The code units that stand for the text `s`, character after character.
pub open spec fn encode_utf16(s: Seq<char>) -> Seq<u16>
    decreases s.len(),
{
    if s.len() == 0 {
        Seq::empty()
    } else {
        char_units(s[0]) + encode_utf16(s.drop_first())
    }
}

/// The text that `units` stand for, or `None` where they are not well-formed UTF-16.
pub open spec fn decode_utf16(units: Seq<u16>) -> Option<Seq<char>>
    decreases units.len(),
{
    if units.len() == 0 {
        Some(Seq::empty())
    } else if !is_high_surrogate(units[0]) && !is_low_surrogate(units[0]) {
        prepend(seq![units[0] as char], decode_utf16(units.skip(1)))
    } else if is_high_surrogate(units[0]) && units.len() >= 2 && is_low_surrogate(units[1]) {
        prepend(seq![pair_char(units[0], units[1])], decode_utf16(units.skip(2)))
    } else {
        None
    }
}

/// `head` followed by the text in `tail`, where there is one.
pub open spec fn prepend(head: Seq<char>, tail: Option<Seq<char>>) -> Option<Seq<char>> {
    match tail {
        Some(t) => Some(head + t),
        None => None,
    }
}

/// The two bytes of each code unit of `units`, low byte first.
pub open spec fn units_wire(units: Seq<u16>) -> Seq<u8> {
    Seq::new(
        2 * units.len(),
        |k: int|
            if k % 2 == 0 {
                (units[k / 2] % 256) as u8
            } else {
                (units[k / 2] / 256) as u8
            },
    )
}

/// The code unit that the two bytes of `data` from `pos` on spell out.
pub open spec fn u16_at(data: Seq<u8>, pos: int) -> u16 {
    (data[pos] + 256 * data[pos + 1]) as u16
}

/// The `count` code units that the bytes of `data` from `pos` on spell out.
pub open spec fn units_at(data: Seq<u8>, pos: int, count: nat) -> Seq<u16> {
    Seq::new(count, |i: int| u16_at(data, pos + 2 * i))
}

/// The code units of a text in two parts are those of the parts, one after the other.
pub proof fn lemma_encode_concat(a: Seq<char>, b: Seq<char>)
    ensures
        encode_utf16(a + b) == encode_utf16(a) + encode_utf16(b),
    decreases a.len(),
{
    if a.len() == 0 {
        assert(a + b =~= b);
        assert(encode_utf16(a) + encode_utf16(b) =~= encode_utf16(b));
    } else {
        lemma_encode_concat(a.drop_first(), b);
        assert((a + b).drop_first() =~= a.drop_first() + b);
        assert(encode_utf16(a + b) =~= encode_utf16(a) + encode_utf16(b));
    }
}

/// The code units of a text of one character are those of the character.
pub proof fn lemma_encode_one(c: char)
    ensures
        encode_utf16(seq![c]) == char_units(c),
{
    assert(seq![c].drop_first() =~= Seq::<char>::empty());
    assert(encode_utf16(seq![c].drop_first()) =~= Seq::<u16>::empty());
    assert(encode_utf16(seq![c]) =~= char_units(c));
}

/// A text has at least as many code units as characters, and at most twice as many.
pub proof fn lemma_encode_len(s: Seq<char>)
    ensures
        s.len() <= encode_utf16(s).len() <= 2 * s.len(),
    decreases s.len(),
{
    if s.len() > 0 {
        lemma_encode_len(s.drop_first());
    }
}

/// Every text is found again in its code units.
pub proof fn lemma_utf16_round_trip(s: Seq<char>)
    ensures
        decode_utf16(encode_utf16(s)) == Some(s),
    decreases s.len(),
{
    if s.len() > 0 {
        let c = s[0];
        let v = c as u32;
        let tail = s.drop_first();
        let units = encode_utf16(s);
        lemma_utf16_round_trip(tail);
        vstd::utf8::char_is_scalar(c);
        vstd::utf8::char_u32_cast(c, v);
        if v < 0x10000 {
            assert(units.skip(1) =~= encode_utf16(tail));
            assert(units[0] as char == c);
        } else {
            assert(units.skip(2) =~= encode_utf16(tail));
            let hi = units[0];
            let lo = units[1];
            assert(v <= 0x10FFFF);
            assert((v - 0x10000) / 0x400 <= 0x3FF);
            assert(hi == 0xD800 + (v - 0x10000) / 0x400);
            assert(lo == 0xDC00 + (v - 0x10000) % 0x400);
            assert(0x10000 + (hi - 0xD800) * 0x400 + (lo - 0xDC00) == v);
            assert(pair_char(hi, lo) == c);
        }
        assert(seq![c] + tail =~= s);
    }
}

/// Code units that stand for a text are the code units of that text: no two
/// sequences of code units stand for the same text.
pub proof fn lemma_utf16_decoded_encodes_back(units: Seq<u16>)
    ensures
        decode_utf16(units) matches Some(s) ==> encode_utf16(s) == units,
    decreases units.len(),
{
    if units.len() > 0 {
        if !is_high_surrogate(units[0]) && !is_low_surrogate(units[0]) {
            lemma_utf16_decoded_encodes_back(units.skip(1));
            if let Some(t) = decode_utf16(units.skip(1)) {
                let c = units[0] as char;
                let s = seq![c] + t;
                assert(s.drop_first() =~= t);
                assert(c as u32 == units[0]);
                assert(encode_utf16(s) =~= units);
            }
        } else if is_high_surrogate(units[0]) && units.len() >= 2 && is_low_surrogate(units[1]) {
            lemma_utf16_decoded_encodes_back(units.skip(2));
            if let Some(t) = decode_utf16(units.skip(2)) {
                let c = pair_char(units[0], units[1]);
                let v = 0x10000 + (units[0] - 0xD800) * 0x400 + (units[1] - 0xDC00);
                let s = seq![c] + t;
                assert(s.drop_first() =~= t);
                assert(c as u32 == v);
                assert((v - 0x10000) / 0x400 == units[0] - 0xD800);
                assert((v - 0x10000) % 0x400 == units[1] - 0xDC00);
                assert(encode_utf16(s) =~= units);
            }
        }
    }
}

/// The bytes of code units in two parts are those of the parts, one after the other.
pub proof fn lemma_units_wire_concat(a: Seq<u16>, b: Seq<u16>)
    ensures
        units_wire(a + b) == units_wire(a) + units_wire(b),
{
    assert(units_wire(a + b) =~= units_wire(a) + units_wire(b));
}

/// Code units are found again in their bytes, wherever these stand in a buffer.
pub proof fn lemma_units_round_trip(pre: Seq<u8>, units: Seq<u16>, rest: Seq<u8>)
    ensures
        units_wire(units).len() == 2 * units.len(),
        units_at(pre + units_wire(units) + rest, pre.len() as int, units.len()) == units,
{
    let data = pre + units_wire(units) + rest;
    let p = pre.len() as int;
    assert forall|i: int| 0 <= i < units.len() implies u16_at(data, p + 2 * i) == units[i] by {
        assert(data[p + 2 * i] == units_wire(units)[2 * i]);
        assert(data[p + 2 * i + 1] == units_wire(units)[2 * i + 1]);
    }
    assert(units_at(data, p, units.len()) =~= units);
}

/// The character with the number `v`, where `v` is a Unicode scalar value.
///
/// Wraps `char::from_u32` of the standard library, which gives `None` exactly
/// for the numbers that are no scalar value: the surrogates and what lies
/// above U+10FFFF.
#[verifier::external_body]
fn char_from_u32(v: u32) -> (r: Option<char>)
    ensures
        r == (if v < 0xD800 || (0xE000 <= v && v <= 0x10FFFF) {
            Some(v as char)
        } else {
            None::<char>
        }),
{
    char::from_u32(v)
}

/// Appends `c` to `text`.
///
/// Wraps `String::push` of the standard library, which adds the one character
/// at the end and leaves what was there.
#[verifier::external_body]
fn push_char(text: &mut String, c: char)
    ensures
        final(text)@ == old(text)@.push(c),
{
    text.push(c)
}

/// The number of code units of `s`, or `None` where it is above [`MAX_UNITS`].
pub fn units_count(s: &str) -> (r: Option<u32>)
    ensures
        encode_utf16(s@).len() <= MAX_UNITS ==> r == Some(encode_utf16(s@).len() as u32),
        encode_utf16(s@).len() > MAX_UNITS ==> r is None,
{
    let mut n: u32 = 0;
    for c in it: s.chars()
        invariant
            it.seq() == s@,
            n == encode_utf16(s@.take(it.index() as int)).len(),
            n <= MAX_UNITS,
    {
        let ghost i = it.index() as int;
        proof {
            lemma_encode_concat(s@.take(i), seq![c]);
            assert(s@.take(i + 1) =~= s@.take(i) + seq![c]);
            lemma_encode_one(c);
            lemma_encode_concat(s@.take(i + 1), s@.skip(i + 1));
            assert(s@.take(i + 1) + s@.skip(i + 1) =~= s@);
        }
        let width: u32 = if (c as u32) < 0x10000 { 1 } else { 2 };
        if n > MAX_UNITS - width {
            return None;
        }
        n = n + width;
    }
    proof {
        assert(s@.take(s@.len() as int) =~= s@);
    }
    Some(n)
}

/// Appends the bytes of the code units of `s` to `out`.
pub fn put_units(out: &mut Vec<u8>, s: &str)
    ensures
        final(out)@ == old(out)@ + units_wire(encode_utf16(s@)),
{
    proof {
        assert(s@.take(0) =~= Seq::<char>::empty());
        assert(out@ =~= old(out)@ + units_wire(encode_utf16(s@.take(0))));
    }
    for c in it: s.chars()
        invariant
            it.seq() == s@,
            out@ == old(out)@ + units_wire(encode_utf16(s@.take(it.index() as int))),
    {
        let ghost i = it.index() as int;
        let ghost before = out@;
        proof {
            lemma_encode_concat(s@.take(i), seq![c]);
            assert(s@.take(i + 1) =~= s@.take(i) + seq![c]);
            lemma_encode_one(c);
            lemma_units_wire_concat(encode_utf16(s@.take(i)), char_units(c));
        }
        let v: u32 = c as u32;
        if v < 0x10000 {
            let u: u16 = v as u16;
            out.push((u % 256) as u8);
            out.push((u / 256) as u8);
            assert(out@ =~= before + units_wire(char_units(c)));
        } else {
            let hi: u16 = (0xD800 + (v - 0x10000) / 0x400) as u16;
            let lo: u16 = (0xDC00 + (v - 0x10000) % 0x400) as u16;
            out.push((hi % 256) as u8);
            out.push((hi / 256) as u8);
            out.push((lo % 256) as u8);
            out.push((lo / 256) as u8);
            assert(out@ =~= before + units_wire(char_units(c)));
        }
    }
    proof {
        assert(s@.take(s@.len() as int) =~= s@);
    }
}

/// Reads the text that the `count` code units from `pos` on stand for.
///
/// Gives `None` where the buffer ends before the last of them, and where
/// they are not well-formed UTF-16.
pub fn get_text(data: &[u8], pos: usize, count: usize) -> (r: Option<String>)
    ensures
        pos + 2 * count > data@.len() ==> r is None,
        pos + 2 * count <= data@.len() ==> match decode_utf16(
            units_at(data@, pos as int, count as nat),
        ) {
            Some(t) => r matches Some(s) && s@ == t,
            None => r is None,
        },
{
    let ghost units = units_at(data@, pos as int, count as nat);
    let len = data.len();
    if pos > len || (len - pos) / 2 < count {
        return None;
    }
    let mut text = String::new();
    let mut i: usize = 0;
    proof {
        assert(units.skip(0) =~= units);
        assert(decode_utf16(units) matches Some(t) ==> text@ + t =~= t);
    }
    while i < count
        invariant
            i <= count,
            len == data@.len(),
            pos + 2 * count <= data@.len(),
            units == units_at(data@, pos as int, count as nat),
            decode_utf16(units) == prepend(text@, decode_utf16(units.skip(i as int))),
        decreases count - i,
    {
        let ghost here = units.skip(i as int);
        let ghost so_far = text@;
        let u: u16 = data[pos + 2 * i] as u16 + 256 * (data[pos + 2 * i + 1] as u16);
        assert(u == units[i as int]);
        assert(here[0] == u);
        if u < 0xD800 || u >= 0xE000 {
            match char_from_u32(u as u32) {
                Some(c) => {
                    push_char(&mut text, c);
                },
                None => {
                    return None;
                },
            }
            proof {
                assert(here.skip(1) =~= units.skip(i + 1));
                assert(decode_utf16(units.skip(i + 1)) matches Some(t) ==> so_far + (seq![
                    u as char,
                ] + t) =~= text@ + t);
            }
            i = i + 1;
        } else if u < 0xDC00 && count - i >= 2 {
            let lo: u16 = data[pos + 2 * i + 2] as u16 + 256 * (data[pos + 2 * i + 3] as u16);
            assert(lo == units[i + 1]);
            assert(here[1] == lo);
            if lo < 0xDC00 || lo >= 0xE000 {
                return None;
            }
            let v: u32 = 0x10000 + (u as u32 - 0xD800) * 0x400 + (lo as u32 - 0xDC00);
            match char_from_u32(v) {
                Some(c) => {
                    push_char(&mut text, c);
                },
                None => {
                    return None;
                },
            }
            proof {
                assert(here.skip(2) =~= units.skip(i + 2));
                assert(decode_utf16(units.skip(i + 2)) matches Some(t) ==> so_far + (seq![
                    pair_char(u, lo),
                ] + t) =~= text@ + t);
            }
            i = i + 2;
        } else {
            return None;
        }
    }
    proof {
        assert(text@ + Seq::<char>::empty() =~= text@);
    }
    Some(text)
}

} // verus!
