//! UTF-16 text, as engines that count in 16-bit code units expect it.

use vstd::prelude::*;

verus! {

/// The code unit that ends a wide string.
pub const WIDE_NUL: u16 = 0;

/// A code unit that opens a surrogate pair.
pub open spec fn is_high_surrogate(unit: u16) -> bool {
    0xD800 <= unit <= 0xDBFF
}

/// A code unit that closes a surrogate pair.
pub open spec fn is_low_surrogate(unit: u16) -> bool {
    0xDC00 <= unit <= 0xDFFF
}

/// A code unit that stands for a character only as half of a pair.
pub open spec fn is_surrogate(unit: u16) -> bool {
    0xD800 <= unit <= 0xDFFF
}

/// The character that a surrogate pair stands for.
pub open spec fn paired(high: u16, low: u16) -> char {
    (0x10000 + (high - 0xD800) * 0x400 + (low - 0xDC00)) as char
}

/// The code units of one character: itself below U+10000, a surrogate pair
/// from there on.
pub open spec fn units_of(c: char) -> Seq<u16> {
    let v = c as u32;
    if v < 0x10000 {
        seq![v as u16]
    } else {
        seq![(0xD800 + (v - 0x10000) / 0x400) as u16, (0xDC00 + (v - 0x10000) % 0x400) as u16]
    }
}

/// The UTF-16 encoding of a text, without a terminator.
pub open spec fn encode_utf16(text: Seq<char>) -> Seq<u16>
    decreases text.len(),
{
    if text.len() == 0 {
        Seq::empty()
    } else {
        units_of(text[0]) + encode_utf16(text.skip(1))
    }
}

/// `first` in front of a decoded rest, where there is one.
pub open spec fn prepend(first: char, rest: Option<Seq<char>>) -> Option<Seq<char>> {
    match rest {
        Some(chars) => Some(seq![first] + chars),
        None => None,
    }
}

/// The text that a run of code units encodes, or `None` where the run holds a
/// surrogate that is not half of a well-formed pair.
pub open spec fn decode_utf16(units: Seq<u16>) -> Option<Seq<char>>
    decreases units.len(),
{
    if units.len() == 0 {
        Some(Seq::empty())
    } else if !is_surrogate(units[0]) {
        prepend(units[0] as char, decode_utf16(units.skip(1)))
    } else if is_high_surrogate(units[0]) && units.len() >= 2 && is_low_surrogate(units[1]) {
        prepend(paired(units[0], units[1]), decode_utf16(units.skip(2)))
    } else {
        None
    }
}

/// `done` in front of a decoded rest, where there is one.
pub open spec fn prefixed(done: Seq<char>, rest: Option<Seq<char>>) -> Option<Seq<char>> {
    match rest {
        Some(chars) => Some(done + chars),
        None => None,
    }
}

/// Encoding goes through a concatenation.
pub proof fn lemma_encode_concat(a: Seq<char>, b: Seq<char>)
    ensures
        encode_utf16(a + b) == encode_utf16(a) + encode_utf16(b),
    decreases a.len(),
{
    if a.len() == 0 {
        assert(a + b =~= b);
        assert(encode_utf16(a) + encode_utf16(b) =~= encode_utf16(b));
    } else {
        assert((a + b).skip(1) =~= a.skip(1) + b);
        lemma_encode_concat(a.skip(1), b);
        assert(units_of(a[0]) + (encode_utf16(a.skip(1)) + encode_utf16(b)) =~= (units_of(a[0])
            + encode_utf16(a.skip(1))) + encode_utf16(b));
    }
}

/// A text with one more character encodes to the text's units followed by
/// that character's.
pub proof fn lemma_encode_push(text: Seq<char>, c: char)
    ensures
        encode_utf16(text.push(c)) == encode_utf16(text) + units_of(c),
{
    let one = seq![c];
    assert(text.push(c) =~= text + one);
    lemma_encode_concat(text, one);
    reveal_with_fuel(encode_utf16, 2);
    assert(encode_utf16(one) =~= units_of(c));
}

/// What one character encodes to decodes to that character, whatever
/// follows it.
pub proof fn lemma_decode_first(c: char, rest: Seq<u16>)
    ensures
        decode_utf16(units_of(c) + rest) == prepend(c, decode_utf16(rest)),
{
    let v = c as u32;
    let units = units_of(c) + rest;
    if v < 0x10000 {
        assert(units[0] == v as u16);
        assert(units.skip(1) =~= rest);
        assert((units[0] as char) == c);
    } else {
        let w = (v - 0x10000) as int;
        assert(0 <= w < 0x100000);
        assert(units[0] == (0xD800 + w / 0x400) as u16);
        assert(units[1] == (0xDC00 + w % 0x400) as u16);
        assert(units.skip(2) =~= rest);
        assert(0x10000 + (units[0] - 0xD800) * 0x400 + (units[1] - 0xDC00) == v);
        assert(paired(units[0], units[1]) == c);
    }
}

/// Decoding undoes encoding: every text comes back from its code units.
pub proof fn lemma_decode_encode(text: Seq<char>)
    ensures
        decode_utf16(encode_utf16(text)) == Some(text),
    decreases text.len(),
{
    if text.len() > 0 {
        lemma_decode_encode(text.skip(1));
        lemma_decode_first(text[0], encode_utf16(text.skip(1)));
        assert(seq![text[0]] + text.skip(1) =~= text);
    }
}

/// Encoding undoes decoding: code units that decode at all are the encoding
/// of what they decode to.
pub proof fn lemma_encode_decode(units: Seq<u16>)
    requires
        decode_utf16(units) is Some,
    ensures
        encode_utf16(decode_utf16(units)->0) == units,
    decreases units.len(),
{
    if units.len() > 0 {
        let text = decode_utf16(units)->0;
        if !is_surrogate(units[0]) {
            let rest = units.skip(1);
            lemma_encode_decode(rest);
            let c = units[0] as char;
            assert(text =~= seq![c] + decode_utf16(rest)->0);
            assert(text.skip(1) =~= decode_utf16(rest)->0);
            assert(units_of(c) =~= seq![units[0]]);
            assert(seq![units[0]] + rest =~= units);
        } else {
            let rest = units.skip(2);
            lemma_encode_decode(rest);
            let c = paired(units[0], units[1]);
            let v = 0x10000 + (units[0] - 0xD800) * 0x400 + (units[1] - 0xDC00);
            assert(0x10000 <= v <= 0x10FFFF);
            assert(c as u32 == v);
            assert((v - 0x10000) / 0x400 == units[0] - 0xD800);
            assert((v - 0x10000) % 0x400 == units[1] - 0xDC00);
            assert(text =~= seq![c] + decode_utf16(rest)->0);
            assert(text.skip(1) =~= decode_utf16(rest)->0);
            assert(units_of(c) =~= seq![units[0], units[1]]);
            assert(seq![units[0], units[1]] + rest =~= units);
        }
    } else {
        assert(encode_utf16(Seq::<char>::empty()) =~= units);
    }
}

/// A stretch of a text, cut out of the text's code units at the places where
/// it begins and ends, decodes to that stretch.
pub proof fn lemma_decode_stretch(before: Seq<char>, stretch: Seq<char>, after: Seq<char>)
    ensures
        decode_utf16(
            encode_utf16(before + stretch + after).subrange(
                encode_utf16(before).len() as int,
                (encode_utf16(before).len() + encode_utf16(stretch).len()) as int,
            ),
        ) == Some(stretch),
{
    lemma_encode_concat(before + stretch, after);
    lemma_encode_concat(before, stretch);
    let a = encode_utf16(before);
    let b = encode_utf16(stretch);
    let c = encode_utf16(after);
    assert((a + b + c).subrange(a.len() as int, (a.len() + b.len()) as int) =~= b);
    lemma_decode_encode(stretch);
}

/// `String::push`: the string afterwards is the string before with `c` at its
/// end.
#[verifier::external_body]
pub(crate) fn push_char(text: &mut String, c: char)
    ensures
        final(text)@ == old(text)@.push(c),
{
    text.push(c)
}

/// `char::from_u32`: the character with scalar value `value`, and `None`
/// exactly for a surrogate or a value above U+10FFFF.
#[verifier::external_body]
pub(crate) fn char_from_u32(value: u32) -> (c: Option<char>)
    ensures
        c == (if value < 0xD800 || 0xE000 <= value <= 0x10FFFF {
            Some(value as char)
        } else {
            None::<char>
        }),
{
    char::from_u32(value)
}

/// Appends the code units of `c` to `wide`.
fn push_units(wide: &mut Vec<u16>, c: char)
    ensures
        final(wide)@ == old(wide)@ + units_of(c),
{
    let v: u32 = c as u32;
    if v < 0x10000 {
        wide.push(v as u16);
        assert(wide@ =~= old(wide)@ + units_of(c));
    } else {
        let w: u32 = v - 0x10000;
        wide.push((0xD800 + w / 0x400) as u16);
        wide.push((0xDC00 + w % 0x400) as u16);
        assert(wide@ =~= old(wide)@ + units_of(c));
    }
}

/// The UTF-16 code units of `text`, without a terminator.
pub fn encode_wide(text: &str) -> (units: Vec<u16>)
    ensures
        units@ == encode_utf16(text@),
{
    let mut units: Vec<u16> = Vec::new();
    let chars = text.chars();
    for c in iter: chars
        invariant
            iter.seq() == text@,
            units@ == encode_utf16(text@.take(iter.index@)),
    {
        proof {
            lemma_encode_push(text@.take(iter.index@), c);
            assert(text@.take(iter.index@ + 1) =~= text@.take(iter.index@).push(c));
        }
        push_units(&mut units, c);
    }
    assert(text@.take(text@.len() as int) =~= text@);
    units
}

/// The UTF-16 code units of `text`, ended by a NUL unit.
pub fn wide_string(text: &str) -> (wide: Vec<u16>)
    ensures
        wide@ == encode_utf16(text@).push(WIDE_NUL),
{
    let mut wide = encode_wide(text);
    wide.push(WIDE_NUL);
    wide
}

/// Decodes a run of UTF-16 code units. `None` exactly where the run is not
/// well-formed UTF-16.
pub fn decode_wide(units: &[u16]) -> (text: Option<String>)
    ensures
        text is Some <==> decode_utf16(units@) is Some,
        text is Some ==> decode_utf16(units@) == Some(text->0@),
{
    let mut text = String::new();
    let mut i: usize = 0;
    proof {
        assert(units@.skip(0) =~= units@);
        let all = decode_utf16(units@);
        if all is Some {
            assert(text@ + all->0 =~= all->0);
        }
    }
    while i < units.len()
        invariant
            i <= units.len(),
            decode_utf16(units@) == prefixed(text@, decode_utf16(units@.skip(i as int))),
        decreases units.len() - i,
    {
        let unit: u16 = units[i];
        let ghost rest = units@.skip(i as int);
        let ghost done = text@;
        assert(rest.len() > 0 && rest[0] == unit);
        if unit < 0xD800 || unit > 0xDFFF {
            match char_from_u32(unit as u32) {
                Some(c) => {
                    push_char(&mut text, c);
                    proof {
                        assert(rest.skip(1) =~= units@.skip(i + 1));
                        let tail = decode_utf16(units@.skip(i + 1));
                        if tail is Some {
                            assert(done + (seq![c] + tail->0) =~= done.push(c) + tail->0);
                        }
                    }
                    i += 1;
                },
                None => {
                    return None;
                },
            }
        } else if unit <= 0xDBFF && i + 1 < units.len() && 0xDC00 <= units[i + 1] && units[i + 1]
            <= 0xDFFF {
            let low: u16 = units[i + 1];
            let value: u32 = 0x10000 + (unit - 0xD800) as u32 * 0x400 + (low - 0xDC00) as u32;
            match char_from_u32(value) {
                Some(c) => {
                    push_char(&mut text, c);
                    proof {
                        assert(rest[1] == low);
                        assert(c == paired(unit, low));
                        assert(rest.skip(2) =~= units@.skip(i + 2));
                        let tail = decode_utf16(units@.skip(i + 2));
                        if tail is Some {
                            assert(done + (seq![c] + tail->0) =~= done.push(c) + tail->0);
                        }
                    }
                    i += 2;
                },
                None => {
                    return None;
                },
            }
        } else {
            proof {
                if unit <= 0xDBFF && i + 1 < units.len() {
                    assert(rest[1] == units[i + 1]);
                }
                assert(decode_utf16(rest) is None);
            }
            return None;
        }
    }
    assert(units@.skip(i as int) =~= Seq::<u16>::empty());
    assert(text@ + Seq::<char>::empty() =~= text@);
    Some(text)
}

} // verus!
