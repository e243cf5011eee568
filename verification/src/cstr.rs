//! NUL-terminated byte strings, as engines with a C interface expect them.

use vstd::prelude::*;
use vstd::utf8::*;
use vstd::string::*;

verus! {

/// A NUL character is the only one with a zero byte in its UTF-8 encoding.
proof fn lemma_scalar_zero_byte(v: u32)
    requires
        is_scalar(v),
    ensures
        encode_scalar(v).contains(0u8) <==> v == 0,
{
    let bytes = encode_scalar(v);
    assert(v <= 0x7F ==> (((v & 0x7F) as u8) == 0u8 <==> v == 0)) by (bit_vector);
    assert((0xC0u8 | ((v >> 6) & 0x1F) as u8) != 0u8) by (bit_vector);
    assert((0xE0u8 | ((v >> 12) & 0x0F) as u8) != 0u8) by (bit_vector);
    assert((0xF0u8 | ((v >> 18) & 0x7) as u8) != 0u8) by (bit_vector);
    assert((0x80u8 | (v & 0x3F) as u8) != 0u8) by (bit_vector);
    assert((0x80u8 | ((v >> 6) & 0x3F) as u8) != 0u8) by (bit_vector);
    assert((0x80u8 | ((v >> 12) & 0x3F) as u8) != 0u8) by (bit_vector);
    if bytes.contains(0u8) {
        let i = choose|i: int| 0 <= i < bytes.len() && bytes[i] == 0u8;
        assert(bytes[i] == 0u8);
        assert(v == 0);
    }
    if v == 0 {
        assert(bytes[0] == 0u8);
    }
}

/// The UTF-8 bytes of a text hold a zero byte exactly where the text holds a
/// NUL character.
pub proof fn lemma_zero_byte(text: Seq<char>)
    ensures
        encode_utf8(text).contains(0u8) <==> text.contains('\0'),
    decreases text.len(),
{
    if text.len() > 0 {
        char_is_scalar(text[0]);
        char_u32_cast(text[0], text[0] as u32);
        let first = encode_scalar(text[0] as u32);
        let rest = encode_utf8(text.drop_first());
        lemma_zero_byte(text.drop_first());
        lemma_scalar_zero_byte(text[0] as u32);
        if encode_utf8(text).contains(0u8) {
            let i = choose|i: int| 0 <= i < (first + rest).len() && (first + rest)[i] == 0u8;
            if i < first.len() {
                assert(first[i] == 0u8);
                assert(text[0] as u32 == 0);
                assert(text[0] == '\0');
            } else {
                assert(rest[i - first.len()] == 0u8);
                let j = choose|j: int|
                    0 <= j < text.drop_first().len() && text.drop_first()[j] == '\0';
                assert(text[j + 1] == '\0');
            }
        }
        if text.contains('\0') {
            let j = choose|j: int| 0 <= j < text.len() && text[j] == '\0';
            if j == 0 {
                let k = choose|k: int| 0 <= k < first.len() && first[k] == 0u8;
                assert((first + rest)[k] == 0u8);
            } else {
                assert(text.drop_first()[j - 1] == '\0');
                let k = choose|k: int| 0 <= k < rest.len() && rest[k] == 0u8;
                assert((first + rest)[first.len() + k] == 0u8);
            }
        }
    }
}

/// Whether `text` holds a NUL character.
pub fn has_nul(text: &str) -> (found: bool)
    ensures
        found == text@.contains('\0'),
{
    let mut found = false;
    let chars = text.chars();
    for c in iter: chars
        invariant
            iter.seq() == text@,
            found == text@.take(iter.index@).contains('\0'),
    {
        proof {
            let shorter = text@.take(iter.index@);
            let longer = text@.take(iter.index@ + 1);
            assert(longer =~= shorter.push(c));
            if shorter.contains('\0') {
                let k = choose|k: int| 0 <= k < shorter.len() && shorter[k] == '\0';
                assert(longer[k] == '\0');
            }
            if c == '\0' {
                assert(longer[iter.index@] == '\0');
            }
            if longer.contains('\0') && c != '\0' {
                let k = choose|k: int| 0 <= k < longer.len() && longer[k] == '\0';
                assert(shorter[k] == '\0');
            }
        }
        found = found || c == '\0';
    }
    assert(text@.take(text@.len() as int) =~= text@);
    found
}

/// The bytes of `text` as a C string: its UTF-8 encoding, ended by a zero
/// byte. A text that holds a NUL character has no such form.
pub fn c_string(text: &str) -> (bytes: Option<Vec<u8>>)
    ensures
        bytes is Some <==> !text@.contains('\0'),
        bytes is Some ==> bytes->0@ == encode_utf8(text@).push(0u8),
{
    let source = text.as_bytes();
    let mut bytes: Vec<u8> = Vec::new();
    let mut i: usize = 0;
    while i < source.len()
        invariant
            i <= source.len(),
            source@ == encode_utf8(text@),
            bytes@ == source@.take(i as int),
            !source@.take(i as int).contains(0u8),
        decreases source.len() - i,
    {
        let byte: u8 = source[i];
        if byte == 0 {
            assert(source@[i as int] == 0u8);
            proof {
                assert(source@.contains(0u8));
                lemma_zero_byte(text@);
            }
            return None;
        }
        proof {
            let longer = source@.take(i + 1);
            assert(longer =~= source@.take(i as int).push(byte));
            if longer.contains(0u8) {
                let k = choose|k: int| 0 <= k < longer.len() && longer[k] == 0u8;
                if k < i {
                    assert(source@.take(i as int)[k] == 0u8);
                }
            }
        }
        bytes.push(byte);
        i += 1;
    }
    proof {
        assert(source@.take(i as int) =~= source@);
        lemma_zero_byte(text@);
    }
    bytes.push(0u8);
    Some(bytes)
}

} // verus!
