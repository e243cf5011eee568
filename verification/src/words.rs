//! Whitespace-separated words of a text.

use vstd::prelude::*;
use crate::wide::push_char;

verus! {

/// The characters with the Unicode property `White_Space`.
pub open spec fn is_whitespace(c: char) -> bool {
    let v = c as u32;
    ||| 0x09 <= v <= 0x0D
    ||| v == 0x20
    ||| v == 0x85
    ||| v == 0xA0
    ||| v == 0x1680
    ||| 0x2000 <= v <= 0x200A
    ||| v == 0x2028
    ||| v == 0x2029
    ||| v == 0x202F
    ||| v == 0x205F
    ||| v == 0x3000
}

/// No character of `text` is whitespace.
pub open spec fn no_whitespace(text: Seq<char>) -> bool {
    forall|i: int| 0 <= i < text.len() ==> !is_whitespace(#[trigger] text[i])
}

/// Every character of `text` is whitespace.
pub open spec fn all_whitespace(text: Seq<char>) -> bool {
    forall|i: int| 0 <= i < text.len() ==> is_whitespace(#[trigger] text[i])
}

/// The length of the longest prefix of `text` that holds no whitespace.
pub open spec fn word_len(text: Seq<char>) -> nat
    decreases text.len(),
{
    if text.len() == 0 || is_whitespace(text[0]) {
        0
    } else {
        1 + word_len(text.skip(1))
    }
}

/// The words of `text` from left to right: skip whitespace, take the longest
/// run without any, and go on behind it.
pub open spec fn tokens(text: Seq<char>) -> Seq<Seq<char>>
    decreases text.len(),
    via tokens_decreases
{
    if text.len() == 0 {
        Seq::empty()
    } else if is_whitespace(text[0]) {
        tokens(text.skip(1))
    } else {
        seq![text.take(word_len(text) as int)] + tokens(text.skip(word_len(text) as int))
    }
}

#[via_fn]
proof fn tokens_decreases(text: Seq<char>) {
    lemma_word_len_bound(text);
}

/// The views of a list of strings.
pub open spec fn texts(strings: Seq<String>) -> Seq<Seq<char>> {
    Seq::new(strings.len(), |i: int| strings[i]@)
}

/// A word is never longer than the text it starts.
pub proof fn lemma_word_len_bound(text: Seq<char>)
    ensures
        word_len(text) <= text.len(),
    decreases text.len(),
{
    if text.len() > 0 && !is_whitespace(text[0]) {
        lemma_word_len_bound(text.skip(1));
    }
}

/// A run without whitespace that ends the text, or that whitespace follows,
/// is the longest such prefix.
pub proof fn lemma_word_len_run(word: Seq<char>, rest: Seq<char>)
    requires
        no_whitespace(word),
        rest.len() == 0 || is_whitespace(rest[0]),
    ensures
        word_len(word + rest) == word.len(),
    decreases word.len(),
{
    if word.len() == 0 {
        assert(word + rest =~= rest);
    } else {
        assert((word + rest)[0] == word[0]);
        assert((word + rest).skip(1) =~= word.skip(1) + rest);
        assert forall|i: int| 0 <= i < word.skip(1).len() implies !is_whitespace(
            #[trigger] word.skip(1)[i],
        ) by {
            assert(word.skip(1)[i] == word[i + 1]);
        }
        lemma_word_len_run(word.skip(1), rest);
    }
}

/// A word at the start of a text is its first token, and the tokens of what
/// follows the word come after it.
pub proof fn lemma_tokens_word(word: Seq<char>, rest: Seq<char>)
    requires
        word.len() > 0,
        no_whitespace(word),
        rest.len() == 0 || is_whitespace(rest[0]),
    ensures
        tokens(word + rest) == seq![word] + tokens(rest),
{
    let text = word + rest;
    lemma_word_len_run(word, rest);
    assert(text[0] == word[0]);
    assert(text.take(word.len() as int) =~= word);
    assert(text.skip(word.len() as int) =~= rest);
}

/// A word, whitespace behind it, and then more text: the word is the first
/// token and the tokens of the rest follow.
pub proof fn lemma_tokens_then(word: Seq<char>, space: char, rest: Seq<char>)
    requires
        word.len() > 0,
        no_whitespace(word),
        is_whitespace(space),
    ensures
        tokens(word.push(space) + rest) == seq![word] + tokens(rest),
{
    let tail = seq![space] + rest;
    assert(tail[0] == space);
    assert(tail.skip(1) =~= rest);
    assert(tokens(tail) == tokens(rest));
    lemma_tokens_word(word, tail);
    assert(word.push(space) + rest =~= word + tail);
}

/// `words` written out with a space behind each but the last.
pub open spec fn spaced(words: Seq<Seq<char>>) -> Seq<char>
    decreases words.len(),
{
    if words.len() == 0 {
        Seq::empty()
    } else if words.len() == 1 {
        words[0]
    } else {
        words[0].push(' ') + spaced(words.skip(1))
    }
}

/// Words that are written out with spaces between them are the tokens of
/// what was written, one token for each word and in the same order.
pub proof fn lemma_tokens_spaced(words: Seq<Seq<char>>)
    requires
        forall|i: int|
            0 <= i < words.len() ==> (#[trigger] words[i]).len() > 0 && no_whitespace(words[i]),
    ensures
        tokens(spaced(words)) == words,
    decreases words.len(),
{
    if words.len() == 0 {
        assert(tokens(spaced(words)) =~= words);
    } else if words.len() == 1 {
        lemma_tokens_single(words[0]);
        assert(seq![words[0]] =~= words);
    } else {
        let rest = words.skip(1);
        assert forall|i: int| 0 <= i < rest.len() implies (#[trigger] rest[i]).len() > 0
            && no_whitespace(rest[i]) by {
            assert(rest[i] == words[i + 1]);
        }
        lemma_tokens_spaced(rest);
        lemma_tokens_then(words[0], ' ', spaced(rest));
        assert(seq![words[0]] + rest =~= words);
    }
}

/// A text that is one word has that word as its only token.
pub proof fn lemma_tokens_single(word: Seq<char>)
    requires
        word.len() > 0,
        no_whitespace(word),
    ensures
        tokens(word) == seq![word],
{
    let rest = Seq::<char>::empty();
    lemma_tokens_word(word, rest);
    assert(word + rest =~= word);
    assert(seq![word] + tokens(rest) =~= seq![word]);
}

/// A text of whitespace alone, the empty text among them, has no tokens.
pub proof fn lemma_tokens_blank(text: Seq<char>)
    requires
        all_whitespace(text),
    ensures
        tokens(text) == Seq::<Seq<char>>::empty(),
    decreases text.len(),
{
    if text.len() > 0 {
        assert(is_whitespace(text[0]));
        assert forall|i: int| 0 <= i < text.skip(1).len() implies is_whitespace(
            #[trigger] text.skip(1)[i],
        ) by {
            assert(text.skip(1)[i] == text[i + 1]);
        }
        lemma_tokens_blank(text.skip(1));
    }
}

/// A text without tokens is whitespace alone.
pub proof fn lemma_tokens_none(text: Seq<char>)
    requires
        tokens(text).len() == 0,
    ensures
        all_whitespace(text),
    decreases text.len(),
{
    if text.len() > 0 {
        assert(is_whitespace(text[0]));
        lemma_tokens_none(text.skip(1));
        assert forall|i: int| 0 <= i < text.len() implies is_whitespace(#[trigger] text[i]) by {
            if i > 0 {
                assert(text.skip(1)[i - 1] == text[i]);
            }
        }
    }
}

/// The longest prefix without whitespace holds none.
pub proof fn lemma_word_clean(text: Seq<char>)
    ensures
        no_whitespace(text.take(word_len(text) as int)),
    decreases text.len(),
{
    lemma_word_len_bound(text);
    if text.len() > 0 && !is_whitespace(text[0]) {
        lemma_word_clean(text.skip(1));
        lemma_word_len_bound(text.skip(1));
        let word = text.take(word_len(text) as int);
        let tail = text.skip(1).take(word_len(text.skip(1)) as int);
        assert forall|i: int| 0 <= i < word.len() implies !is_whitespace(#[trigger] word[i]) by {
            if i > 0 {
                assert(tail[i - 1] == word[i]);
            }
        }
    }
}

/// Every token holds at least one character and no whitespace.
pub proof fn lemma_tokens_are_words(text: Seq<char>)
    ensures
        forall|i: int|
            0 <= i < tokens(text).len() ==> (#[trigger] tokens(text)[i]).len() > 0
                && no_whitespace(tokens(text)[i]),
    decreases text.len(),
{
    if text.len() == 0 {
        assert(tokens(text).len() == 0);
    } else {
        if is_whitespace(text[0]) {
            lemma_tokens_are_words(text.skip(1));
            assert(tokens(text) == tokens(text.skip(1)));
        } else {
            let n = word_len(text) as int;
            lemma_word_len_bound(text);
            lemma_word_clean(text);
            lemma_tokens_are_words(text.skip(n));
            let first = text.take(n);
            let later = tokens(text.skip(n));
            assert(tokens(text) == seq![first] + later);
            assert(first.len() == n && n > 0);
            assert forall|i: int| 0 <= i < tokens(text).len() implies (#[trigger] tokens(
                text,
            )[i]).len() > 0 && no_whitespace(tokens(text)[i]) by {
                if i > 0 {
                    assert(tokens(text)[i] == later[i - 1]);
                } else {
                    assert(tokens(text)[0] == first);
                }
            }
        }
    }
}

/// None of `words` holds a NUL character.
pub open spec fn speakable(words: Seq<Seq<char>>) -> bool {
    forall|i: int| 0 <= i < words.len() ==> !(#[trigger] words[i]).contains('\0')
}

/// The words of a text without a NUL character hold none.
pub proof fn lemma_tokens_speakable(text: Seq<char>)
    requires
        !text.contains('\0'),
    ensures
        speakable(tokens(text)),
    decreases text.len(),
{
    if text.len() > 0 {
        if is_whitespace(text[0]) {
            let rest = text.skip(1);
            if rest.contains('\0') {
                let k = choose|k: int| 0 <= k < rest.len() && rest[k] == '\0';
                assert(text[k + 1] == '\0');
            }
            lemma_tokens_speakable(rest);
        } else {
            let n = word_len(text) as int;
            lemma_word_len_bound(text);
            let first = text.take(n);
            let rest = text.skip(n);
            if rest.contains('\0') {
                let k = choose|k: int| 0 <= k < rest.len() && rest[k] == '\0';
                assert(text[k + n] == '\0');
            }
            if first.contains('\0') {
                let k = choose|k: int| 0 <= k < first.len() && first[k] == '\0';
                assert(text[k] == '\0');
            }
            lemma_tokens_speakable(rest);
            let later = tokens(rest);
            assert(tokens(text) == seq![first] + later);
            assert forall|i: int| 0 <= i < tokens(text).len() implies !(#[trigger] tokens(
                text,
            )[i]).contains('\0') by {
                if i > 0 {
                    assert(tokens(text)[i] == later[i - 1]);
                } else {
                    assert(tokens(text)[0] == first);
                }
            }
        }
    }
}

/// Whether `c` is whitespace.
pub fn char_is_whitespace(c: char) -> (r: bool)
    ensures
        r == is_whitespace(c),
{
    let v: u32 = c as u32;
    (0x09 <= v && v <= 0x0D) || v == 0x20 || v == 0x85 || v == 0xA0 || v == 0x1680 || (0x2000 <= v
        && v <= 0x200A) || v == 0x2028 || v == 0x2029 || v == 0x202F || v == 0x205F || v == 0x3000
}

/// The words of `text`, from left to right.
pub fn split_whitespace(text: &str) -> (words: Vec<String>)
    ensures
        texts(words@) == tokens(text@),
{
    let mut words: Vec<String> = Vec::new();
    let mut word = String::new();
    let chars = text.chars();
    proof {
        assert(word@ + text@.skip(0) =~= text@);
        assert(texts(words@) + tokens(text@) =~= tokens(text@));
    }
    for c in iter: chars
        invariant
            iter.seq() == text@,
            no_whitespace(word@),
            tokens(text@) == texts(words@) + tokens(word@ + text@.skip(iter.index@)),
    {
        let ghost here = text@.skip(iter.index@);
        let ghost rest = text@.skip(iter.index@ + 1);
        let ghost done = texts(words@);
        assert(here =~= seq![c] + rest);
        if char_is_whitespace(c) {
            if word.as_str().is_empty() {
                proof {
                    assert(word@ + here =~= here);
                    assert(here.skip(1) =~= rest);
                    assert(word@ + rest =~= rest);
                }
            } else {
                proof {
                    lemma_tokens_word(word@, here);
                    assert(here.skip(1) =~= rest);
                    assert(tokens(here) == tokens(rest));
                    assert(texts(words@.push(word)) =~= done.push(word@));
                    assert(done + (seq![word@] + tokens(rest)) =~= done.push(word@) + tokens(rest));
                }
                words.push(word);
                word = String::new();
                proof {
                    assert(word@ + rest =~= rest);
                }
            }
        } else {
            proof {
                assert(word@.push(c) + rest =~= word@ + here);
            }
            push_char(&mut word, c);
        }
    }
    proof {
        let nothing = text@.skip(text@.len() as int);
        assert(word@ + nothing =~= word@);
        if word@.len() > 0 {
            lemma_tokens_single(word@);
            assert(texts(words@.push(word)) =~= texts(words@).push(word@));
            assert(texts(words@) + seq![word@] =~= texts(words@).push(word@));
        } else {
            assert(texts(words@) + tokens(word@) =~= texts(words@));
        }
    }
    if !word.as_str().is_empty() {
        words.push(word);
    }
    words
}

} // verus!
