//! What holds of every check, proved from the cursor's steps.

use vstd::prelude::*;
use crate::cursor::{drive, in_bounds, initial, moved_to, moves_on, pending, remaining, reported};
use crate::cursor::{in_phase, run_moves_on, step};
use crate::cursor::{CursorState, Outcome, Phase, Trace};
use crate::protocol::{Backend, Fault, Reply, RequestView, END_OF_ERRORS, NOT_FOUND};
use crate::session::{checked, Checker};
use crate::wide::{decode_utf16, encode_utf16, lemma_decode_stretch, lemma_encode_concat};
use crate::wide::lemma_encode_push;
use crate::words::{all_whitespace, lemma_tokens_blank, lemma_tokens_single, lemma_tokens_spaced};
use crate::words::{no_whitespace, spaced, speakable, tokens};

verus! {

/// The verdicts of an engine that knows exactly the words in `accepted`, one
/// for each of `words`.
pub open spec fn verdicts(words: Seq<Seq<char>>, accepted: Set<Seq<char>>) -> Seq<Reply> {
    Seq::new(
        words.len(),
        |i: int|
            Reply::Verdict {
                code: if accepted.contains(words[i]) {
                    1i32
                } else {
                    0i32
                },
            },
    )
}

/// The words that are not in `accepted`, in their order and as often as they
/// occur.
pub open spec fn misspelled(words: Seq<Seq<char>>, accepted: Set<Seq<char>>) -> Seq<Seq<char>>
    decreases words.len(),
{
    if words.len() == 0 {
        Seq::empty()
    } else if accepted.contains(words[0]) {
        misspelled(words.skip(1), accepted)
    } else {
        seq![words[0]] + misspelled(words.skip(1), accepted)
    }
}

/// The check of `text` by a token filter whose engine knows exactly the words
/// in `accepted`.
pub open spec fn token_check(accepted: Set<Seq<char>>, text: Seq<char>) -> Trace {
    drive(initial(Backend::TokenFilter, text), verdicts(tokens(text), accepted))
}

/// A token filter that stands at one of its words, or behind the last.
pub open spec fn at_word(s: CursorState) -> bool {
    &&& s.backend is TokenFilter
    &&& s.position <= s.words.len()
    &&& s.phase == if s.position < s.words.len() {
        Phase::Pulling
    } else {
        Phase::Exhausted
    }
}

proof fn lemma_token_run(s: CursorState, accepted: Set<Seq<char>>)
    requires
        at_word(s),
        speakable(s.words),
    ensures
        drive(s, verdicts(s.words, accepted).skip(s.position as int)).errors == Ok::<
            Seq<Seq<char>>,
            Fault,
        >(misspelled(s.words.skip(s.position as int), accepted)),
        pending(drive(s, verdicts(s.words, accepted).skip(s.position as int)).state) is None,
    decreases s.words.len() - s.position,
{
    let replies = verdicts(s.words, accepted).skip(s.position as int);
    let ahead = s.words.skip(s.position as int);
    if s.position < s.words.len() {
        let outcome = step(s, replies[0]);
        assert(ahead[0] == s.words[s.position as int]);
        assert(replies.skip(1) =~= verdicts(s.words, accepted).skip((s.position + 1) as int));
        assert(ahead.skip(1) =~= s.words.skip((s.position + 1) as int));
        lemma_token_run(outcome.state, accepted);
    } else {
        assert(replies.len() == 0);
        assert(ahead.len() == 0);
    }
}

/// A token filter reports the words of the text that its engine does not
/// know: each of them, in the order of the text, and nothing else. When the
/// last verdict is in, the check is over. A text with a NUL character in one
/// of its words is left out: no engine can be asked about such a word.
pub proof fn lemma_token_check(accepted: Set<Seq<char>>, text: Seq<char>)
    requires
        speakable(tokens(text)),
    ensures
        token_check(accepted, text).errors == Ok::<Seq<Seq<char>>, Fault>(
            misspelled(tokens(text), accepted),
        ),
        pending(token_check(accepted, text).state) is None,
{
    let s = initial(Backend::TokenFilter, text);
    assert(verdicts(s.words, accepted).skip(0) =~= verdicts(tokens(text), accepted));
    assert(s.words.skip(0) =~= tokens(text));
    lemma_token_run(s, accepted);
}

/// Known words are no errors.
pub proof fn lemma_misspelled_none(words: Seq<Seq<char>>, accepted: Set<Seq<char>>)
    requires
        forall|i: int| 0 <= i < words.len() ==> accepted.contains(#[trigger] words[i]),
    ensures
        misspelled(words, accepted) == Seq::<Seq<char>>::empty(),
    decreases words.len(),
{
    if words.len() > 0 {
        assert(accepted.contains(words[0]));
        assert forall|i: int| 0 <= i < words.skip(1).len() implies accepted.contains(
            #[trigger] words.skip(1)[i],
        ) by {
            assert(words.skip(1)[i] == words[i + 1]);
        }
        lemma_misspelled_none(words.skip(1), accepted);
    }
}

/// Where no word is known, every word is an error.
pub proof fn lemma_misspelled_all(words: Seq<Seq<char>>, accepted: Set<Seq<char>>)
    requires
        forall|i: int| 0 <= i < words.len() ==> !accepted.contains(#[trigger] words[i]),
    ensures
        misspelled(words, accepted) == words,
    decreases words.len(),
{
    if words.len() > 0 {
        assert(!accepted.contains(words[0]));
        assert forall|i: int| 0 <= i < words.skip(1).len() implies !accepted.contains(
            #[trigger] words.skip(1)[i],
        ) by {
            assert(words.skip(1)[i] == words[i + 1]);
        }
        lemma_misspelled_all(words.skip(1), accepted);
        assert(seq![words[0]] + words.skip(1) =~= words);
    } else {
        assert(misspelled(words, accepted) =~= words);
    }
}

/// A text in which the engine knows every word has no errors.
pub proof fn lemma_no_errors(accepted: Set<Seq<char>>, text: Seq<char>)
    requires
        speakable(tokens(text)),
        forall|i: int| 0 <= i < tokens(text).len() ==> accepted.contains(#[trigger] tokens(text)[i]),
    ensures
        token_check(accepted, text).errors == Ok::<Seq<Seq<char>>, Fault>(Seq::empty()),
{
    lemma_token_check(accepted, text);
    lemma_misspelled_none(tokens(text), accepted);
}

/// A text that is one word which the engine does not know has that word as
/// its one error.
pub proof fn lemma_single_error(accepted: Set<Seq<char>>, word: Seq<char>)
    requires
        word.len() > 0,
        no_whitespace(word),
        !word.contains('\0'),
        !accepted.contains(word),
    ensures
        token_check(accepted, word).errors == Ok::<Seq<Seq<char>>, Fault>(seq![word]),
{
    lemma_tokens_single(word);
    lemma_token_check(accepted, word);
    lemma_misspelled_all(seq![word], accepted);
}

/// Where the engine knows none of the words, the errors are the words of the
/// text from left to right, one for each.
pub proof fn lemma_errors_in_order(accepted: Set<Seq<char>>, text: Seq<char>)
    requires
        speakable(tokens(text)),
        forall|i: int|
            0 <= i < tokens(text).len() ==> !accepted.contains(#[trigger] tokens(text)[i]),
    ensures
        token_check(accepted, text).errors == Ok::<Seq<Seq<char>>, Fault>(tokens(text)),
{
    lemma_token_check(accepted, text);
    lemma_misspelled_all(tokens(text), accepted);
}

/// Several words that the engine does not know, written with spaces between
/// them, are the errors of what was written: one for each, from left to
/// right, and a word that occurs twice is an error twice.
pub proof fn lemma_errors_one_per_word(accepted: Set<Seq<char>>, words: Seq<Seq<char>>)
    requires
        forall|i: int|
            0 <= i < words.len() ==> (#[trigger] words[i]).len() > 0 && no_whitespace(words[i])
                && !accepted.contains(words[i]),
        speakable(words),
    ensures
        token_check(accepted, spaced(words)).errors == Ok::<Seq<Seq<char>>, Fault>(words),
{
    lemma_tokens_spaced(words);
    lemma_errors_in_order(accepted, spaced(words));
}

/// The errors of a token filter are the words that pass the test of being
/// unknown, as a filter picks them.
pub proof fn lemma_misspelled_filter(words: Seq<Seq<char>>, accepted: Set<Seq<char>>)
    ensures
        misspelled(words, accepted) == words.filter(|w: Seq<char>| !accepted.contains(w)),
    decreases words.len(),
{
    let unknown = |w: Seq<char>| !accepted.contains(w);
    if words.len() == 0 {
        reveal(Seq::filter);
        assert(words.filter(unknown) =~= Seq::<Seq<char>>::empty());
    } else {
        lemma_misspelled_filter(words.skip(1), accepted);
        words.skip(1).lemma_filter_prepend(words[0], unknown);
        assert(seq![words[0]] + words.skip(1) =~= words);
        assert(Seq::<Seq<char>>::empty() + words.skip(1).filter(unknown) =~= words.skip(1).filter(
            unknown,
        ));
    }
}

/// A check of the empty text asks nothing of the engine, whatever its kind,
/// and a token filter asks nothing about a text of whitespace alone.
pub proof fn lemma_empty_text(backend: Backend, text: Seq<char>)
    requires
        text.len() == 0 || (backend is TokenFilter && all_whitespace(text)),
    ensures
        pending(initial(backend, text)) is None,
        drive(initial(backend, text), Seq::empty()).errors == Ok::<Seq<Seq<char>>, Fault>(
            Seq::empty(),
        ),
{
    if backend is TokenFilter {
        lemma_tokens_blank(text);
    }
}

/// Two checks of one text in one session, with nothing ignored in between,
/// bring the same errors: the first check leaves the session as it was, so
/// the second begins with the same cursor, and equal cursors make the same
/// run through equal answers.
pub proof fn lemma_check_repeatable(
    before: Checker,
    between: Checker,
    after: Checker,
    text: Seq<char>,
    first: CursorState,
    second: CursorState,
    replies: Seq<Reply>,
    dictionary: Set<Seq<char>>,
)
    requires
        checked(before, between, text, first),
        checked(between, after, text, second),
    ensures
        second == first,
        after == before,
        after.accepted(dictionary) == before.accepted(dictionary),
        drive(second, replies) == drive(first, replies),
{
}

/// A word that the engine does not know is an error until the session is
/// told to ignore it, and none from then on.
pub proof fn lemma_ignore_effect(
    before: Checker,
    after: Checker,
    dictionary: Set<Seq<char>>,
    word: Seq<char>,
)
    requires
        word.len() > 0,
        no_whitespace(word),
        !word.contains('\0'),
        !before.accepted(dictionary).contains(word),
        after.ignored() == before.ignored().insert(word),
    ensures
        token_check(before.accepted(dictionary), word).errors == Ok::<Seq<Seq<char>>, Fault>(
            seq![word],
        ),
        token_check(after.accepted(dictionary), word).errors == Ok::<Seq<Seq<char>>, Fault>(
            Seq::empty(),
        ),
{
    lemma_single_error(before.accepted(dictionary), word);
    lemma_tokens_single(word);
    assert(after.accepted(dictionary).contains(word));
    assert(forall|i: int|
        0 <= i < tokens(word).len() ==> after.accepted(dictionary).contains(
            #[trigger] tokens(word)[i],
        ));
    lemma_no_errors(after.accepted(dictionary), word);
}

/// What one session ignores, another does not: a word outside the
/// dictionary is an error in every session in which nothing was ignored,
/// whatever was ignored elsewhere.
pub proof fn lemma_ignore_scope(
    other: Checker,
    fresh: Checker,
    dictionary: Set<Seq<char>>,
    word: Seq<char>,
)
    requires
        word.len() > 0,
        no_whitespace(word),
        !word.contains('\0'),
        !dictionary.contains(word),
        other.ignored().contains(word),
        fresh.ignored() == Set::<Seq<char>>::empty(),
    ensures
        token_check(fresh.accepted(dictionary), word).errors == Ok::<Seq<Seq<char>>, Fault>(
            seq![word],
        ),
        token_check(other.accepted(dictionary), word).errors == Ok::<Seq<Seq<char>>, Fault>(
            Seq::empty(),
        ),
{
    lemma_single_error(fresh.accepted(dictionary), word);
    lemma_tokens_single(word);
    assert(forall|i: int|
        0 <= i < tokens(word).len() ==> other.accepted(dictionary).contains(
            #[trigger] tokens(word)[i],
        ));
    lemma_no_errors(other.accepted(dictionary), word);
}

/// Every character takes one code unit or two.
pub proof fn lemma_encode_len(text: Seq<char>)
    ensures
        text.len() <= encode_utf16(text).len() <= 2 * text.len(),
    decreases text.len(),
{
    if text.len() > 0 {
        lemma_encode_len(text.skip(1));
    }
}

/// A reported range that covers a stretch of the text, code unit for code
/// unit, brings that stretch as the error, wherever the cursor stands. A
/// scanning cursor moves to the end of the range.
pub proof fn lemma_reported_stretch(
    s: CursorState,
    before: Seq<char>,
    stretch: Seq<char>,
    after: Seq<char>,
)
    requires
        s.units == encode_utf16(before + stretch + after),
    ensures
        reported(s, encode_utf16(before).len(), encode_utf16(stretch).len()) == (Outcome {
            state: if s.backend is RangeScan {
                moved_to(s, encode_utf16(before).len() + encode_utf16(stretch).len())
            } else {
                s
            },
            result: Ok(Some(stretch)),
        }),
{
    lemma_encode_concat(before + stretch, after);
    lemma_encode_concat(before, stretch);
    lemma_decode_stretch(before, stretch, after);
}

/// A scanning engine that finds nothing leaves the check without errors.
pub proof fn lemma_scan_finds_nothing(text: Seq<char>, length: u64)
    ensures
        drive(
            initial(Backend::RangeScan, text),
            if text.len() == 0 {
                Seq::empty()
            } else {
                seq![Reply::Range { location: NOT_FOUND, length }]
            },
        ).errors == Ok::<Seq<Seq<char>>, Fault>(Seq::empty()),
        pending(
            drive(
                initial(Backend::RangeScan, text),
                if text.len() == 0 {
                    Seq::empty()
                } else {
                    seq![Reply::Range { location: NOT_FOUND, length }]
                },
            ).state,
        ) is None,
{
    if text.len() > 0 {
        let replies = seq![Reply::Range { location: NOT_FOUND, length }];
        assert(replies.skip(1).len() == 0);
        reveal_with_fuel(drive, 2);
    }
}

/// A scanning engine that reports the whole of a text, and then nothing
/// more, brings the text as the one error.
pub proof fn lemma_scan_whole_text(text: Seq<char>, length: u64, last: u64)
    requires
        text.len() > 0,
        length == encode_utf16(text).len(),
    ensures
        drive(
            initial(Backend::RangeScan, text),
            seq![
                Reply::Range { location: 0, length },
                Reply::Range { location: NOT_FOUND, length: last },
            ],
        ).errors == Ok::<Seq<Seq<char>>, Fault>(seq![text]),
{
    let s = initial(Backend::RangeScan, text);
    let replies = seq![
        Reply::Range { location: 0, length },
        Reply::Range { location: NOT_FOUND, length: last },
    ];
    let nothing = Seq::<char>::empty();
    assert(nothing + text + nothing =~= text);
    assert(encode_utf16(nothing).len() == 0);
    lemma_reported_stretch(s, nothing, text, nothing);
    assert(replies.skip(1).skip(1).len() == 0);
    assert(replies.skip(1)[0] == replies[1]);
    reveal_with_fuel(drive, 3);
    assert(seq![text] + Seq::<Seq<char>>::empty() =~= seq![text]);
}

/// An enumerating engine that takes the text and has no finding leaves the
/// check without errors.
pub proof fn lemma_enumeration_empty(text: Seq<char>, opened: i32, last: Reply)
    requires
        text.len() > 0,
        opened >= 0,
        last matches Reply::Element { status, .. } && status == END_OF_ERRORS,
    ensures
        drive(
            initial(Backend::Enumerator, text),
            seq![Reply::Opened { status: opened }, last],
        ).errors == Ok::<Seq<Seq<char>>, Fault>(Seq::empty()),
{
    let replies = seq![Reply::Opened { status: opened }, last];
    assert(replies.skip(1).skip(1).len() == 0);
    assert(replies.skip(1)[0] == replies[1]);
    reveal_with_fuel(drive, 3);
}

/// An enumerating engine whose one finding is the whole of a text brings the
/// text as the one error.
pub proof fn lemma_enumeration_whole_text(text: Seq<char>, length: u32, last: Reply)
    requires
        text.len() > 0,
        length == encode_utf16(text).len(),
        last matches Reply::Element { status, .. } && status == END_OF_ERRORS,
    ensures
        drive(
            initial(Backend::Enumerator, text),
            seq![
                Reply::Opened { status: 0 },
                Reply::Element { status: 0, start: 0, start_status: 0, length, length_status: 0 },
                last,
            ],
        ).errors == Ok::<Seq<Seq<char>>, Fault>(seq![text]),
{
    let s = initial(Backend::Enumerator, text);
    let replies = seq![
        Reply::Opened { status: 0 },
        Reply::Element { status: 0, start: 0, start_status: 0, length, length_status: 0 },
        last,
    ];
    let nothing = Seq::<char>::empty();
    let end = seq!['\0'];
    assert(nothing + text + end =~= text.push('\0'));
    assert(encode_utf16(nothing).len() == 0);
    lemma_encode_push(text, '\0');
    assert(encode_utf16(text) + seq![0u16] =~= encode_utf16(text).push(0u16));
    let pulling = step(s, replies[0]).state;
    lemma_reported_stretch(pulling, nothing, text, end);
    assert(replies.skip(1)[0] == replies[1]);
    assert(replies.skip(1).skip(1)[0] == replies[2]);
    assert(replies.skip(1).skip(1).skip(1).len() == 0);
    reveal_with_fuel(drive, 4);
    assert(seq![text] + Seq::<Seq<char>>::empty() =~= seq![text]);
}

/// An element that lies within the wide text and decodes is an error with
/// the text that it holds, whatever was found before it and however short
/// it is.
pub proof fn lemma_element_is_error(s: CursorState, start: u32, length: u32, status: i32)
    requires
        s.backend is Enumerator,
        s.phase is Pulling,
        status >= 0 && status != END_OF_ERRORS,
        start + length <= s.units.len(),
        decode_utf16(s.units.subrange(start as int, start + length)) is Some,
    ensures
        step(
            s,
            Reply::Element { status, start, start_status: 0, length, length_status: 0 },
        ) == (Outcome {
            state: s,
            result: Ok(decode_utf16(s.units.subrange(start as int, start + length))),
        }),
{
}

/// A range that a scanning engine reports within the text, and that
/// decodes, is an error with the text that it holds, and the next scan
/// starts at the range's end, wherever the range begins.
pub proof fn lemma_range_is_error(s: CursorState, location: u64, length: u64)
    requires
        s.backend is RangeScan,
        s.phase is Pulling,
        location != NOT_FOUND,
        location + length <= s.units.len(),
        decode_utf16(s.units.subrange(location as int, location + length)) is Some,
    ensures
        step(s, Reply::Range { location, length }) == (Outcome {
            state: moved_to(s, (location + length) as nat),
            result: Ok(
                decode_utf16(s.units.subrange(location as int, location + length)),
            ),
        }),
        pending(step(s, Reply::Range { location, length }).state) == Some(
            RequestView::Scan { offset: (location + length) as nat },
        ),
{
}

/// How an engine that reports ranges reports the code units from `start` on,
/// `length` of them, with every call succeeding.
pub open spec fn finding(backend: Backend, start: nat, length: nat) -> Reply {
    if backend is RangeScan {
        Reply::Range { location: start as u64, length: length as u64 }
    } else {
        Reply::Element {
            status: 0,
            start: start as u32,
            start_status: 0,
            length: length as u32,
            length_status: 0,
        }
    }
}

/// How an engine that reports ranges says that it has none left.
pub open spec fn nothing_more(backend: Backend) -> Reply {
    if backend is RangeScan {
        Reply::Range { location: NOT_FOUND, length: 0 }
    } else {
        Reply::Element { status: END_OF_ERRORS, start: 0, start_status: 0, length: 0, length_status: 0 }
    }
}

/// The replies of an engine that finds each of `words` misspelled, where the
/// words are written with a space between them and the first begins at code
/// unit `from`: the range of each word in turn, and then the end.
pub open spec fn findings(backend: Backend, words: Seq<Seq<char>>, from: nat) -> Seq<Reply>
    decreases words.len(),
{
    if words.len() == 0 {
        seq![nothing_more(backend)]
    } else {
        seq![finding(backend, from, encode_utf16(words[0]).len())] + findings(
            backend,
            words.skip(1),
            from + encode_utf16(words[0]).len() + 1,
        )
    }
}

proof fn lemma_findings_run(
    s: CursorState,
    before: Seq<char>,
    words: Seq<Seq<char>>,
    tail: Seq<char>,
)
    requires
        s.backend is RangeScan || s.backend is Enumerator,
        s.phase is Pulling,
        s.units == encode_utf16(before + spaced(words) + tail),
        s.units.len() <= u32::MAX,
    ensures
        drive(s, findings(s.backend, words, encode_utf16(before).len())).errors == Ok::<
            Seq<Seq<char>>,
            Fault,
        >(words),
        pending(drive(s, findings(s.backend, words, encode_utf16(before).len())).state) is None,
    decreases words.len(),
{
    let from = encode_utf16(before).len();
    let replies = findings(s.backend, words, from);
    if words.len() == 0 {
        assert(replies.skip(1).len() == 0);
        reveal_with_fuel(drive, 2);
        assert(words =~= Seq::<Seq<char>>::empty());
    } else {
        let word = words[0];
        let rest = words.skip(1);
        let after = if words.len() == 1 {
            tail
        } else {
            seq![' '] + spaced(rest) + tail
        };
        let next = if words.len() == 1 {
            before + word
        } else {
            (before + word).push(' ')
        };
        assert(before + spaced(words) + tail =~= before + word + after);
        lemma_encode_concat(before + word, after);
        lemma_encode_concat(before, word);
        lemma_reported_stretch(s, before, word, after);
        let outcome = step(s, replies[0]);
        assert(outcome.result == Ok::<Option<Seq<char>>, Fault>(Some(word)));
        if words.len() == 1 {
            assert(spaced(rest) =~= Seq::<char>::empty());
            assert(next + spaced(rest) + tail =~= before + word + after);
            reveal_with_fuel(findings, 2);
        } else {
            assert(next + spaced(rest) + tail =~= before + word + after);
            lemma_encode_push(before + word, ' ');
        }
        lemma_findings_run(outcome.state, next, rest, tail);
        assert(replies.skip(1) =~= findings(s.backend, rest, encode_utf16(next).len()));
        assert(seq![word] + rest =~= words);
    }
}

/// Several words with spaces between them, each of which a scanning engine
/// reports in its turn: the errors are the words, one for each, from left to
/// right, and a word that occurs twice is an error twice.
pub proof fn lemma_scan_reports_words(words: Seq<Seq<char>>)
    requires
        spaced(words).len() > 0,
        encode_utf16(spaced(words)).len() <= u32::MAX,
    ensures
        drive(
            initial(Backend::RangeScan, spaced(words)),
            findings(Backend::RangeScan, words, 0),
        ).errors == Ok::<Seq<Seq<char>>, Fault>(words),
{
    let s = initial(Backend::RangeScan, spaced(words));
    let nothing = Seq::<char>::empty();
    assert(nothing + spaced(words) + nothing =~= spaced(words));
    assert(encode_utf16(nothing).len() == 0);
    lemma_findings_run(s, nothing, words, nothing);
}

/// Several words with spaces between them, each of which an enumerating
/// engine hands out in its turn: the errors are the words, one for each,
/// from left to right, and a word that occurs twice is an error twice.
pub proof fn lemma_enumeration_reports_words(words: Seq<Seq<char>>)
    requires
        spaced(words).len() > 0,
        encode_utf16(spaced(words)).len() < u32::MAX,
    ensures
        drive(
            initial(Backend::Enumerator, spaced(words)),
            seq![Reply::Opened { status: 0 }] + findings(Backend::Enumerator, words, 0),
        ).errors == Ok::<Seq<Seq<char>>, Fault>(words),
{
    let s = initial(Backend::Enumerator, spaced(words));
    let replies = seq![Reply::Opened { status: 0 }] + findings(Backend::Enumerator, words, 0);
    let pulling = in_phase(s, Phase::Pulling);
    let nothing = Seq::<char>::empty();
    let end = seq!['\0'];
    assert(nothing + spaced(words) + end =~= spaced(words).push('\0'));
    assert(encode_utf16(nothing).len() == 0);
    lemma_encode_push(spaced(words), '\0');
    assert(encode_utf16(spaced(words)) + seq![0u16] =~= encode_utf16(spaced(words)).push(0u16));
    lemma_findings_run(pulling, nothing, words, end);
    assert(replies[0] == Reply::Opened { status: 0 });
    assert(replies.skip(1) =~= findings(Backend::Enumerator, words, 0));
    assert(step(s, replies[0]).state == pulling);
}

/// A failing status of any of the three calls behind an element gives up the
/// check: it is neither an error nor the end.
pub proof fn lemma_element_failure(s: CursorState, reply: Reply)
    requires
        s.backend is Enumerator,
        s.phase is Pulling,
        reply matches Reply::Element { status, start_status, length_status, .. } && (status < 0 || (
            status != END_OF_ERRORS && (start_status < 0 || length_status < 0))),
    ensures
        step(s, reply).result matches Err(Fault::EngineFailure { status }) && status < 0,
        pending(step(s, reply).state) is None,
{
}

/// A step keeps a cursor within what it walks over, and changes neither the
/// kind of engine nor the text.
pub proof fn lemma_step_in_bounds(s: CursorState, reply: Reply)
    requires
        in_bounds(s),
    ensures
        in_bounds(step(s, reply).state),
        step(s, reply).state.backend == s.backend,
        step(s, reply).state.units == s.units,
        step(s, reply).state.words == s.words,
{
}

/// A token filter moves on with every verdict, so its errors come from left
/// to right.
pub proof fn lemma_token_filter_moves_on(s: CursorState, replies: Seq<Reply>)
    requires
        s.backend is TokenFilter,
    ensures
        run_moves_on(s, replies),
    decreases replies.len(),
{
    if replies.len() > 0 {
        lemma_token_filter_moves_on(step(s, replies[0]).state, replies.skip(1));
    }
}

/// A scanning cursor moves on with every range that ends behind the offset
/// from which the engine was asked.
pub proof fn lemma_scan_moves_on(s: CursorState, location: u64, length: u64)
    requires
        s.backend is RangeScan,
        location + length > s.position,
    ensures
        moves_on(s, Reply::Range { location, length }),
{
}

/// A check in which every step moves on is finite: it brings no more errors
/// than the cursor has words, or code units, ahead of it. That is every check
/// of a token filter, and a scan for as long as the engine reports ranges
/// that end behind the offset it was asked from. An enumeration is ended by
/// the engine alone.
pub proof fn lemma_drive_bounded(s: CursorState, replies: Seq<Reply>)
    requires
        in_bounds(s),
        run_moves_on(s, replies),
    ensures
        in_bounds(drive(s, replies).state),
        drive(s, replies).errors matches Ok(errors) ==> errors.len() + remaining(
            drive(s, replies).state,
        ) <= remaining(s),
    decreases replies.len(),
{
    if replies.len() > 0 {
        let outcome = step(s, replies[0]);
        lemma_step_in_bounds(s, replies[0]);
        if outcome.result is Ok {
            lemma_drive_bounded(outcome.state, replies.skip(1));
        }
    }
}

} // verus!
