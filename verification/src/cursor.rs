//! The cursor of one check: a state machine that asks for one engine call at
//! a time and turns each answer into the next spelling error, if there is one.

use vstd::prelude::*;
use vstd::slice::slice_subrange;
use crate::cstr::has_nul;
use crate::protocol::{Backend, Fault, Reply, Request, RequestView, SpellingError};
use crate::protocol::{END_OF_ERRORS, NOT_FOUND};
use crate::wide::{decode_utf16, decode_wide, encode_utf16, encode_wide, wide_string, WIDE_NUL};
use crate::words::{split_whitespace, texts, tokens};

verus! {

/// Where a cursor stands in its exchange with the engine.
#[derive(Clone, Copy, Debug, PartialEq, Eq)]
pub enum Phase {
    /// The engine has yet to be given the text.
    Opening,
    /// The engine is being asked for errors.
    Pulling,
    /// Nothing more will be asked.
    Exhausted,
}

/// A cursor, as contracts speak of it.
pub struct CursorState {
    pub backend: Backend,
    /// The code units that reported ranges count in: the UTF-16 encoding of
    /// the text for a scanning engine, the wide copy of the text with its
    /// terminator for an enumerating one. Empty for a token filter.
    pub units: Seq<u16>,
    /// The words of the text. Empty unless for a token filter.
    pub words: Seq<Seq<char>>,
    /// The code unit from which a scanning engine is asked next, or the
    /// number of words that have had their verdict. An enumeration leaves it
    /// at zero.
    pub position: nat,
    pub phase: Phase,
}

/// A state and what came out of the step that led to it.
pub struct Outcome {
    pub state: CursorState,
    pub result: Result<Option<Seq<char>>, Fault>,
}

/// The state of a cursor when a check of `text` begins. An empty text leaves
/// nothing to ask.
pub open spec fn initial(backend: Backend, text: Seq<char>) -> CursorState {
    CursorState {
        backend,
        units: match backend {
            Backend::RangeScan => encode_utf16(text),
            Backend::Enumerator => encode_utf16(text).push(WIDE_NUL),
            Backend::TokenFilter => Seq::empty(),
        },
        words: if backend is TokenFilter {
            tokens(text)
        } else {
            Seq::empty()
        },
        position: 0,
        phase: match backend {
            Backend::RangeScan => if text.len() == 0 {
                Phase::Exhausted
            } else {
                Phase::Pulling
            },
            Backend::Enumerator => if text.len() == 0 {
                Phase::Exhausted
            } else {
                Phase::Opening
            },
            Backend::TokenFilter => if tokens(text).len() == 0 {
                Phase::Exhausted
            } else {
                Phase::Pulling
            },
        },
    }
}

/// The call that a cursor in state `s` waits for, if any.
pub open spec fn pending(s: CursorState) -> Option<RequestView> {
    match s.phase {
        Phase::Exhausted => None,
        Phase::Opening => match s.backend {
            Backend::Enumerator => Some(RequestView::Enumerate { text: s.units }),
            _ => None,
        },
        Phase::Pulling => match s.backend {
            Backend::RangeScan => Some(RequestView::Scan { offset: s.position }),
            Backend::Enumerator => Some(RequestView::Next),
            Backend::TokenFilter => if s.position < s.words.len() {
                Some(RequestView::Spell { word: s.words[s.position as int] })
            } else {
                None
            },
        },
    }
}

/// The cursor stands at a word that cannot be handed to the engine: an
/// engine that is asked about single words takes them as C strings, and a
/// word with a NUL character in it has no such form.
pub open spec fn unspeakable(s: CursorState) -> bool {
    pending(s) matches Some(RequestView::Spell { word }) && word.contains('\0')
}

/// `s` in another phase.
pub open spec fn in_phase(s: CursorState, phase: Phase) -> CursorState {
    CursorState { backend: s.backend, units: s.units, words: s.words, position: s.position, phase }
}

/// `s` moved on to `position`.
pub open spec fn moved_to(s: CursorState, position: nat) -> CursorState {
    CursorState { backend: s.backend, units: s.units, words: s.words, position, phase: s.phase }
}

/// The check is given up.
pub open spec fn failed(s: CursorState, fault: Fault) -> Outcome {
    Outcome { state: in_phase(s, Phase::Exhausted), result: Err(fault) }
}

/// The engine has nothing more to report.
pub open spec fn finished(s: CursorState) -> Outcome {
    Outcome { state: in_phase(s, Phase::Exhausted), result: Ok(None) }
}

/// The engine reported the code units from `start` on, `length` of them.
/// Every range that ends within the code units and decodes is an error with
/// the text that it holds. A scanning cursor then stands at the range's end;
/// an enumeration keeps its own place, and the cursor none.
pub open spec fn reported(s: CursorState, start: nat, length: nat) -> Outcome {
    if start + length > s.units.len() {
        failed(s, Fault::RangeOutOfBounds)
    } else {
        match decode_utf16(s.units.subrange(start as int, (start + length) as int)) {
            Some(text) => Outcome {
                state: if s.backend is RangeScan {
                    moved_to(s, start + length)
                } else {
                    s
                },
                result: Ok(Some(text)),
            },
            None => failed(s, Fault::Undecodable),
        }
    }
}

/// The engine gave its verdict on the word at the cursor's position. The
/// cursor moves to the next word; the word is an error if the verdict is
/// zero.
pub open spec fn judged(s: CursorState, word: Seq<char>, code: i32) -> Outcome {
    Outcome {
        state: CursorState {
            backend: s.backend,
            units: s.units,
            words: s.words,
            position: s.position + 1,
            phase: if s.position + 1 < s.words.len() {
                Phase::Pulling
            } else {
                Phase::Exhausted
            },
        },
        result: Ok(
            if code != 0 {
                None
            } else {
                Some(word)
            },
        ),
    }
}

/// One step of a cursor: from a state and the engine's reply to the next
/// state and the error that the reply brought, if any. A reply that does not
/// answer the pending request is a fault, as is any reply when nothing is
/// pending, and any reply about a word that the engine cannot have been
/// given.
pub open spec fn step(s: CursorState, reply: Reply) -> Outcome {
    if unspeakable(s) {
        failed(s, Fault::InteriorNul)
    } else {
        answered(s, reply)
    }
}

/// A step from a state whose pending request the engine can be given.
pub open spec fn answered(s: CursorState, reply: Reply) -> Outcome {
    match (pending(s), reply) {
        (Some(RequestView::Scan { .. }), Reply::Range { location, length }) => {
            if location == NOT_FOUND {
                finished(s)
            } else {
                reported(s, location as nat, length as nat)
            }
        },
        (Some(RequestView::Enumerate { .. }), Reply::Opened { status }) => {
            if status < 0 {
                failed(s, Fault::EngineFailure { status })
            } else {
                Outcome { state: in_phase(s, Phase::Pulling), result: Ok(None) }
            }
        },
        (
            Some(RequestView::Next),
            Reply::Element { status, start, start_status, length, length_status },
        ) => {
            if status < 0 {
                failed(s, Fault::EngineFailure { status })
            } else if status == END_OF_ERRORS {
                finished(s)
            } else if length_status < 0 {
                failed(s, Fault::EngineFailure { status: length_status })
            } else if start_status < 0 {
                failed(s, Fault::EngineFailure { status: start_status })
            } else {
                reported(s, start as nat, length as nat)
            }
        },
        (Some(RequestView::Spell { word }), Reply::Verdict { code }) => judged(s, word, code),
        _ => failed(s, Fault::UnexpectedReply),
    }
}

/// Where a run of steps ended and the errors that it brought, in the order
/// in which they came. A fault ends the run and leaves no errors.
pub struct Trace {
    pub state: CursorState,
    pub errors: Result<Seq<Seq<char>>, Fault>,
}

/// `found`, if it is an error, in front of the errors that came later.
pub open spec fn collected(found: Option<Seq<char>>, later: Result<Seq<Seq<char>>, Fault>) -> Result<
    Seq<Seq<char>>,
    Fault,
> {
    match later {
        Err(fault) => Err(fault),
        Ok(rest) => Ok(
            match found {
                Some(text) => seq![text] + rest,
                None => rest,
            },
        ),
    }
}

/// The run of a cursor from state `s` through the engine's `replies`, one
/// step for each.
pub open spec fn drive(s: CursorState, replies: Seq<Reply>) -> Trace
    decreases replies.len(),
{
    if replies.len() == 0 {
        Trace { state: s, errors: Ok(Seq::empty()) }
    } else {
        let outcome = step(s, replies[0]);
        match outcome.result {
            Err(fault) => Trace { state: outcome.state, errors: Err(fault) },
            Ok(found) => {
                let later = drive(outcome.state, replies.skip(1));
                Trace { state: later.state, errors: collected(found, later.errors) }
            },
        }
    }
}

/// The position of a cursor lies within what it walks over.
pub open spec fn in_bounds(s: CursorState) -> bool {
    match s.backend {
        Backend::TokenFilter => s.position <= s.words.len(),
        _ => s.position <= s.units.len(),
    }
}

/// How far a cursor can still move.
pub open spec fn remaining(s: CursorState) -> int {
    match s.backend {
        Backend::TokenFilter => s.words.len() - s.position,
        _ => s.units.len() - s.position,
    }
}

/// The step from `s` on `reply` brings no error without moving the cursor
/// on. A token filter always moves on. A scanning cursor does unless the
/// engine reports a range that ends at or before the offset it was asked
/// from.
pub open spec fn moves_on(s: CursorState, reply: Reply) -> bool {
    step(s, reply).result matches Ok(Some(_)) ==> step(s, reply).state.position > s.position
}

/// Every step of the run from `s` through `replies` moves on.
pub open spec fn run_moves_on(s: CursorState, replies: Seq<Reply>) -> bool
    decreases replies.len(),
{
    replies.len() == 0 || (moves_on(s, replies[0]) && run_moves_on(
        step(s, replies[0]).state,
        replies.skip(1),
    ))
}

/// What a step's result says, with the error as its text.
pub open spec fn result_view(result: Result<Option<SpellingError>, Fault>) -> Result<
    Option<Seq<char>>,
    Fault,
> {
    match result {
        Ok(Some(error)) => Ok(Some(error@)),
        Ok(None) => Ok(None),
        Err(fault) => Err(fault),
    }
}

/// The cursor of one check. It holds its own copy of the text, so it outlives
/// neither the text nor the session by accident.
#[derive(Debug)]
pub struct ErrorCursor {
    backend: Backend,
    units: Vec<u16>,
    words: Vec<String>,
    position: usize,
    phase: Phase,
}

impl View for ErrorCursor {
    type V = CursorState;

    closed spec fn view(&self) -> CursorState {
        CursorState {
            backend: self.backend,
            units: self.units@,
            words: texts(self.words@),
            position: self.position as nat,
            phase: self.phase,
        }
    }
}

impl ErrorCursor {
    /// The cursor for a check of `text`.
    pub(crate) fn start(backend: Backend, text: &str) -> (cursor: ErrorCursor)
        ensures
            cursor@ == initial(backend, text@),
    {
        match backend {
            Backend::RangeScan | Backend::Enumerator => {
                let phase = if text.is_empty() {
                    Phase::Exhausted
                } else {
                    match backend {
                        Backend::Enumerator => Phase::Opening,
                        _ => Phase::Pulling,
                    }
                };
                let units = match backend {
                    Backend::Enumerator => wide_string(text),
                    _ => encode_wide(text),
                };
                let cursor = ErrorCursor {
                    backend,
                    units,
                    words: Vec::new(),
                    position: 0,
                    phase,
                };
                assert(cursor@.words =~= Seq::<Seq<char>>::empty());
                cursor
            },
            Backend::TokenFilter => {
                let words = split_whitespace(text);
                let phase = if words.len() == 0 {
                    Phase::Exhausted
                } else {
                    Phase::Pulling
                };
                let cursor = ErrorCursor { backend, units: Vec::new(), words, position: 0, phase };
                assert(cursor@.units =~= Seq::<u16>::empty());
                cursor
            },
        }
    }

    /// The call that the cursor waits for. `None` once the check is over:
    /// after the engine's last answer, after a fault, and from the start for
    /// a text that leaves nothing to ask. The fault where the cursor stands
    /// at a word with a NUL character in it, which is never handed out.
    pub fn request(&self) -> (request: Result<Option<Request<'_>>, Fault>)
        ensures
            request is Err <==> unspeakable(self@),
            request is Err ==> request == Err::<Option<Request<'_>>, Fault>(Fault::InteriorNul),
            request matches Ok(Some(call)) ==> pending(self@) == Some(call@),
            request matches Ok(None) ==> pending(self@) is None,
    {
        match self.phase {
            Phase::Exhausted => Ok(None),
            Phase::Opening => match self.backend {
                Backend::Enumerator => Ok(Some(Request::Enumerate { text: self.units.as_slice() })),
                _ => Ok(None),
            },
            Phase::Pulling => match self.backend {
                Backend::RangeScan => Ok(Some(Request::Scan { offset: self.position })),
                Backend::Enumerator => Ok(Some(Request::Next)),
                Backend::TokenFilter => if self.position < self.words.len() {
                    let word = self.words[self.position].as_str();
                    if has_nul(word) {
                        Err(Fault::InteriorNul)
                    } else {
                        Ok(Some(Request::Spell { word }))
                    }
                } else {
                    Ok(None)
                },
            },
        }
    }

    fn stands_at_unspeakable(&self) -> (refused: bool)
        ensures
            refused == unspeakable(self@),
    {
        match (self.phase, self.backend) {
            (Phase::Pulling, Backend::TokenFilter) => self.position < self.words.len() && has_nul(
                self.words[self.position].as_str(),
            ),
            _ => false,
        }
    }

    /// Whether the check is over.
    pub fn is_exhausted(&self) -> (over: bool)
        ensures
            over == (pending(self@) is None),
    {
        match self.phase {
            Phase::Exhausted => true,
            Phase::Opening => match self.backend {
                Backend::Enumerator => false,
                _ => true,
            },
            Phase::Pulling => match self.backend {
                Backend::TokenFilter => self.position >= self.words.len(),
                _ => false,
            },
        }
    }

    fn fail(&mut self, fault: Fault) -> (result: Result<Option<SpellingError>, Fault>)
        ensures
            final(self)@ == failed(old(self)@, fault).state,
            result_view(result) == failed(old(self)@, fault).result,
    {
        self.phase = Phase::Exhausted;
        Err(fault)
    }

    fn finish(&mut self) -> (result: Result<Option<SpellingError>, Fault>)
        ensures
            final(self)@ == finished(old(self)@).state,
            result_view(result) == finished(old(self)@).result,
    {
        self.phase = Phase::Exhausted;
        Ok(None)
    }

    fn report(&mut self, start: u64, length: u64) -> (result: Result<Option<SpellingError>, Fault>)
        ensures
            final(self)@ == reported(old(self)@, start as nat, length as nat).state,
            result_view(result) == reported(old(self)@, start as nat, length as nat).result,
    {
        let len: u64 = self.units.len() as u64;
        if start > len || length > len - start {
            return self.fail(Fault::RangeOutOfBounds);
        }
        let from: usize = start as usize;
        let to: usize = (start + length) as usize;
        let decoded = decode_wide(slice_subrange(self.units.as_slice(), from, to));
        match decoded {
            Some(text) => {
                match self.backend {
                    Backend::RangeScan => {
                        self.position = to;
                    },
                    _ => {},
                }
                Ok(Some(SpellingError::new(text)))
            },
            None => self.fail(Fault::Undecodable),
        }
    }

    fn judge(&mut self, code: i32) -> (result: Result<Option<SpellingError>, Fault>)
        requires
            old(self).position < old(self).words.len(),
        ensures
            final(self)@ == judged(
                old(self)@,
                old(self)@.words[old(self)@.position as int],
                code,
            ).state,
            result_view(result) == judged(
                old(self)@,
                old(self)@.words[old(self)@.position as int],
                code,
            ).result,
    {
        let found = if code != 0 {
            None
        } else {
            Some(SpellingError::new(self.words[self.position].clone()))
        };
        self.position = self.position + 1;
        self.phase = if self.position < self.words.len() {
            Phase::Pulling
        } else {
            Phase::Exhausted
        };
        Ok(found)
    }

    /// Takes a reply of the engine on which the check goes on: one that
    /// answers the pending request, reports no failure, and whose range, if
    /// it has one, lies within the code units and decodes. Every other reply
    /// is fatal and left out here; `resolve` tells which it is. Returns the
    /// spelling error that the reply brought, and `None` where it brought
    /// none.
    pub fn take(&mut self, reply: Reply) -> (found: Option<SpellingError>)
        requires
            step(old(self)@, reply).result is Ok,
        ensures
            final(self)@ == step(old(self)@, reply).state,
            result_view(Ok::<Option<SpellingError>, Fault>(found)) == step(
                old(self)@,
                reply,
            ).result,
    {
        match self.resolve(reply) {
            Ok(found) => found,
            Err(_) => None,
        }
    }

    /// Takes the engine's reply to the pending request, whatever it is.
    /// Returns the spelling error that the reply brought, `None` where it
    /// brought none, and the fault where the check has to be given up.
    pub fn resolve(&mut self, reply: Reply) -> (result: Result<Option<SpellingError>, Fault>)
        ensures
            final(self)@ == step(old(self)@, reply).state,
            result_view(result) == step(old(self)@, reply).result,
    {
        if self.stands_at_unspeakable() {
            return self.fail(Fault::InteriorNul);
        }
        match self.phase {
            Phase::Exhausted => self.fail(Fault::UnexpectedReply),
            Phase::Opening => match (self.backend, reply) {
                (Backend::Enumerator, Reply::Opened { status }) => {
                    if status < 0 {
                        self.fail(Fault::EngineFailure { status })
                    } else {
                        self.phase = Phase::Pulling;
                        Ok(None)
                    }
                },
                _ => self.fail(Fault::UnexpectedReply),
            },
            Phase::Pulling => match (self.backend, reply) {
                (Backend::RangeScan, Reply::Range { location, length }) => {
                    if location == NOT_FOUND {
                        self.finish()
                    } else {
                        self.report(location, length)
                    }
                },
                (
                    Backend::Enumerator,
                    Reply::Element { status, start, start_status, length, length_status },
                ) => {
                    if status < 0 {
                        self.fail(Fault::EngineFailure { status })
                    } else if status == END_OF_ERRORS {
                        self.finish()
                    } else if length_status < 0 {
                        self.fail(Fault::EngineFailure { status: length_status })
                    } else if start_status < 0 {
                        self.fail(Fault::EngineFailure { status: start_status })
                    } else {
                        self.report(start as u64, length as u64)
                    }
                },
                (Backend::TokenFilter, Reply::Verdict { code }) => {
                    if self.position < self.words.len() {
                        self.judge(code)
                    } else {
                        self.fail(Fault::UnexpectedReply)
                    }
                },
                _ => self.fail(Fault::UnexpectedReply),
            },
        }
    }
}

} // verus!
