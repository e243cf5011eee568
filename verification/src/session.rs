//! The session that checks belong to.

use vstd::prelude::*;
use crate::cstr::has_nul;
use crate::cursor::{initial, CursorState, ErrorCursor};
use crate::protocol::{Backend, Fault, Request, RequestView};
use crate::setup::{SetupFault, Stage};

verus! {

/// What is to be done about a word that is to be ignored: the call to make
/// on the engine, nothing, or the reason why the word is refused. An engine
/// that takes C strings cannot be given a word with a NUL character in it.
/// An enumerating engine is not troubled with the empty word.
pub open spec fn ignore_request(backend: Backend, word: Seq<char>) -> Result<
    Option<RequestView>,
    Fault,
> {
    if backend is TokenFilter && word.contains('\0') {
        Err(Fault::InteriorNul)
    } else if backend is Enumerator && word.len() == 0 {
        Ok(None)
    } else {
        Ok(Some(RequestView::Ignore { word }))
    }
}

/// What the engine's answer to an ignore call comes to. A status that
/// reports failure is a fault, and so is an answer to a call that was never
/// to be made.
pub open spec fn ignore_outcome(backend: Backend, word: Seq<char>, status: i32) -> Result<(), Fault> {
    match ignore_request(backend, word) {
        Err(fault) => Err(fault),
        Ok(None) => Err(Fault::UnexpectedReply),
        Ok(Some(_)) => if status < 0 {
            Err(Fault::EngineFailure { status })
        } else {
            Ok(())
        },
    }
}

/// Setup has come to a usable engine: its last stage is done, and for a
/// token filter a dictionary was found. `choice` is what the search for a
/// dictionary gave, `last` what the last setup decision was; an engine that
/// needs no staged setup is ready from the start of it, `Ok(None)`.
pub open spec fn engine_ready(
    backend: Backend,
    choice: Option<usize>,
    last: Result<Option<Stage>, SetupFault>,
) -> bool {
    &&& last == Ok::<Option<Stage>, SetupFault>(None)
    &&& backend is TokenFilter ==> choice is Some
}

/// Whether setup has come to a usable engine.
pub fn engine_is_ready(
    backend: Backend,
    choice: Option<usize>,
    last: Result<Option<Stage>, SetupFault>,
) -> (ready: bool)
    ensures
        ready == engine_ready(backend, choice, last),
{
    let done = match last {
        Ok(None) => true,
        _ => false,
    };
    let found = match backend {
        Backend::TokenFilter => choice.is_some(),
        _ => true,
    };
    done && found
}

/// A session with one native engine. The engine's handle stays with whoever
/// makes the native calls; the session knows what kind of engine it is and,
/// for the proofs, which words the engine has taken to ignore.
pub struct Checker {
    backend: Backend,
    ignored: Ghost<Set<Seq<char>>>,
}

/// What a check of `text` leaves behind: the session as it was, and a cursor
/// that depends on the kind of engine and the text alone.
pub open spec fn checked(before: Checker, after: Checker, text: Seq<char>, cursor: CursorState) -> bool {
    &&& after == before
    &&& cursor == initial(before.kind(), text)
}

impl Checker {
    /// The kind of engine behind the session.
    pub closed spec fn kind(&self) -> Backend {
        self.backend
    }

    /// The words that the engine has taken to ignore in this session.
    pub closed spec fn ignored(&self) -> Set<Seq<char>> {
        self.ignored@
    }

    /// The words that the engine takes for correctly spelled in this
    /// session: those of its dictionary and those it was told to ignore.
    pub open spec fn accepted(&self, dictionary: Set<Seq<char>>) -> Set<Seq<char>> {
        dictionary.union(self.ignored())
    }

    /// A session with an engine of the given kind, once setup has come to a
    /// usable one. There is no session without an engine: where the
    /// subsystem, the dictionary or the engine itself could not be had,
    /// none is made. Nothing is ignored yet.
    pub fn new(
        backend: Backend,
        choice: Option<usize>,
        last: Result<Option<Stage>, SetupFault>,
    ) -> (session: Checker)
        requires
            engine_ready(backend, choice, last),
        ensures
            session.kind() == backend,
            session.ignored() == Set::<Seq<char>>::empty(),
    {
        Checker { backend, ignored: Ghost(Set::empty()) }
    }

    /// The kind of engine behind the session.
    pub fn backend(&self) -> (backend: Backend)
        ensures
            backend == self.kind(),
    {
        self.backend
    }

    /// Begins a check of `text`. The session is left as it was: a check
    /// never touches the ignore list. For an empty text the cursor asks for
    /// nothing, so the engine is not invoked.
    pub fn check(&mut self, text: &str) -> (cursor: ErrorCursor)
        ensures
            checked(*old(self), *final(self), text@, cursor@),
    {
        ErrorCursor::start(self.backend, text)
    }

    /// Has `word` ignored in the checks that follow, where the engine can be
    /// given the word. Returns the call to make on the engine, or `None`
    /// where there is none to make. The session is left as it was: the word
    /// counts as ignored once the engine's answer has been given to
    /// `confirm_ignore`.
    pub fn ignore<'a>(&mut self, word: &'a str) -> (request: Option<Request<'a>>)
        requires
            ignore_request(old(self).kind(), word@) is Ok,
        ensures
            *final(self) == *old(self),
            request is Some <==> ignore_request(old(self).kind(), word@)->Ok_0 is Some,
            request matches Some(call) ==> ignore_request(old(self).kind(), word@) == Ok::<
                Option<RequestView>,
                Fault,
            >(Some(call@)),
    {
        match self.try_ignore(word) {
            Ok(request) => request,
            Err(_) => None,
        }
    }

    /// Takes the status with which the engine answered the call to ignore
    /// `word`, where the call was due and succeeded; zero stands for an
    /// engine whose call has no status. The word is ignored from now on.
    pub fn confirm_ignore(&mut self, word: &str, status: i32)
        requires
            ignore_outcome(old(self).kind(), word@, status) is Ok,
        ensures
            final(self).kind() == old(self).kind(),
            final(self).ignored() == old(self).ignored().insert(word@),
    {
        let _ = self.try_confirm_ignore(word, status);
    }

    /// Whether `word` can be handed to the engine to be ignored.
    pub fn can_ignore(&self, word: &str) -> (can: bool)
        ensures
            can == (ignore_request(self.kind(), word@) is Ok),
    {
        match self.backend {
            Backend::TokenFilter => !has_nul(word),
            _ => true,
        }
    }

    /// Prepares to have `word` ignored, whatever the word. Returns the call
    /// to make on the engine, `None` where there is none to make, and the
    /// fault where the word cannot be handed to the engine. The session is
    /// left as it was.
    pub fn try_ignore<'a>(&mut self, word: &'a str) -> (request: Result<Option<Request<'a>>, Fault>)
        ensures
            *final(self) == *old(self),
            request is Ok <==> ignore_request(old(self).kind(), word@) is Ok,
            request matches Err(fault) ==> ignore_request(old(self).kind(), word@) == Err::<
                Option<RequestView>,
                Fault,
            >(fault),
            request matches Ok(Some(call)) ==> ignore_request(old(self).kind(), word@) == Ok::<
                Option<RequestView>,
                Fault,
            >(Some(call@)),
            request matches Ok(None) ==> ignore_request(old(self).kind(), word@) == Ok::<
                Option<RequestView>,
                Fault,
            >(None),
    {
        match self.backend {
            Backend::TokenFilter => if has_nul(word) {
                Err(Fault::InteriorNul)
            } else {
                Ok(Some(Request::Ignore { word }))
            },
            Backend::Enumerator => if word.is_empty() {
                Ok(None)
            } else {
                Ok(Some(Request::Ignore { word }))
            },
            Backend::RangeScan => Ok(Some(Request::Ignore { word })),
        }
    }

    /// Takes the status with which the engine answered the call to ignore
    /// `word`, whatever it is. On success the word is ignored from now on.
    /// On a fault the ignore list stays as it was.
    pub fn try_confirm_ignore(&mut self, word: &str, status: i32) -> (outcome: Result<(), Fault>)
        ensures
            outcome == ignore_outcome(old(self).kind(), word@, status),
            final(self).kind() == old(self).kind(),
            final(self).ignored() == if outcome is Ok {
                old(self).ignored().insert(word@)
            } else {
                old(self).ignored()
            },
    {
        let due = match self.backend {
            Backend::TokenFilter => if has_nul(word) {
                return Err(Fault::InteriorNul);
            } else {
                true
            },
            Backend::Enumerator => !word.is_empty(),
            Backend::RangeScan => true,
        };
        if !due {
            Err(Fault::UnexpectedReply)
        } else if status < 0 {
            Err(Fault::EngineFailure { status })
        } else {
            self.ignored = Ghost(self.ignored@.insert(word@));
            Ok(())
        }
    }
}

} // verus!
