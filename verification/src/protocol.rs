//! The values that pass between a cursor and whoever reaches the engine.

use vstd::prelude::*;

verus! {

/// How a native engine reports spelling errors.
#[derive(Clone, Copy, Debug, PartialEq, Eq)]
pub enum Backend {
    /// The engine scans the text from an offset and reports the range of the
    /// first misspelling behind it.
    RangeScan,
    /// The engine checks the whole text once and hands out its findings one
    /// by one.
    Enumerator,
    /// The engine only says whether it knows a word.
    TokenFilter,
}

/// The location that a scanning engine reports when nothing is left to find.
pub const NOT_FOUND: u64 = 0x7FFF_FFFF_FFFF_FFFF;

/// The status with which an enumerating engine says that it has handed out
/// its last finding.
pub const END_OF_ERRORS: i32 = 1;

/// A status reports success unless it is negative.
pub open spec fn succeeded(status: i32) -> bool {
    status >= 0
}

/// Whether an engine call that returned `status` succeeded.
pub fn status_succeeded(status: i32) -> (r: bool)
    ensures
        r == succeeded(status),
{
    status >= 0
}

/// An element follows a call for the next one that succeeded and did not
/// report the end.
pub open spec fn follows(status: i32) -> bool {
    succeeded(status) && status != END_OF_ERRORS
}

/// Whether the call for the next element, which returned `status`, handed
/// out an element whose range can be read.
pub fn element_follows(status: i32) -> (r: bool)
    ensures
        r == follows(status),
{
    status >= 0 && status != END_OF_ERRORS
}

/// One call that is to be made on the engine.
#[derive(Debug)]
pub enum Request<'a> {
    /// Scan the text that is being checked, starting at this code unit.
    Scan { offset: usize },
    /// Check this NUL-terminated wide text and keep the findings ready.
    Enumerate { text: &'a [u16] },
    /// Hand out the next finding.
    Next,
    /// Say whether this word is known. The word holds no NUL character, so
    /// it can be handed over as a C string.
    Spell { word: &'a str },
    /// Take this word for correctly spelled from now on.
    Ignore { word: &'a str },
}

/// A request, as contracts speak of it.
pub enum RequestView {
    Scan { offset: nat },
    Enumerate { text: Seq<u16> },
    Next,
    Spell { word: Seq<char> },
    Ignore { word: Seq<char> },
}

impl<'a> View for Request<'a> {
    type V = RequestView;

    open spec fn view(&self) -> RequestView {
        match *self {
            Request::Scan { offset } => RequestView::Scan { offset: offset as nat },
            Request::Enumerate { text } => RequestView::Enumerate { text: text@ },
            Request::Next => RequestView::Next,
            Request::Spell { word } => RequestView::Spell { word: word@ },
            Request::Ignore { word } => RequestView::Ignore { word: word@ },
        }
    }
}

/// What the engine answered, as it came back from the native call.
#[allow(inconsistent_fields)]
#[derive(Clone, Copy, Debug, PartialEq, Eq)]
pub enum Reply {
    /// To `Scan`: the range of a misspelling in code units, or `NOT_FOUND` as
    /// its location.
    Range { location: u64, length: u64 },
    /// To `Enumerate`: the status of the call.
    Opened { status: i32 },
    /// To `Next`: the status of the call and, unless that status is negative
    /// or `END_OF_ERRORS`, the finding's range in code units of the wide
    /// text, each half with the status of the call that read it.
    Element { status: i32, start: u32, start_status: i32, length: u32, length_status: i32 },
    /// To `Spell`: zero for a word that the engine does not know.
    Verdict { code: i32 },
}

/// Why a check was given up. There are no partial results: after a fault the
/// cursor asks for nothing more.
#[derive(Clone, Copy, Debug, PartialEq, Eq)]
pub enum Fault {
    /// The reply does not answer what the cursor had asked, or it had asked
    /// nothing.
    UnexpectedReply,
    /// The engine call itself reported failure.
    EngineFailure { status: i32 },
    /// The word holds a NUL character, which an engine that takes C strings
    /// cannot be given.
    InteriorNul,
    /// The reported range ends behind the text.
    RangeOutOfBounds,
    /// The code units in the reported range are not well-formed UTF-16.
    Undecodable,
}

/// A spelling error: the misspelled stretch of the text that was checked.
#[derive(Debug, PartialEq, Eq)]
pub struct SpellingError {
    text: String,
}

impl View for SpellingError {
    type V = Seq<char>;

    closed spec fn view(&self) -> Seq<char> {
        self.text@
    }
}

impl SpellingError {
    pub(crate) fn new(text: String) -> (error: SpellingError)
        ensures
            error@ == text@,
    {
        SpellingError { text }
    }

    /// The text of the misspelled word.
    pub fn text(&self) -> (text: &str)
        ensures
            text@ == self@,
    {
        self.text.as_str()
    }
}

} // verus!
