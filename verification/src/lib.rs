//! One incremental spell-checking protocol over three kinds of native engine.
//!
//! A native engine is reached through foreign calls that this library never
//! makes itself. What the library holds is everything around those calls: the
//! encodings in which text is handed to an engine, the cursor that turns an
//! engine's answers into spelling errors, and the session that a cursor
//! belongs to. A caller asks the cursor what it needs from the engine, makes
//! that one call, and hands the answer back.

pub mod cstr;
pub mod cursor;
pub mod laws;
pub mod protocol;
pub mod session;
pub mod setup;
pub mod wide;
pub mod words;

pub use crate::cstr::{c_string, has_nul};
pub use crate::cursor::ErrorCursor;
pub use crate::protocol::{Backend, Fault, Reply, Request, SpellingError};
pub use crate::session::Checker;
pub use crate::wide::{decode_wide, encode_wide, wide_string};
pub use crate::words::split_whitespace;
