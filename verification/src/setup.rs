//! The decisions on the way to a usable engine. There is no degraded mode:
//! each of them ends in an engine or in the reason why there is none.

use vstd::prelude::*;
use vstd::string::*;
use crate::protocol::succeeded;
use crate::wide::{encode_utf16, push_char, wide_string, WIDE_NUL};

verus! {

/// The directory in which dictionaries are looked for.
pub open spec fn default_directory() -> Seq<char> {
    "/usr/share/hunspell"@
}

/// The name of the affix file of the one language that is checked.
pub open spec fn affix_name() -> Seq<char> {
    "en_US.aff"@
}

/// The name of the word list that belongs to the affix file.
pub open spec fn dictionary_name() -> Seq<char> {
    "en_US.dic"@
}

/// The tag by which an engine is asked for the one language that is checked.
pub open spec fn language() -> Seq<char> {
    "en-US"@
}

/// The path of the file `name` in `directory`: a separator goes between the
/// two unless the directory is empty or ends in one.
pub open spec fn joined(directory: Seq<char>, name: Seq<char>) -> Seq<char> {
    if directory.len() == 0 || directory.last() == '/' {
        directory + name
    } else {
        directory.push('/') + name
    }
}

/// The two files that make up a dictionary.
#[derive(Debug, PartialEq, Eq)]
pub struct DictionaryFiles {
    pub affix: String,
    pub dictionary: String,
}

/// The path of the file `name` in `directory`.
pub fn join(directory: &str, name: &str) -> (path: String)
    ensures
        path@ == joined(directory@, name@),
{
    let mut path = String::new();
    let mut last: Option<char> = None;
    let chars = directory.chars();
    for c in iter: chars
        invariant
            iter.seq() == directory@,
            path@ == directory@.take(iter.index@),
            last == if iter.index@ == 0 {
                None::<char>
            } else {
                Some(directory@[iter.index@ - 1])
            },
    {
        push_char(&mut path, c);
        last = Some(c);
        assert(path@ =~= directory@.take(iter.index@ + 1));
    }
    assert(directory@.take(directory@.len() as int) =~= directory@);
    match last {
        Some(c) => {
            if c != '/' {
                push_char(&mut path, '/');
            }
        },
        None => {},
    }
    path.append(name);
    path
}

/// The directories in which dictionaries are looked for, in the order in
/// which they are tried.
pub fn search_path() -> (directories: Vec<String>)
    ensures
        directories@.len() == 1,
        directories@[0]@ == default_directory(),
{
    let mut directories: Vec<String> = Vec::new();
    directories.push(String::from_str("/usr/share/hunspell"));
    directories
}

/// The affix file and the word list that `directory` would hold.
pub fn dictionary_files(directory: &str) -> (files: DictionaryFiles)
    ensures
        files.affix@ == joined(directory@, affix_name()),
        files.dictionary@ == joined(directory@, dictionary_name()),
{
    DictionaryFiles { affix: join(directory, "en_US.aff"), dictionary: join(directory, "en_US.dic") }
}

/// `index` is the first directory in which both files were found.
pub open spec fn is_first_complete(found: Seq<(bool, bool)>, index: int) -> bool {
    &&& 0 <= index < found.len()
    &&& found[index].0 && found[index].1
    &&& forall|j: int| 0 <= j < index ==> !((#[trigger] found[j]).0 && found[j].1)
}

/// Picks the dictionary to load. `found` says of each directory of the search
/// path, in order, whether its affix file and whether its word list exists.
/// `None` exactly where no directory holds both: then there is no engine.
pub fn first_complete(found: &[(bool, bool)]) -> (choice: Option<usize>)
    ensures
        choice is Some ==> is_first_complete(found@, choice->0 as int),
        choice is None ==> forall|j: int|
            0 <= j < found@.len() ==> !((#[trigger] found@[j]).0 && found@[j].1),
{
    let mut i: usize = 0;
    while i < found.len()
        invariant
            i <= found.len(),
            forall|j: int| 0 <= j < i ==> !((#[trigger] found@[j]).0 && found@[j].1),
        decreases found.len() - i,
    {
        if found[i].0 && found[i].1 {
            return Some(i);
        }
        i += 1;
    }
    None
}

/// The tag of the language that is checked, as a NUL-terminated wide string.
pub fn language_tag() -> (tag: Vec<u16>)
    ensures
        tag@ == encode_utf16(language()).push(WIDE_NUL),
{
    wide_string("en-US")
}

/// What is acquired on the way to an engine that is reached through a
/// component subsystem, in this order.
#[derive(Clone, Copy, Debug, PartialEq, Eq)]
pub enum Stage {
    /// The subsystem itself is initialised.
    Subsystem,
    /// The factory that makes engines.
    Factory,
    /// The engine for the language.
    Engine,
}

/// Why there is no engine.
#[derive(Clone, Copy, Debug, PartialEq, Eq)]
pub enum SetupFault {
    /// The subsystem could not be initialised.
    Subsystem { status: i32 },
    /// No factory could be had.
    Factory { status: i32 },
    /// The factory made no engine.
    Engine { status: i32 },
}

/// The stage with which setup begins.
pub fn first_stage() -> (stage: Stage)
    ensures
        stage == Stage::Subsystem,
{
    Stage::Subsystem
}

/// What follows a stage whose native call returned `status` and, where the
/// call hands out an object, an object or none (`present`): the next stage,
/// `None` once the engine is there, or the fault that ends setup. A call that
/// reports failure ends it, and so does an object that is missing although
/// the call reported success.
pub open spec fn after(stage: Stage, status: i32, present: bool) -> Result<Option<Stage>, SetupFault> {
    match stage {
        Stage::Subsystem => if succeeded(status) {
            Ok(Some(Stage::Factory))
        } else {
            Err(SetupFault::Subsystem { status })
        },
        Stage::Factory => if succeeded(status) && present {
            Ok(Some(Stage::Engine))
        } else {
            Err(SetupFault::Factory { status })
        },
        Stage::Engine => if succeeded(status) && present {
            Ok(None)
        } else {
            Err(SetupFault::Engine { status })
        },
    }
}

/// Decides how setup goes on after the native call of `stage`.
pub fn advance(stage: Stage, status: i32, present: bool) -> (next: Result<Option<Stage>, SetupFault>)
    ensures
        next == after(stage, status, present),
{
    match stage {
        Stage::Subsystem => if status >= 0 {
            Ok(Some(Stage::Factory))
        } else {
            Err(SetupFault::Subsystem { status })
        },
        Stage::Factory => if status >= 0 && present {
            Ok(Some(Stage::Engine))
        } else {
            Err(SetupFault::Factory { status })
        },
        Stage::Engine => if status >= 0 && present {
            Ok(None)
        } else {
            Err(SetupFault::Engine { status })
        },
    }
}

} // verus!
