use spellbound::protocol::{element_follows, Backend, Fault, Reply, Request, END_OF_ERRORS, NOT_FOUND};
use spellbound::session::engine_is_ready;
use spellbound::setup::{advance, first_complete, SetupFault, Stage};
use spellbound::{Checker, ErrorCursor};

/// Stands in for a native engine: it knows a list of words, and those it was
/// told to ignore.
struct Engine {
    known: Vec<String>,
    ignored: Vec<String>,
    calls: usize,
}

const ENGLISH: [&str; 9] = ["I'm", "happy", "that", "this", "sentence", "has", "no", "errors", "I"];

impl Engine {
    fn english() -> Engine {
        Engine { known: ENGLISH.iter().map(|w| w.to_string()).collect(), ignored: Vec::new(), calls: 0 }
    }

    fn knows(&self, word: &str) -> bool {
        let bare = word.trim_end_matches(|c: char| c == '.' || c == ',');
        self.known.iter().any(|w| w == bare) || self.ignored.iter().any(|w| w == word)
    }

    /// The first unknown word at or behind `offset`, as a range of UTF-16
    /// code units.
    fn scan(&self, text: &str, offset: usize) -> Option<(usize, usize)> {
        let units: Vec<u16> = text.encode_utf16().collect();
        let mut at = offset;
        while at < units.len() {
            while at < units.len() && units[at] == 0x20 {
                at += 1;
            }
            let from = at;
            while at < units.len() && units[at] != 0x20 {
                at += 1;
            }
            if from < at && !self.knows(&String::from_utf16(&units[from..at]).unwrap()) {
                return Some((from, at - from));
            }
        }
        None
    }

    fn answer(&mut self, text: &str, request: Request, findings: &mut Vec<(usize, usize)>) -> Reply {
        self.calls += 1;
        match request {
            Request::Spell { word } => {
                let bytes = spellbound::c_string(word).unwrap();
                assert_eq!(bytes.iter().position(|b| *b == 0), Some(word.len()));
                Reply::Verdict { code: if self.knows(word) { 1 } else { 0 } }
            }
            Request::Scan { offset } => match self.scan(text, offset) {
                Some((location, length)) => Reply::Range { location: location as u64, length: length as u64 },
                None => Reply::Range { location: NOT_FOUND, length: 0 },
            },
            Request::Enumerate { text: wide } => {
                assert_eq!(wide.last(), Some(&0));
                let mut at = 0;
                while let Some((from, len)) = self.scan(text, at) {
                    findings.push((from, len));
                    at = from + len;
                }
                findings.reverse();
                Reply::Opened { status: 0 }
            }
            Request::Next => match findings.pop() {
                Some((start, length)) => element(0, start as u32, length as u32),
                None => element(END_OF_ERRORS, 0, 0),
            },
            other => panic!("{:?}", other),
        }
    }

    fn ignore(&mut self, session: &mut Checker, word: &str) {
        assert!(session.can_ignore(word));
        if let Some(Request::Ignore { word }) = session.ignore(word) {
            self.calls += 1;
            self.ignored.push(word.to_string());
            session.confirm_ignore(word, 0);
        }
    }

    fn run(&mut self, text: &str, mut cursor: ErrorCursor) -> Result<Vec<String>, Fault> {
        let mut errors = Vec::new();
        let mut findings = Vec::new();
        loop {
            let reply = match cursor.request()? {
                Some(request) => self.answer(text, request, &mut findings),
                None => return Ok(errors),
            };
            if let Some(error) = cursor.resolve(reply)? {
                errors.push(error.text().to_string());
            }
        }
    }

    fn check(&mut self, session: &mut Checker, text: &str) -> Vec<String> {
        let cursor = session.check(text);
        self.run(text, cursor).unwrap()
    }
}

fn element(status: i32, start: u32, length: u32) -> Reply {
    Reply::Element { status, start, start_status: 0, length, length_status: 0 }
}

const BACKENDS: [Backend; 3] = [Backend::RangeScan, Backend::Enumerator, Backend::TokenFilter];

#[test]
fn no_errors() {
    let text = "I'm happy that this sentence has no errors.";
    let mut checker = Checker::new(Backend::TokenFilter, Some(0), Ok(None));
    assert_eq!(Engine::english().check(&mut checker, &text).len(), 0);
}

#[test]
fn single_error() {
    let text = "asdf";
    let mut checker = Checker::new(Backend::TokenFilter, Some(0), Ok(None));
    let errors = Engine::english().check(&mut checker, &text);
    assert_eq!(errors.len(), 1);
    assert_eq!(errors[0], "asdf");
}

#[test]
fn multiple_errors() {
    let text = "asdf hjkl qwer uiop";
    let mut checker = Checker::new(Backend::TokenFilter, Some(0), Ok(None));
    let errors = Engine::english().check(&mut checker, &text);
    assert_eq!(errors.len(), 4);
    assert_eq!(errors[0], "asdf");
    assert_eq!(errors[1], "hjkl");
    assert_eq!(errors[2], "qwer");
    assert_eq!(errors[3], "uiop");
}

#[test]
fn empty() {
    let mut checker = Checker::new(Backend::TokenFilter, Some(0), Ok(None));
    assert_eq!(Engine::english().check(&mut checker, "").len(), 0);
}

#[test]
fn ignore() {
    let mut checker = Checker::new(Backend::TokenFilter, Some(0), Ok(None));
    let mut engine = Engine::english();

    assert_eq!(engine.check(&mut checker, "foobarbaz").len(), 1);

    engine.ignore(&mut checker, "foobarbaz");

    assert_eq!(engine.check(&mut checker, "foobarbaz").len(), 0);
}

#[test]
fn ignore_not_permanent() {
    let mut checker = Checker::new(Backend::TokenFilter, Some(0), Ok(None));
    let mut engine = Engine::english();

    engine.ignore(&mut checker, "foobarbaz");

    drop(checker);
    drop(engine);

    let mut checker = Checker::new(Backend::TokenFilter, Some(0), Ok(None));
    let mut engine = Engine::english();

    assert_eq!(engine.check(&mut checker, "foobarbaz").len(), 1);
}

#[test]
fn a_session_needs_a_finished_setup() {
    for backend in BACKENDS {
        assert!(engine_is_ready(backend, Some(0), Ok(None)));
        assert!(engine_is_ready(backend, Some(3), advance(Stage::Engine, 0, true)));
        assert!(!engine_is_ready(backend, Some(0), Ok(Some(Stage::Factory))));
        assert!(!engine_is_ready(backend, Some(0), Ok(Some(Stage::Engine))));
        assert!(!engine_is_ready(backend, Some(0), advance(Stage::Subsystem, -1, false)));
        assert!(!engine_is_ready(backend, Some(0), advance(Stage::Subsystem, 0, false)));
        assert!(!engine_is_ready(backend, Some(0), advance(Stage::Factory, 0, false)));
        assert!(!engine_is_ready(backend, Some(0), advance(Stage::Engine, -5, true)));
        assert!(!engine_is_ready(backend, Some(0), advance(Stage::Engine, 0, false)));
        assert!(!engine_is_ready(backend, Some(0), Err(SetupFault::Engine { status: 0 })));
    }
    assert!(engine_is_ready(Backend::RangeScan, None, Ok(None)));
    assert!(engine_is_ready(Backend::Enumerator, None, Ok(None)));
    assert!(!engine_is_ready(Backend::TokenFilter, None, Ok(None)));
    assert!(!engine_is_ready(Backend::TokenFilter, first_complete(&[(true, false)]), Ok(None)));
    assert!(!engine_is_ready(Backend::TokenFilter, first_complete(&[(false, true)]), Ok(None)));
    assert!(engine_is_ready(Backend::TokenFilter, first_complete(&[(true, true)]), Ok(None)));
}

#[test]
fn an_element_follows_a_success_that_is_not_the_end() {
    assert!(element_follows(0));
    assert!(element_follows(2));
    assert!(element_follows(i32::MAX));
    assert!(!element_follows(END_OF_ERRORS));
    assert!(!element_follows(-1));
    assert!(!element_follows(i32::MIN));
}

#[test]
fn take_brings_what_resolve_brings_where_the_check_goes_on() {
    let mut cursor = Checker::new(Backend::RangeScan, None, Ok(None)).check("a😀 bcd");
    assert_eq!(cursor.take(Reply::Range { location: 0, length: 3 }).unwrap().text(), "a😀");
    assert!(matches!(cursor.request(), Ok(Some(Request::Scan { offset: 3 }))));
    assert_eq!(cursor.take(Reply::Range { location: NOT_FOUND, length: 0 }), None);
    assert!(cursor.is_exhausted());
    let mut cursor = Checker::new(Backend::Enumerator, None, Ok(None)).check("ab cd");
    assert_eq!(cursor.take(Reply::Opened { status: 0 }), None);
    assert_eq!(cursor.take(element(0, 3, 2)).unwrap().text(), "cd");
    assert_eq!(cursor.take(element(END_OF_ERRORS, 0, 0)), None);
    assert!(cursor.is_exhausted());
    let mut cursor = Checker::new(Backend::TokenFilter, Some(0), Ok(None)).check("ab cd");
    assert_eq!(cursor.take(Reply::Verdict { code: 1 }), None);
    assert_eq!(cursor.take(Reply::Verdict { code: 0 }).unwrap().text(), "cd");
    assert!(cursor.is_exhausted());
}

#[test]
fn ignore_hands_out_the_call_for_a_word_that_can_be_ignored() {
    for backend in BACKENDS {
        let mut checker = Checker::new(backend, Some(0), Ok(None));
        assert!(checker.can_ignore("naïve"));
        assert!(matches!(checker.ignore("naïve"), Some(Request::Ignore { word: "naïve" })));
        checker.confirm_ignore("naïve", 0);
        assert!(checker.can_ignore(""));
    }
    assert!(Checker::new(Backend::Enumerator, None, Ok(None)).ignore("").is_none());
    assert!(!Checker::new(Backend::TokenFilter, Some(0), Ok(None)).can_ignore("na\0ve"));
    assert!(Checker::new(Backend::RangeScan, None, Ok(None)).can_ignore("na\0ve"));
    assert!(Checker::new(Backend::Enumerator, None, Ok(None)).can_ignore("na\0ve"));
}

#[test]
fn every_backend_agrees_on_the_examples() {
    for backend in BACKENDS {
        let mut engine = Engine::english();
        let mut checker = Checker::new(backend, Some(0), Ok(None));
        assert_eq!(checker.backend(), backend);
        assert_eq!(engine.check(&mut checker, "I'm happy that this sentence has no errors."), Vec::<String>::new());
        assert_eq!(engine.check(&mut checker, "asdf"), vec!["asdf"]);
        assert_eq!(engine.check(&mut checker, "asdf hjkl qwer uiop"), vec!["asdf", "hjkl", "qwer", "uiop"]);
        assert_eq!(engine.check(&mut checker, "I happy asdf that asdf"), vec!["asdf", "asdf"]);
    }
}

#[test]
fn empty_text_never_reaches_the_engine() {
    for backend in BACKENDS {
        let mut engine = Engine::english();
        let mut checker = Checker::new(backend, Some(0), Ok(None));
        let cursor = checker.check("");
        assert!(cursor.is_exhausted());
        assert!(matches!(cursor.request(), Ok(None)));
        assert_eq!(engine.run("", cursor), Ok(vec![]));
        assert_eq!(engine.calls, 0);
    }
}

#[test]
fn blank_text_asks_a_token_filter_nothing() {
    let mut engine = Engine::english();
    let mut checker = Checker::new(Backend::TokenFilter, Some(0), Ok(None));
    let cursor = checker.check(" \t\n\u{3000} ");
    assert!(matches!(cursor.request(), Ok(None)));
    assert_eq!(engine.run("", cursor), Ok(vec![]));
    assert_eq!(engine.calls, 0);
}

#[test]
fn checking_twice_gives_the_same_errors() {
    for backend in BACKENDS {
        let mut engine = Engine::english();
        let mut checker = Checker::new(backend, Some(0), Ok(None));
        let first = engine.check(&mut checker, "this asdf has qwer");
        let second = engine.check(&mut checker, "this asdf has qwer");
        assert_eq!(first, vec!["asdf", "qwer"]);
        assert_eq!(first, second);
    }
}

#[test]
fn ignore_holds_for_later_checks_on_every_backend() {
    for backend in BACKENDS {
        let mut engine = Engine::english();
        let mut checker = Checker::new(backend, Some(0), Ok(None));
        assert_eq!(engine.check(&mut checker, "foobarbaz"), vec!["foobarbaz"]);
        engine.ignore(&mut checker, "foobarbaz");
        assert_eq!(engine.check(&mut checker, "foobarbaz"), Vec::<String>::new());
        assert_eq!(engine.check(&mut checker, "foobarbaz asdf"), vec!["asdf"]);
    }
}

#[test]
fn ignore_asks_for_the_word_itself() {
    for backend in BACKENDS {
        let mut checker = Checker::new(backend, Some(0), Ok(None));
        match checker.try_ignore("naïve") {
            Ok(Some(Request::Ignore { word })) => assert_eq!(word, "naïve"),
            other => panic!("{:?}", other),
        }
        assert_eq!(checker.try_confirm_ignore("naïve", 0), Ok(()));
    }
}

#[test]
fn the_empty_word_is_kept_from_an_enumerating_engine_only() {
    assert!(matches!(Checker::new(Backend::Enumerator, Some(0), Ok(None)).try_ignore(""), Ok(None)));
    assert_eq!(Checker::new(Backend::Enumerator, Some(0), Ok(None)).try_confirm_ignore("", 0), Err(Fault::UnexpectedReply));
    assert!(matches!(Checker::new(Backend::RangeScan, Some(0), Ok(None)).try_ignore(""), Ok(Some(Request::Ignore { word: "" }))));
    assert_eq!(Checker::new(Backend::RangeScan, Some(0), Ok(None)).try_confirm_ignore("", 0), Ok(()));
    assert!(matches!(Checker::new(Backend::TokenFilter, Some(0), Ok(None)).try_ignore(""), Ok(Some(Request::Ignore { word: "" }))));
    assert_eq!(Checker::new(Backend::TokenFilter, Some(0), Ok(None)).try_confirm_ignore("", 0), Ok(()));
}

#[test]
fn errors_beyond_ascii_come_back_whole() {
    for backend in BACKENDS {
        let mut engine = Engine::english();
        let mut checker = Checker::new(backend, Some(0), Ok(None));
        let errors = engine.check(&mut checker, "this nai\u{308}ve 😀zz𝄞 has ünïcödé");
        assert_eq!(errors, vec!["nai\u{308}ve", "😀zz𝄞", "ünïcödé"]);
    }
}

#[test]
fn a_scan_asks_from_the_end_of_the_last_range() {
    let mut cursor = Checker::new(Backend::RangeScan, Some(0), Ok(None)).check("a😀 bcd ef");
    assert!(matches!(cursor.request(), Ok(Some(Request::Scan { offset: 0 }))));
    let error = cursor.resolve(Reply::Range { location: 0, length: 3 }).unwrap().unwrap();
    assert_eq!(error.text(), "a😀");
    assert!(matches!(cursor.request(), Ok(Some(Request::Scan { offset: 3 }))));
    let error = cursor.resolve(Reply::Range { location: 8, length: 2 }).unwrap().unwrap();
    assert_eq!(error.text(), "ef");
    assert!(matches!(cursor.request(), Ok(Some(Request::Scan { offset: 10 }))));
    assert_eq!(cursor.resolve(Reply::Range { location: NOT_FOUND, length: 0 }), Ok(None));
    assert!(matches!(cursor.request(), Ok(None)));
    assert!(cursor.is_exhausted());
}

#[test]
fn an_enumeration_opens_with_the_wide_text() {
    let mut cursor = Checker::new(Backend::Enumerator, Some(0), Ok(None)).check("hi 😀");
    match cursor.request() {
        Ok(Some(Request::Enumerate { text })) => assert_eq!(text, vec![0x68, 0x69, 0x20, 0xD83D, 0xDE00, 0]),
        other => panic!("{:?}", other),
    }
    assert_eq!(cursor.resolve(Reply::Opened { status: 0 }), Ok(None));
    assert!(matches!(cursor.request(), Ok(Some(Request::Next))));
    let error = cursor.resolve(element(0, 3, 2)).unwrap().unwrap();
    assert_eq!(error.text(), "😀");
    assert!(matches!(cursor.request(), Ok(Some(Request::Next))));
    assert_eq!(cursor.resolve(element(END_OF_ERRORS, 7, 9)), Ok(None));
    assert!(matches!(cursor.request(), Ok(None)));
}

#[test]
fn a_token_filter_asks_word_by_word() {
    let mut cursor = Checker::new(Backend::TokenFilter, Some(0), Ok(None)).check("  one\ttwo\u{a0}three \n");
    assert!(matches!(cursor.request(), Ok(Some(Request::Spell { word: "one" }))));
    assert_eq!(cursor.resolve(Reply::Verdict { code: 1 }), Ok(None));
    assert!(!cursor.is_exhausted());
    assert!(matches!(cursor.request(), Ok(Some(Request::Spell { word: "two" }))));
    let error = cursor.resolve(Reply::Verdict { code: 0 }).unwrap().unwrap();
    assert_eq!(error.text(), "two");
    assert!(matches!(cursor.request(), Ok(Some(Request::Spell { word: "three" }))));
    assert_eq!(cursor.resolve(Reply::Verdict { code: -7 }), Ok(None));
    assert!(matches!(cursor.request(), Ok(None)));
}

#[test]
fn a_reply_of_the_wrong_kind_is_a_fault() {
    let mut cursor = Checker::new(Backend::RangeScan, Some(0), Ok(None)).check("abc");
    assert_eq!(cursor.resolve(Reply::Verdict { code: 0 }), Err(Fault::UnexpectedReply));
    assert!(matches!(cursor.request(), Ok(None)));
    let mut cursor = Checker::new(Backend::Enumerator, Some(0), Ok(None)).check("abc");
    assert_eq!(cursor.resolve(element(0, 0, 1)), Err(Fault::UnexpectedReply));
    let mut cursor = Checker::new(Backend::TokenFilter, Some(0), Ok(None)).check("abc");
    assert_eq!(cursor.resolve(Reply::Range { location: 0, length: 1 }), Err(Fault::UnexpectedReply));
}

#[test]
fn a_reply_that_nothing_asked_for_is_a_fault() {
    for backend in BACKENDS {
        let mut cursor = Checker::new(backend, Some(0), Ok(None)).check("");
        assert_eq!(cursor.resolve(Reply::Verdict { code: 0 }), Err(Fault::UnexpectedReply));
        assert_eq!(cursor.resolve(Reply::Range { location: NOT_FOUND, length: 0 }), Err(Fault::UnexpectedReply));
    }
    let mut cursor = Checker::new(Backend::TokenFilter, Some(0), Ok(None)).check("abc");
    assert_eq!(cursor.resolve(Reply::Verdict { code: 1 }), Ok(None));
    assert_eq!(cursor.resolve(Reply::Verdict { code: 1 }), Err(Fault::UnexpectedReply));
}

#[test]
fn a_failed_engine_call_is_a_fault() {
    let mut cursor = Checker::new(Backend::Enumerator, Some(0), Ok(None)).check("abc");
    assert_eq!(cursor.resolve(Reply::Opened { status: -2147467259 }), Err(Fault::EngineFailure { status: -2147467259 }));
    assert!(matches!(cursor.request(), Ok(None)));
    let mut cursor = Checker::new(Backend::Enumerator, Some(0), Ok(None)).check("abc");
    assert_eq!(cursor.resolve(Reply::Opened { status: 1 }), Ok(None));
    assert_eq!(cursor.resolve(element(-1, 0, 3)), Err(Fault::EngineFailure { status: -1 }));
    assert!(matches!(cursor.request(), Ok(None)));
}

#[test]
fn a_range_that_could_not_be_read_is_a_fault() {
    let mut cursor = Checker::new(Backend::Enumerator, Some(0), Ok(None)).check("abc");
    assert_eq!(cursor.resolve(Reply::Opened { status: 0 }), Ok(None));
    assert_eq!(
        cursor.resolve(Reply::Element { status: 0, start: 0, start_status: -3, length: 3, length_status: 0 }),
        Err(Fault::EngineFailure { status: -3 })
    );
    assert!(matches!(cursor.request(), Ok(None)));
    let mut cursor = Checker::new(Backend::Enumerator, Some(0), Ok(None)).check("abc");
    assert_eq!(cursor.resolve(Reply::Opened { status: 0 }), Ok(None));
    assert_eq!(
        cursor.resolve(Reply::Element { status: 0, start: 0, start_status: -3, length: 3, length_status: -4 }),
        Err(Fault::EngineFailure { status: -4 })
    );
    let mut cursor = Checker::new(Backend::Enumerator, Some(0), Ok(None)).check("abc");
    assert_eq!(cursor.resolve(Reply::Opened { status: 0 }), Ok(None));
    assert_eq!(
        cursor.resolve(Reply::Element { status: END_OF_ERRORS, start: 0, start_status: -3, length: 3, length_status: -4 }),
        Ok(None)
    );
    let mut cursor = Checker::new(Backend::Enumerator, Some(0), Ok(None)).check("abc");
    assert_eq!(cursor.resolve(Reply::Opened { status: 0 }), Ok(None));
    let error = cursor
        .resolve(Reply::Element { status: 0, start: 1, start_status: 1, length: 2, length_status: 1 })
        .unwrap()
        .unwrap();
    assert_eq!(error.text(), "bc");
}

#[test]
fn a_failed_ignore_call_is_a_fault_and_ignores_nothing() {
    for backend in BACKENDS {
        let mut engine = Engine::english();
        let mut checker = Checker::new(backend, Some(0), Ok(None));
        assert!(matches!(checker.try_ignore("foobarbaz"), Ok(Some(Request::Ignore { word: "foobarbaz" }))));
        assert_eq!(
            checker.try_confirm_ignore("foobarbaz", -2147024809),
            Err(Fault::EngineFailure { status: -2147024809 })
        );
        assert_eq!(engine.check(&mut checker, "foobarbaz"), vec!["foobarbaz"]);
        assert_eq!(checker.try_confirm_ignore("foobarbaz", 1), Ok(()));
    }
}

#[test]
fn a_text_with_a_nul_stops_a_token_filter_at_that_word() {
    let mut engine = Engine::english();
    let mut checker = Checker::new(Backend::TokenFilter, Some(0), Ok(None));
    let mut cursor = checker.check("this asdf qw\0er has");
    assert!(matches!(cursor.request(), Ok(Some(Request::Spell { word: "this" }))));
    assert_eq!(cursor.resolve(Reply::Verdict { code: 1 }), Ok(None));
    assert_eq!(cursor.resolve(Reply::Verdict { code: 0 }).unwrap().unwrap().text(), "asdf");
    assert!(matches!(cursor.request(), Err(Fault::InteriorNul)));
    assert!(!cursor.is_exhausted());
    assert_eq!(cursor.resolve(Reply::Verdict { code: 1 }), Err(Fault::InteriorNul));
    assert!(matches!(cursor.request(), Ok(None)));
    let cursor = checker.check("this asdf qw\0er has");
    assert_eq!(engine.run("", cursor), Err(Fault::InteriorNul));
    assert_eq!(engine.calls, 2);
    for backend in [Backend::RangeScan, Backend::Enumerator] {
        let mut engine = Engine::english();
        assert_eq!(engine.check(&mut Checker::new(backend, Some(0), Ok(None)), "this qw\0er"), vec!["qw\0er"]);
    }
}

#[test]
fn a_word_with_a_nul_is_kept_from_a_token_filter() {
    let mut checker = Checker::new(Backend::TokenFilter, Some(0), Ok(None));
    assert!(matches!(checker.try_ignore("foo\0bar"), Err(Fault::InteriorNul)));
    assert_eq!(checker.try_confirm_ignore("foo\0bar", 0), Err(Fault::InteriorNul));
    assert!(matches!(checker.try_ignore("\0"), Err(Fault::InteriorNul)));
    assert!(matches!(
        Checker::new(Backend::RangeScan, Some(0), Ok(None)).try_ignore("foo\0bar"),
        Ok(Some(Request::Ignore { word: "foo\0bar" }))
    ));
    assert!(matches!(
        Checker::new(Backend::Enumerator, Some(0), Ok(None)).try_ignore("foo\0bar"),
        Ok(Some(Request::Ignore { word: "foo\0bar" }))
    ));
}

#[test]
fn an_element_is_an_error_wherever_it_lies() {
    let mut cursor = Checker::new(Backend::Enumerator, Some(0), Ok(None)).check("abc def");
    assert_eq!(cursor.resolve(Reply::Opened { status: 0 }), Ok(None));
    assert_eq!(cursor.resolve(element(0, 4, 3)).unwrap().unwrap().text(), "def");
    assert_eq!(cursor.resolve(element(0, 0, 3)).unwrap().unwrap().text(), "abc");
    assert_eq!(cursor.resolve(element(0, 0, 3)).unwrap().unwrap().text(), "abc");
    assert_eq!(cursor.resolve(element(0, 2, 3)).unwrap().unwrap().text(), "c d");
    assert_eq!(cursor.resolve(element(0, 5, 0)).unwrap().unwrap().text(), "");
    assert_eq!(cursor.resolve(element(0, 0, 7)).unwrap().unwrap().text(), "abc def");
    assert!(matches!(cursor.request(), Ok(Some(Request::Next))));
    assert_eq!(cursor.resolve(element(END_OF_ERRORS, 0, 0)), Ok(None));
    assert!(matches!(cursor.request(), Ok(None)));
}

#[test]
fn an_element_may_reach_into_the_terminator_of_the_wide_text() {
    let mut cursor = Checker::new(Backend::Enumerator, Some(0), Ok(None)).check("abc");
    assert_eq!(cursor.resolve(Reply::Opened { status: 0 }), Ok(None));
    assert_eq!(cursor.resolve(element(0, 1, 3)).unwrap().unwrap().text(), "bc\0");
    assert_eq!(cursor.resolve(element(0, 1, 4)), Err(Fault::RangeOutOfBounds));
}

#[test]
fn a_scan_goes_on_from_the_end_of_whatever_range_came() {
    let mut cursor = Checker::new(Backend::RangeScan, Some(0), Ok(None)).check("abc def");
    assert_eq!(cursor.resolve(Reply::Range { location: 4, length: 3 }).unwrap().unwrap().text(), "def");
    assert!(matches!(cursor.request(), Ok(Some(Request::Scan { offset: 7 }))));
    assert_eq!(cursor.resolve(Reply::Range { location: 2, length: 3 }).unwrap().unwrap().text(), "c d");
    assert!(matches!(cursor.request(), Ok(Some(Request::Scan { offset: 5 }))));
    assert_eq!(cursor.resolve(Reply::Range { location: 4, length: 3 }).unwrap().unwrap().text(), "def");
    assert!(matches!(cursor.request(), Ok(Some(Request::Scan { offset: 7 }))));
    assert_eq!(cursor.resolve(Reply::Range { location: 0, length: 0 }).unwrap().unwrap().text(), "");
    assert!(matches!(cursor.request(), Ok(Some(Request::Scan { offset: 0 }))));
    assert_eq!(cursor.resolve(Reply::Range { location: NOT_FOUND, length: 0 }), Ok(None));
    assert!(matches!(cursor.request(), Ok(None)));
}

#[test]
fn a_range_behind_the_text_is_a_fault() {
    let mut cursor = Checker::new(Backend::RangeScan, Some(0), Ok(None)).check("abc");
    assert_eq!(cursor.resolve(Reply::Range { location: 1, length: 3 }), Err(Fault::RangeOutOfBounds));
    let mut cursor = Checker::new(Backend::RangeScan, Some(0), Ok(None)).check("abc");
    assert_eq!(cursor.resolve(Reply::Range { location: 4, length: 1 }), Err(Fault::RangeOutOfBounds));
    let mut cursor = Checker::new(Backend::RangeScan, Some(0), Ok(None)).check("abc");
    assert_eq!(cursor.resolve(Reply::Range { location: 2, length: u64::MAX }), Err(Fault::RangeOutOfBounds));
    let mut cursor = Checker::new(Backend::RangeScan, Some(0), Ok(None)).check("abc");
    assert_eq!(cursor.resolve(Reply::Range { location: NOT_FOUND - 1, length: 5 }), Err(Fault::RangeOutOfBounds));
    let mut cursor = Checker::new(Backend::Enumerator, Some(0), Ok(None)).check("abc");
    assert_eq!(cursor.resolve(Reply::Opened { status: 0 }), Ok(None));
    assert_eq!(cursor.resolve(element(0, 0, 5)), Err(Fault::RangeOutOfBounds));
    assert!(matches!(cursor.request(), Ok(None)));
}

#[test]
fn a_range_that_splits_a_pair_is_a_fault() {
    let mut cursor = Checker::new(Backend::RangeScan, Some(0), Ok(None)).check("a😀b");
    assert_eq!(cursor.resolve(Reply::Range { location: 0, length: 2 }), Err(Fault::Undecodable));
    assert!(matches!(cursor.request(), Ok(None)));
    let mut cursor = Checker::new(Backend::RangeScan, Some(0), Ok(None)).check("a😀b");
    assert_eq!(cursor.resolve(Reply::Range { location: 2, length: 2 }), Err(Fault::Undecodable));
}

#[test]
fn the_whole_text_as_one_range_is_the_text() {
    let text = "Grüße😀";
    let units = text.encode_utf16().count();
    let mut cursor = Checker::new(Backend::RangeScan, Some(0), Ok(None)).check(text);
    let error = cursor.resolve(Reply::Range { location: 0, length: units as u64 }).unwrap().unwrap();
    assert_eq!(error.text(), text);
}

#[test]
fn there_are_no_more_errors_than_code_units() {
    let mut cursor = Checker::new(Backend::RangeScan, Some(0), Ok(None)).check("abc");
    let mut errors = 0;
    let mut location = 0;
    while let Ok(Some(Request::Scan { offset })) = cursor.request() {
        assert_eq!(offset, location);
        match cursor.resolve(Reply::Range { location: location as u64, length: 1 }) {
            Ok(Some(_)) => errors += 1,
            other => {
                assert_eq!(other, Err(Fault::RangeOutOfBounds));
                break;
            }
        }
        location += 1;
    }
    assert_eq!(errors, 3);
}
