use spellbound::setup::{
    advance, dictionary_files, first_complete, first_stage, join, language_tag, search_path, DictionaryFiles,
    SetupFault, Stage,
};

#[test]
fn the_search_path_is_the_one_default_directory() {
    assert_eq!(search_path(), vec!["/usr/share/hunspell"]);
}

#[test]
fn dictionary_files_lie_in_the_directory() {
    assert_eq!(
        dictionary_files("/usr/share/hunspell"),
        DictionaryFiles {
            affix: "/usr/share/hunspell/en_US.aff".to_string(),
            dictionary: "/usr/share/hunspell/en_US.dic".to_string(),
        }
    );
}

#[test]
fn join_agrees_with_std_paths() {
    for directory in ["/usr/share/hunspell", "/usr/share/hunspell/", "", "/", "rel", "rel/", "wörter/ü"] {
        for name in ["en_US.aff", "en_US.dic", "x"] {
            let expected = std::path::Path::new(directory).join(name);
            assert_eq!(join(directory, name), expected.to_str().unwrap(), "{:?} {:?}", directory, name);
        }
    }
}

#[test]
fn join_exact_paths() {
    assert_eq!(join("a", "b"), "a/b");
    assert_eq!(join("a/", "b"), "a/b");
    assert_eq!(join("", "b"), "b");
    assert_eq!(join("/", "b"), "/b");
}

#[test]
fn the_first_directory_with_both_files_is_taken() {
    assert_eq!(first_complete(&[]), None);
    assert_eq!(first_complete(&[(false, false)]), None);
    assert_eq!(first_complete(&[(true, false), (false, true)]), None);
    assert_eq!(first_complete(&[(true, true)]), Some(0));
    assert_eq!(first_complete(&[(true, false), (true, true), (true, true)]), Some(1));
    assert_eq!(first_complete(&[(false, true), (false, false), (true, true)]), Some(2));
}

#[test]
fn the_language_tag_is_wide_and_terminated() {
    assert_eq!(language_tag(), vec![0x65, 0x6E, 0x2D, 0x55, 0x53, 0]);
}

#[test]
fn setup_goes_through_its_stages_in_order() {
    assert_eq!(first_stage(), Stage::Subsystem);
    assert_eq!(advance(Stage::Subsystem, 0, false), Ok(Some(Stage::Factory)));
    assert_eq!(advance(Stage::Subsystem, 1, true), Ok(Some(Stage::Factory)));
    assert_eq!(advance(Stage::Factory, 0, true), Ok(Some(Stage::Engine)));
    assert_eq!(advance(Stage::Engine, 0, true), Ok(None));
}

#[test]
fn setup_ends_at_the_first_failure() {
    assert_eq!(advance(Stage::Subsystem, -1, true), Err(SetupFault::Subsystem { status: -1 }));
    assert_eq!(advance(Stage::Factory, -2147221164, true), Err(SetupFault::Factory { status: -2147221164 }));
    assert_eq!(advance(Stage::Factory, 0, false), Err(SetupFault::Factory { status: 0 }));
    assert_eq!(advance(Stage::Engine, -5, false), Err(SetupFault::Engine { status: -5 }));
    assert_eq!(advance(Stage::Engine, 0, false), Err(SetupFault::Engine { status: 0 }));
}
