use fogo::help::{justify_and_indent, keymap_help};
use fogo::text::{same_text, split_text};
use fogo::vocabulary::{Vocabulary, VocabularyEntry, VocabularyError};

fn strings(list: &[&str]) -> Vec<String> {
    list.iter().map(|s| s.to_string()).collect()
}

fn entry(name: &str, description: &str) -> VocabularyEntry {
    VocabularyEntry { name: name.to_string(), description: description.to_string() }
}

#[test]
fn listing_aligns_descriptions_two_past_the_longest_name() {
    let text = justify_and_indent(&strings(&["Exit", "CursorUp", "None"]), &strings(&["Leave", "Go up", "Nothing"]));
    assert_eq!(text, "    Exit      Leave\n    CursorUp  Go up\n    None      Nothing");
}

#[test]
fn listing_of_one_entry_has_no_line_feed() {
    assert_eq!(justify_and_indent(&strings(&["a"]), &strings(&["b"])), "    a  b");
    assert_eq!(justify_and_indent(&strings(&[""]), &strings(&[""])), "      ");
}

#[test]
fn listing_measures_names_in_bytes() {
    let text = justify_and_indent(&strings(&["é", "abc"]), &strings(&["x", "y"]));
    assert_eq!(text, "    é   x\n    abc  y");
}

#[test]
fn listing_stops_at_the_shorter_list() {
    let text = justify_and_indent(&strings(&["a", "longest", "b"]), &strings(&["x", "y"]));
    assert_eq!(text, "    a        x\n    longest  y");
    let text = justify_and_indent(&strings(&["a"]), &strings(&["x", "y"]));
    assert_eq!(text, "    a  x");
    assert_eq!(justify_and_indent(&strings(&["a"]), &strings(&[])), "");
}

#[test]
fn vocabulary_listings_use_the_same_layout() {
    let vocabulary = Vocabulary::new(
        vec![entry("Go", "Move on"), entry("Stop", "Stay")],
        vec![entry("Always", "Every time")],
    )
    .unwrap();
    assert_eq!(vocabulary.action_listing(), "    Go    Move on\n    Stop  Stay");
    assert_eq!(vocabulary.context_listing(), "    Always  Every time");
    let empty = Vocabulary::new(vec![], vec![]).unwrap();
    assert_eq!(empty.action_listing(), "");
    assert_eq!(empty.context_listing(), "");
}

#[test]
fn keymap_help_wraps_the_two_listings() {
    let vocabulary =
        Vocabulary::new(vec![entry("Go", "Move on")], vec![entry("Always", "Every time")]).unwrap();
    let text = keymap_help(&vocabulary);
    assert!(text.starts_with(
        "Add one or more keyboard shortcut mappings. Mappings are of the form 'key-combination:action' or 'key-combination:context:action', see examples below."
    ));
    assert!(text.contains("\n\nExamples:\n\n    -m ctrl-x:Exit - Exit fogo by typing ctrl-x\n"));
    assert!(text.ends_with(
        "(if the search query is empty)\n\nPossible actions:\n\n    Go  Move on\n\nPossible contexts:\n\n    Always  Every time\n"
    ));
}

#[test]
fn standard_vocabulary_knows_its_words() {
    let vocabulary = Vocabulary::standard();
    assert_eq!(vocabulary.actions.len(), 22);
    assert_eq!(vocabulary.contexts.len(), 2);
    assert_eq!(vocabulary.actions[0].name, "ChangeDir");
    assert_eq!(vocabulary.actions[19], entry("Exit", "Exit the program"));
    assert_eq!(vocabulary.contexts[1].name, "NotSearching");
    assert!(vocabulary.has_action("Exit"));
    assert!(vocabulary.has_action("CursorTop"));
    assert!(vocabulary.has_action("None"));
    assert!(!vocabulary.has_action("exit"));
    assert!(!vocabulary.has_action("Searching"));
    assert!(vocabulary.has_context("Searching"));
    assert!(vocabulary.has_context("NotSearching"));
    assert!(!vocabulary.has_context("Exit"));
    assert!(!vocabulary.has_context(""));
}

#[test]
fn vocabulary_refuses_a_repeated_name() {
    assert_eq!(
        Vocabulary::new(vec![entry("A", "1"), entry("B", "2"), entry("A", "3")], vec![]),
        Err(VocabularyError::DuplicateAction("A".to_string()))
    );
    assert_eq!(
        Vocabulary::new(vec![entry("A", "1")], vec![entry("C", "1"), entry("C", "1")]),
        Err(VocabularyError::DuplicateContext("C".to_string()))
    );
    assert_eq!(
        Vocabulary::new(vec![entry("A", "1"), entry("A", "1")], vec![entry("C", "1"), entry("C", "1")]),
        Err(VocabularyError::DuplicateAction("A".to_string()))
    );
    assert!(Vocabulary::new(vec![entry("A", "1")], vec![entry("A", "1")]).is_ok());
    assert_eq!(
        Vocabulary::new(vec![entry("A", "1"), entry("B", "2"), entry("B", "3"), entry("A", "4")], vec![]),
        Err(VocabularyError::DuplicateAction("A".to_string()))
    );
    assert_eq!(
        Vocabulary::new(vec![entry("A", "1"), entry("B", "2"), entry("C", "3"), entry("B", "4")], vec![]),
        Err(VocabularyError::DuplicateAction("B".to_string()))
    );
}

#[test]
fn text_is_cut_at_every_separator() {
    assert_eq!(split_text("a:b:c", ':'), strings(&["a", "b", "c"]));
    assert_eq!(split_text("abc", ':'), strings(&["abc"]));
    assert_eq!(split_text("", ':'), strings(&[""]));
    assert_eq!(split_text(":", ':'), strings(&["", ""]));
    assert_eq!(split_text("a::b:", ':'), strings(&["a", "", "b", ""]));
    assert_eq!(split_text("é,ü", ','), strings(&["é", "ü"]));
    assert!(same_text("abc", "abc"));
    assert!(!same_text("abc", "abd"));
    assert!(!same_text("abc", "ab"));
}
