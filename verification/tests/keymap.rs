use fogo::bindings::{build, Binding, BindingTable};
use fogo::keymap::{parse, parse_binding, split_mappings, BindingDirective, BoundAction, KeymapError};
use fogo::session::{session_bindings, SessionError};
use fogo::settings::{resolve, SuppliedFlag};
use fogo::vocabulary::{Vocabulary, VocabularyEntry};

fn texts(list: &[&str]) -> Vec<String> {
    list.iter().map(|s| s.to_string()).collect()
}

fn binding(key: &str, context: Option<&str>, action: &str) -> Binding {
    Binding {
        key_combination: key.to_string(),
        context: context.map(|c| c.to_string()),
        action: action.to_string(),
    }
}

#[test]
fn mapping_without_context_applies_everywhere() {
    let directives = parse(&texts(&["ctrl-x:Exit"]), &Vocabulary::standard()).unwrap();
    assert_eq!(
        directives,
        vec![BindingDirective {
            key_combination: "ctrl-x".to_string(),
            context: None,
            action: BoundAction::Run("Exit".to_string()),
        }]
    );
}

#[test]
fn mapping_with_context_keeps_the_context() {
    let directives = parse(&texts(&["1:NotSearching:CursorTop"]), &Vocabulary::standard()).unwrap();
    assert_eq!(
        directives,
        vec![BindingDirective {
            key_combination: "1".to_string(),
            context: Some("NotSearching".to_string()),
            action: BoundAction::Run("CursorTop".to_string()),
        }]
    );
}

#[test]
fn removal_deletes_the_exact_key_only() {
    let defaults = BindingTable::from_bindings(&vec![
        binding("esc", Some("Searching"), "ClearSearch"),
        binding("esc", None, "Exit"),
    ]);
    let directives = parse(&texts(&["esc:Searching:None"]), &Vocabulary::standard()).unwrap();
    assert_eq!(directives[0].action, BoundAction::Remove);
    let table = build(defaults, &directives);
    assert_eq!(table.lookup("esc", Some("Searching")), None);
    assert!(table.is_cleared("esc", Some("Searching")));
    assert_eq!(table.lookup("esc", None), Some("Exit".to_string()));
    assert!(!table.is_cleared("esc", None));
    assert_eq!(table.bindings(), vec![binding("esc", None, "Exit")]);
}

#[test]
fn mapping_without_colon_is_malformed() {
    let vocabulary = Vocabulary::standard();
    assert_eq!(
        parse(&texts(&["badtoken"]), &vocabulary),
        Err(KeymapError::MalformedBinding("badtoken".to_string()))
    );
    assert_eq!(
        parse_binding("a:b:c:d", &vocabulary),
        Err(KeymapError::MalformedBinding("a:b:c:d".to_string()))
    );
    assert_eq!(parse_binding("", &vocabulary), Err(KeymapError::MalformedBinding(String::new())));
}

#[test]
fn unknown_action_is_refused() {
    assert_eq!(
        parse(&texts(&["x:NotARealAction"]), &Vocabulary::standard()),
        Err(KeymapError::UnknownAction("NotARealAction".to_string()))
    );
    assert_eq!(
        parse_binding("x:exit", &Vocabulary::standard()),
        Err(KeymapError::UnknownAction("exit".to_string()))
    );
    assert_eq!(
        parse_binding("x:", &Vocabulary::standard()),
        Err(KeymapError::UnknownAction(String::new()))
    );
}

#[test]
fn unknown_context_is_refused() {
    let vocabulary = Vocabulary::standard();
    assert_eq!(
        parse_binding("x:Sometimes:Exit", &vocabulary),
        Err(KeymapError::UnknownContext("Sometimes".to_string()))
    );
    assert_eq!(
        parse_binding("x:Sometimes:NotARealAction", &vocabulary),
        Err(KeymapError::UnknownContext("Sometimes".to_string()))
    );
    assert_eq!(
        parse_binding("x:Sometimes:None", &vocabulary),
        Err(KeymapError::UnknownContext("Sometimes".to_string()))
    );
    assert_eq!(
        parse_binding("x:Exit:Exit", &vocabulary),
        Err(KeymapError::UnknownContext("Exit".to_string()))
    );
}

#[test]
fn removal_sentinel_needs_no_action_of_its_name() {
    let vocabulary = Vocabulary::new(
        vec![VocabularyEntry { name: "Jump".to_string(), description: "Jump".to_string() }],
        vec![VocabularyEntry { name: "Jump".to_string(), description: "While jumping".to_string() }],
    )
    .unwrap();
    assert_eq!(
        parse_binding("k:Jump:None", &vocabulary),
        Ok(BindingDirective {
            key_combination: "k".to_string(),
            context: Some("Jump".to_string()),
            action: BoundAction::Remove,
        })
    );
    assert_eq!(
        parse_binding("k:Exit", &vocabulary),
        Err(KeymapError::UnknownAction("Exit".to_string()))
    );
}

#[test]
fn entries_are_cut_at_commas_in_order() {
    assert_eq!(
        split_mappings(&texts(&["a:Exit,b:Help", "c:None"])),
        texts(&["a:Exit", "b:Help", "c:None"])
    );
    assert_eq!(split_mappings(&texts(&["a,,b"])), texts(&["a", "", "b"]));
    assert_eq!(split_mappings(&texts(&[""])), texts(&[""]));
    assert_eq!(split_mappings(&texts(&[])), texts(&[]));
    assert_eq!(split_mappings(&texts(&["a:Exit,"])), texts(&["a:Exit", ""]));
}

#[test]
fn first_refused_mapping_ends_the_parse() {
    let vocabulary = Vocabulary::standard();
    assert_eq!(
        parse(&texts(&["a:Exit,b:Nope", "bad"]), &vocabulary),
        Err(KeymapError::UnknownAction("Nope".to_string()))
    );
    assert_eq!(
        parse(&texts(&["a:Exit,,b:Help"]), &vocabulary),
        Err(KeymapError::MalformedBinding(String::new()))
    );
    assert_eq!(parse(&texts(&[]), &vocabulary), Ok(vec![]));
}

#[test]
fn key_combination_is_passed_through_untouched() {
    let d = parse_binding(" Ctrl+é :Exit", &Vocabulary::standard()).unwrap();
    assert_eq!(d.key_combination, " Ctrl+é ");
    let d = parse_binding(":Exit", &Vocabulary::standard()).unwrap();
    assert_eq!(d.key_combination, "");
}

#[test]
fn last_mapping_of_a_key_wins_across_occurrences() {
    let vocabulary = Vocabulary::standard();
    let directives =
        parse(&texts(&["ctrl-x:Exit,j:CursorDown", "k:CursorUp,ctrl-x:Help"]), &vocabulary).unwrap();
    assert_eq!(directives.len(), 4);
    let table = build(BindingTable::empty(), &directives);
    assert_eq!(table.lookup("ctrl-x", None), Some("Help".to_string()));
    assert_eq!(table.lookup("j", None), Some("CursorDown".to_string()));
    assert_eq!(table.lookup("k", None), Some("CursorUp".to_string()));
    assert_eq!(table.bindings().len(), 3);
    let reversed =
        parse(&texts(&["k:CursorUp,ctrl-x:Help", "ctrl-x:Exit,j:CursorDown"]), &vocabulary).unwrap();
    let table = build(BindingTable::empty(), &reversed);
    assert_eq!(table.lookup("ctrl-x", None), Some("Exit".to_string()));
}

#[test]
fn wildcard_and_context_are_separate_keys() {
    let vocabulary = Vocabulary::standard();
    let directives =
        parse(&texts(&["esc:Searching:ClearSearch", "esc:Exit", "esc:None"]), &vocabulary).unwrap();
    let table = build(BindingTable::empty(), &directives);
    assert_eq!(table.lookup("esc", Some("Searching")), Some("ClearSearch".to_string()));
    assert_eq!(table.lookup("esc", None), None);
    assert_eq!(table.lookup("esc", Some("NotSearching")), None);
    assert!(table.is_cleared("esc", None));
    assert!(!table.is_cleared("esc", Some("Searching")));
}

#[test]
fn binding_again_after_removal_lifts_the_clearing() {
    let vocabulary = Vocabulary::standard();
    let defaults = BindingTable::from_bindings(&vec![binding("q", None, "Exit")]);
    let directives = parse(&texts(&["q:None,q:Help"]), &vocabulary).unwrap();
    let table = build(defaults, &directives);
    assert_eq!(table.lookup("q", None), Some("Help".to_string()));
    assert!(!table.is_cleared("q", None));
}

#[test]
fn removal_of_an_unbound_key_is_recorded() {
    let directives = parse(&texts(&["z:None"]), &Vocabulary::standard()).unwrap();
    let table = build(BindingTable::empty(), &directives);
    assert_eq!(table.lookup("z", None), None);
    assert!(table.is_cleared("z", None));
    assert!(table.bindings().is_empty());
}

#[test]
fn building_without_directives_keeps_the_defaults() {
    let defaults = BindingTable::from_bindings(&vec![
        binding("q", None, "Exit"),
        binding("q", None, "Help"),
        binding("up", Some("Searching"), "CursorUp"),
    ]);
    let table = build(defaults, &vec![]);
    assert_eq!(table.lookup("q", None), Some("Help".to_string()));
    assert_eq!(table.lookup("up", Some("Searching")), Some("CursorUp".to_string()));
    assert_eq!(
        table.bindings(),
        vec![binding("q", None, "Help"), binding("up", Some("Searching"), "CursorUp")]
    );
}

#[test]
fn table_tells_whether_an_action_is_bound() {
    let vocabulary = Vocabulary::standard();
    let table = build(
        BindingTable::empty(),
        &parse(&texts(&["q:Exit,h:Help", "q:None"]), &vocabulary).unwrap(),
    );
    assert!(!table.binds_action("Exit"));
    assert!(table.binds_action("Help"));
    let table = build(table, &parse(&texts(&["esc:Searching:Exit"]), &vocabulary).unwrap());
    assert!(table.binds_action("Exit"));
}

#[test]
fn single_steps_match_the_directives() {
    let table = BindingTable::empty()
        .bind("a".to_string(), None, "Exit".to_string())
        .bind("a".to_string(), Some("Searching".to_string()), "Help".to_string())
        .unbind("a".to_string(), None);
    assert_eq!(table.lookup("a", None), None);
    assert_eq!(table.lookup("a", Some("Searching")), Some("Help".to_string()));
    let table = table.apply(&BindingDirective {
        key_combination: "a".to_string(),
        context: None,
        action: BoundAction::Run("ChangeDir".to_string()),
    });
    assert_eq!(table.lookup("a", None), Some("ChangeDir".to_string()));
    assert!(!table.is_cleared("a", None));
}

#[test]
fn session_bindings_follow_the_settings() {
    let flag = |n: &str, v: &str| SuppliedFlag { name: n.to_string(), value: v.to_string() };
    let vocabulary = Vocabulary::standard();
    let defaults = || BindingTable::from_bindings(&vec![binding("esc", None, "Exit")]);

    let settings = resolve(&vec![flag("map", "q:Help")]).unwrap();
    let table = session_bindings(&settings, defaults(), &vocabulary).unwrap();
    assert_eq!(table.lookup("esc", None), Some("Exit".to_string()));
    assert_eq!(table.lookup("q", None), Some("Help".to_string()));

    let settings = resolve(&vec![flag("map", "esc:None")]).unwrap();
    let table = session_bindings(&settings, defaults(), &vocabulary).unwrap();
    assert!(!table.binds_action("Exit"));

    let settings = resolve(&vec![flag("clear-default-keymap", ""), flag("map", "q:Help")]).unwrap();
    assert_eq!(
        session_bindings(&settings, defaults(), &vocabulary).err(),
        Some(SessionError::MissingExitBinding)
    );

    let settings =
        resolve(&vec![flag("map", "q:Help"), flag("clear-default-keymap", ""), flag("map", "x:Searching:Exit")])
            .unwrap();
    let table = session_bindings(&settings, defaults(), &vocabulary).unwrap();
    assert_eq!(table.lookup("esc", None), None);
    assert_eq!(table.lookup("x", Some("Searching")), Some("Exit".to_string()));
    assert_eq!(table.bindings().len(), 2);

    let settings = resolve(&vec![flag("clear-default-keymap", ""), flag("map", "q:Exit,w:Nope")]).unwrap();
    assert_eq!(
        session_bindings(&settings, defaults(), &vocabulary).err(),
        Some(SessionError::Keymap(KeymapError::UnknownAction("Nope".to_string())))
    );
}
