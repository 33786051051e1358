use clap::ArgAction;
use fogo::cli::{argument, cli_arguments, get_cli_args, ArgKind, Argument};
use fogo::vocabulary::Vocabulary;
use fogo::schema::Flag;

fn arg_of(name: &str) -> clap::Arg {
    get_cli_args()
        .get_arguments()
        .find(|a| a.get_id().as_str() == name)
        .expect("the flag is declared")
        .clone()
}

#[test]
fn verify_cli() {
    get_cli_args().debug_assert();
}

#[test]
fn command_is_named_after_the_program() {
    assert_eq!(get_cli_args().get_name(), "fogo");
}

#[test]
fn command_declares_every_flag_in_order() {
    let command = get_cli_args();
    let ids: Vec<String> = command.get_arguments().map(|a| a.get_id().as_str().to_string()).collect();
    let expected: Vec<String> = Flag::all().iter().map(|f| f.long_name().to_string()).collect();
    assert_eq!(ids, expected);
    assert_eq!(ids.len(), 20);
    assert_eq!(ids[0], "filter-search");
    assert_eq!(ids[19], "skip-first-run-prompt");
}

#[test]
fn arguments_carry_their_spellings() {
    let files = arg_of("files");
    assert_eq!(files.get_long(), Some("files"));
    assert_eq!(files.get_short(), Some('l'));
    let sort = arg_of("sort");
    assert_eq!(sort.get_long(), Some("sort"));
    assert_eq!(sort.get_short(), None);
    assert_eq!(arg_of("map").get_short(), Some('m'));
    assert_eq!(arg_of("no-filter-search").get_short(), Some('F'));
}

#[test]
fn arguments_carry_their_actions() {
    assert!(matches!(arg_of("filter-search").get_action(), ArgAction::SetTrue));
    assert!(matches!(arg_of("files").get_action(), ArgAction::Set));
    assert!(matches!(arg_of("map").get_action(), ArgAction::Append));
    assert!(matches!(arg_of("skip-first-run-prompt").get_action(), ArgAction::SetTrue));
}

#[test]
fn arguments_carry_their_documentation() {
    let sort = arg_of("sort");
    assert_eq!(sort.get_help().map(|h| h.to_string()), Some("Select sorting mode".to_string()));
    let long = arg_of("smart-case").get_long_help().map(|h| h.to_string()).unwrap();
    assert!(long.starts_with("Enable smart-case search."));
    assert!(long.ends_with(
        "\n\nThis overrides the --case-sensitive and --ignore-case options. You can also change the case sensitivity mode while the program is running with the keyboard shortcut Alt-c by default."
    ));
    let long = arg_of("normal-search").get_long_help().map(|h| h.to_string()).unwrap();
    assert!(long.contains(
        "\n\nThis overrides the --gap-search, --gap-search-anywhere and --normal-search-anywhere options."
    ));
    assert!(arg_of("folders-only").get_help().is_none());
    assert!(arg_of("folders-only").get_long_help().is_none());
}

#[test]
fn keymap_documentation_lists_the_vocabulary() {
    let long = arg_of("map").get_long_help().map(|h| h.to_string()).unwrap();
    assert!(long.starts_with("Add one or more keyboard shortcut mappings."));
    assert!(long.contains("\n\nPossible actions:\n\n    ChangeDir                Enter the folder under the cursor\n"));
    assert!(long.contains("\n    None                     Remove this mapping\n\nPossible contexts:\n\n    Searching     "));
    assert!(long.ends_with("while the search query is empty\n"));
}

#[test]
fn arguments_carry_value_names_and_defaults() {
    let files = arg_of("files");
    let names: Vec<String> = files.get_value_names().unwrap().iter().map(|n| n.to_string()).collect();
    assert_eq!(names, vec!["'ignore', 'i', 'hide', 'h', 'match', or 'm'".to_string()]);
    let defaults: Vec<String> =
        files.get_default_values().iter().map(|v| v.to_string_lossy().to_string()).collect();
    assert_eq!(defaults, vec!["ignore".to_string()]);
    let timeout = arg_of("autocd-timeout");
    let defaults: Vec<String> =
        timeout.get_default_values().iter().map(|v| v.to_string_lossy().to_string()).collect();
    assert_eq!(defaults, vec!["200".to_string()]);
    assert!(arg_of("history-file").get_default_values().is_empty());
}

#[test]
fn arguments_accept_their_possible_values_only() {
    let values: Vec<String> =
        arg_of("mouse").get_possible_values().iter().map(|v| v.get_name().to_string()).collect();
    assert_eq!(values, vec!["on".to_string(), "off".to_string()]);
    assert!(arg_of("mouse").is_hide_possible_values_set());
    assert!(!arg_of("autocd-timeout").is_hide_possible_values_set());
    assert!(get_cli_args().try_get_matches_from(vec!["fogo", "--files", "bogus"]).is_err());
    assert!(get_cli_args().try_get_matches_from(vec!["fogo", "--sort", "size"]).is_err());
    assert!(get_cli_args().try_get_matches_from(vec!["fogo", "--sort", "created"]).is_ok());
}

#[test]
fn deprecated_flags_are_hidden() {
    assert!(arg_of("folders-only").is_hide_set());
    assert!(arg_of("no-folders-only").is_hide_set());
    assert!(arg_of("no-gap-search").is_hide_set());
    assert!(!arg_of("files").is_hide_set());
    assert!(!arg_of("normal-search").is_hide_set());
}

#[test]
fn later_flag_overrides_earlier_flag_of_its_group() {
    let m = get_cli_args()
        .try_get_matches_from(vec!["fogo", "--folders-only", "--files", "match"])
        .unwrap();
    assert!(!m.get_flag("folders-only"));
    assert_eq!(m.get_one::<String>("files").map(|s| s.as_str()), Some("match"));
    let m = get_cli_args()
        .try_get_matches_from(vec!["fogo", "--files", "match", "--folders-only"])
        .unwrap();
    assert!(m.get_flag("folders-only"));
    let m = get_cli_args().try_get_matches_from(vec!["fogo", "-s", "-i", "-S", "-i"]).unwrap();
    assert!(m.get_flag("ignore-case"));
    assert!(!m.get_flag("case-sensitive"));
    assert!(!m.get_flag("smart-case"));
}

#[test]
fn keymap_option_collects_every_occurrence() {
    let m = get_cli_args()
        .try_get_matches_from(vec!["fogo", "-m", "ctrl-x:Exit", "--map", "a:None,b:Help"])
        .unwrap();
    let values: Vec<String> = m.get_many::<String>("map").unwrap().cloned().collect();
    assert_eq!(values, vec!["ctrl-x:Exit".to_string(), "a:None,b:Help".to_string()]);
}

#[test]
fn arguments_say_what_is_handed_to_clap() {
    let arguments = cli_arguments();
    assert_eq!(arguments.len(), 20);
    assert_eq!(
        arguments[2],
        Argument {
            id: "files",
            kind: ArgKind::Single,
            long: "files",
            short: Some('l'),
            help: Some("How to handle files while searching"),
            long_help: Some("How to handle files while searching. If 'ignore', both files and folders are listed but searching matches only folders. If 'hide', files are hidden. If 'match', files are also matched while searching. Note that currently, fogo cannot do anything with files, so 'ignore' is the default behavior.".to_string()),
            overrides: vec!["folders-only", "no-folders-only", "files"],
            value_name: Some("'ignore', 'i', 'hide', 'h', 'match', or 'm'"),
            accepted_values: vec!["ignore", "i", "hide", "h", "match", "m"],
            default_value: Some("ignore"),
            hidden: false,
        }
    );
    assert_eq!(
        arguments[10],
        Argument {
            id: "no-gap-search",
            kind: ArgKind::Switch,
            long: "no-gap-search",
            short: None,
            help: None,
            long_help: None,
            overrides: vec![
                "gap-search",
                "gap-search-anywhere",
                "normal-search",
                "normal-search-anywhere",
                "no-gap-search"
            ],
            value_name: None,
            accepted_values: vec![],
            default_value: None,
            hidden: true,
        }
    );
    assert_eq!(arguments[13].kind, ArgKind::Repeated);
    assert_eq!(arguments[13].value_name, Some("MAPPING"));
    assert!(arguments[13].overrides.is_empty());
    assert!(arguments[17].overrides.is_empty());
    assert_eq!(arguments[15].overrides, vec!["sort"]);
    assert_eq!(
        arguments[6].long_help,
        Some("Enable case-insensitive search.\n\nThis overrides the --case-sensitive and --smart-case options. You can also change the case sensitivity mode while the program is running with the keyboard shortcut Alt-c by default.".to_string())
    );
    for (made, flag) in arguments.iter().zip(Flag::all()) {
        assert_eq!(made.id, flag.long_name());
        assert_eq!(made.long, flag.long_name());
        assert_eq!(made.short, flag.short());
        assert_eq!(made.hidden, flag.deprecated());
        assert_eq!(made, &argument(flag, &flag.category().overrides(), &Vocabulary::standard()));
    }
}

#[test]
fn argument_overrides_the_group_it_is_given() {
    let made = argument(Flag::Mouse, &vec![Flag::Sort, Flag::Mouse], &Vocabulary::standard());
    assert_eq!(made.overrides, vec!["sort", "mouse"]);
    assert_eq!(made.accepted_values, vec!["on", "off"]);
    assert_eq!(made.default_value, Some("off"));
    assert_eq!(made.help, Some("Enable mouse navigation"));
}
