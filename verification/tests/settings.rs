use fogo::schema::{Category, Flag};
use fogo::settings::{
    parse_file_handling, parse_history_file, parse_sort_mode, parse_switch, parse_timeout, resolve,
    AutocdTimeout, CaseMode, FileHandling, HistoryFile, InvalidValue, ResolvedSettings,
    SearchMode, SettingValue, SortMode, SuppliedFlag,
};

fn supplied(list: &[(&str, &str)]) -> Vec<SuppliedFlag> {
    list.iter().map(|(n, v)| SuppliedFlag { name: n.to_string(), value: v.to_string() }).collect()
}

#[test]
fn no_flag_gives_the_defaults() {
    let settings = resolve(&vec![]).unwrap();
    assert_eq!(settings, ResolvedSettings::defaults());
    assert!(!settings.filter_search);
    assert_eq!(settings.file_handling, FileHandling::Ignore);
    assert_eq!(settings.case_sensitivity, CaseMode::SmartCase);
    assert_eq!(settings.search_mode, SearchMode::Gap);
    assert!(settings.mappings.is_empty());
    assert!(!settings.clear_default_keymap);
    assert_eq!(settings.sort_mode, SortMode::Name);
    assert_eq!(settings.autocd_timeout, AutocdTimeout::Millis(200));
    assert_eq!(settings.history_file, HistoryFile::Default);
    assert!(!settings.mouse);
    assert!(!settings.skip_first_run_prompt);
}

#[test]
fn later_flag_of_a_group_wins_in_either_order() {
    let s = resolve(&supplied(&[("case-sensitive", ""), ("ignore-case", "")])).unwrap();
    assert_eq!(s.case_sensitivity, CaseMode::IgnoreCase);
    let s = resolve(&supplied(&[("ignore-case", ""), ("case-sensitive", "")])).unwrap();
    assert_eq!(s.case_sensitivity, CaseMode::CaseSensitive);
    let s = resolve(&supplied(&[("filter-search", ""), ("no-filter-search", "")])).unwrap();
    assert!(!s.filter_search);
    let s = resolve(&supplied(&[("no-filter-search", ""), ("filter-search", "")])).unwrap();
    assert!(s.filter_search);
    let s = resolve(&supplied(&[("gap-search-anywhere", ""), ("normal-search-anywhere", "")])).unwrap();
    assert_eq!(s.search_mode, SearchMode::NormalAnywhere);
    let s = resolve(&supplied(&[("normal-search-anywhere", ""), ("gap-search-anywhere", "")])).unwrap();
    assert_eq!(s.search_mode, SearchMode::GapAnywhere);
    let s = resolve(&supplied(&[("sort", "created"), ("sort", "modified")])).unwrap();
    assert_eq!(s.sort_mode, SortMode::Modified);
    let s = resolve(&supplied(&[("mouse", "on"), ("mouse", "off")])).unwrap();
    assert!(!s.mouse);
}

#[test]
fn flags_of_other_groups_do_not_interfere() {
    let s = resolve(&supplied(&[
        ("smart-case", ""),
        ("sort", "modified"),
        ("case-sensitive", ""),
        ("mouse", "on"),
        ("normal-search", ""),
        ("skip-first-run-prompt", ""),
        ("clear-default-keymap", ""),
    ]))
    .unwrap();
    assert_eq!(s.case_sensitivity, CaseMode::CaseSensitive);
    assert_eq!(s.sort_mode, SortMode::Modified);
    assert!(s.mouse);
    assert_eq!(s.search_mode, SearchMode::Normal);
    assert!(s.skip_first_run_prompt);
    assert!(s.clear_default_keymap);
    assert_eq!(s.file_handling, FileHandling::Ignore);
    assert_eq!(s.autocd_timeout, AutocdTimeout::Millis(200));
}

#[test]
fn deprecated_flag_and_its_replacement_are_interchangeable() {
    let old = resolve(&supplied(&[("folders-only", "")])).unwrap();
    let new = resolve(&supplied(&[("files", "hide")])).unwrap();
    assert_eq!(old, new);
    assert_eq!(old.file_handling, FileHandling::Hide);
    let old = resolve(&supplied(&[("files", "match"), ("no-folders-only", "")])).unwrap();
    let new = resolve(&supplied(&[("files", "match"), ("files", "ignore")])).unwrap();
    assert_eq!(old, new);
    assert_eq!(old.file_handling, FileHandling::Ignore);
    let old = resolve(&supplied(&[("no-gap-search", "")])).unwrap();
    let new = resolve(&supplied(&[("normal-search", "")])).unwrap();
    assert_eq!(old, new);
    assert_eq!(old.search_mode, SearchMode::Normal);
}

#[test]
fn later_wins_across_the_deprecation_boundary() {
    let s = resolve(&supplied(&[("folders-only", ""), ("files", "match")])).unwrap();
    assert_eq!(s.file_handling, FileHandling::Match);
    let s = resolve(&supplied(&[("files", "match"), ("folders-only", "")])).unwrap();
    assert_eq!(s.file_handling, FileHandling::Hide);
    let s = resolve(&supplied(&[("folders-only", ""), ("no-folders-only", "")])).unwrap();
    assert_eq!(s.file_handling, FileHandling::Ignore);
    let s = resolve(&supplied(&[("gap-search", ""), ("no-gap-search", "")])).unwrap();
    assert_eq!(s.search_mode, SearchMode::Normal);
    let s = resolve(&supplied(&[("no-gap-search", ""), ("gap-search", "")])).unwrap();
    assert_eq!(s.search_mode, SearchMode::Gap);
}

#[test]
fn timeout_off_disables_and_zero_is_a_timeout() {
    let s = resolve(&supplied(&[("autocd-timeout", "off")])).unwrap();
    assert_eq!(s.autocd_timeout, AutocdTimeout::Off);
    let s = resolve(&supplied(&[("autocd-timeout", "0")])).unwrap();
    assert_eq!(s.autocd_timeout, AutocdTimeout::Millis(0));
    assert_ne!(AutocdTimeout::Millis(0), AutocdTimeout::Off);
}

#[test]
fn timeout_is_decimal_digits_or_off() {
    assert_eq!(parse_timeout("200"), Some(AutocdTimeout::Millis(200)));
    assert_eq!(parse_timeout("007"), Some(AutocdTimeout::Millis(7)));
    assert_eq!(parse_timeout("1234567890"), Some(AutocdTimeout::Millis(1234567890)));
    assert_eq!(
        parse_timeout("18446744073709551615"),
        Some(AutocdTimeout::Millis(18446744073709551615))
    );
    assert_eq!(parse_timeout("18446744073709551616"), None);
    assert_eq!(parse_timeout("99999999999999999999999"), None);
    assert_eq!(parse_timeout("184467440737095516150"), None);
    assert_eq!(parse_timeout(""), None);
    assert_eq!(parse_timeout("-1"), None);
    assert_eq!(parse_timeout("+1"), None);
    assert_eq!(parse_timeout(" 1"), None);
    assert_eq!(parse_timeout("1.5"), None);
    assert_eq!(parse_timeout("12a"), None);
    assert_eq!(parse_timeout("OFF"), None);
    assert_eq!(parse_timeout("off "), None);
    assert_eq!(parse_timeout("٣"), None);
    assert_eq!(parse_timeout("off"), Some(AutocdTimeout::Off));
}

#[test]
fn invalid_value_names_flag_and_value() {
    assert_eq!(
        resolve(&supplied(&[("files", "bogus")])),
        Err(InvalidValue { flag: Flag::Files, value: "bogus".to_string() })
    );
    assert_eq!(
        resolve(&supplied(&[("sort", "size")])),
        Err(InvalidValue { flag: Flag::Sort, value: "size".to_string() })
    );
    assert_eq!(
        resolve(&supplied(&[("mouse", "yes")])),
        Err(InvalidValue { flag: Flag::Mouse, value: "yes".to_string() })
    );
    assert_eq!(
        resolve(&supplied(&[("autocd-timeout", "soon")])),
        Err(InvalidValue { flag: Flag::AutocdTimeout, value: "soon".to_string() })
    );
    assert_eq!(Flag::Files.accepted_values(), vec!["ignore", "i", "hide", "h", "match", "m"]);
}

#[test]
fn first_invalid_value_is_reported_even_if_overridden() {
    assert_eq!(
        resolve(&supplied(&[("sort", "size"), ("files", "bogus"), ("sort", "name")])),
        Err(InvalidValue { flag: Flag::Sort, value: "size".to_string() })
    );
}

#[test]
fn history_file_accepts_any_text_and_empty_disables() {
    let s = resolve(&supplied(&[("history-file", "")])).unwrap();
    assert_eq!(s.history_file, HistoryFile::Disabled);
    let s = resolve(&supplied(&[("history-file", "/tmp/h.json")])).unwrap();
    assert_eq!(s.history_file, HistoryFile::Path("/tmp/h.json".to_string()));
    let s = resolve(&supplied(&[("history-file", "/a"), ("history-file", "")])).unwrap();
    assert_eq!(s.history_file, HistoryFile::Disabled);
    assert_eq!(parse_history_file(" "), HistoryFile::Path(" ".to_string()));
}

#[test]
fn keymap_entries_accumulate_in_order() {
    let s = resolve(&supplied(&[("map", "a:Exit"), ("sort", "created"), ("map", "b:None,c:Help"), ("map", "")]))
        .unwrap();
    assert_eq!(s.mappings, vec!["a:Exit".to_string(), "b:None,c:Help".to_string(), String::new()]);
    assert_eq!(s.sort_mode, SortMode::Created);
}

#[test]
fn unknown_name_belongs_to_no_category() {
    let s = resolve(&supplied(&[("colour", "red"), ("--sort", "created"), ("Sort", "created"), ("s", "")]))
        .unwrap();
    assert_eq!(s, ResolvedSettings::defaults());
}

#[test]
fn value_of_a_flag_without_value_is_ignored() {
    let s = resolve(&supplied(&[("filter-search", "false"), ("folders-only", "match")])).unwrap();
    assert!(s.filter_search);
    assert_eq!(s.file_handling, FileHandling::Hide);
}

#[test]
fn file_handling_values_have_two_spellings() {
    assert_eq!(parse_file_handling("ignore"), Some(FileHandling::Ignore));
    assert_eq!(parse_file_handling("i"), Some(FileHandling::Ignore));
    assert_eq!(parse_file_handling("hide"), Some(FileHandling::Hide));
    assert_eq!(parse_file_handling("h"), Some(FileHandling::Hide));
    assert_eq!(parse_file_handling("match"), Some(FileHandling::Match));
    assert_eq!(parse_file_handling("m"), Some(FileHandling::Match));
    assert_eq!(parse_file_handling("Hide"), None);
    assert_eq!(parse_file_handling(""), None);
    assert_eq!(parse_sort_mode("name"), Some(SortMode::Name));
    assert_eq!(parse_sort_mode("created"), Some(SortMode::Created));
    assert_eq!(parse_sort_mode("modified"), Some(SortMode::Modified));
    assert_eq!(parse_sort_mode("n"), None);
    assert_eq!(parse_switch("on"), Some(true));
    assert_eq!(parse_switch("off"), Some(false));
    assert_eq!(parse_switch("1"), None);
}

#[test]
fn flags_stand_for_their_values() {
    assert_eq!(Flag::NoGapSearch.implied(), Some(SettingValue::SearchMode(SearchMode::Normal)));
    assert_eq!(Flag::FoldersOnly.implied(), Some(SettingValue::FileHandling(FileHandling::Hide)));
    assert_eq!(Flag::Files.implied(), None);
    assert_eq!(Flag::Files.value("h"), Some(SettingValue::FileHandling(FileHandling::Hide)));
    assert_eq!(Flag::Mapping.value("a:b"), Some(SettingValue::Mapping("a:b".to_string())));
    assert_eq!(Flag::SmartCase.value("x"), Some(SettingValue::CaseSensitivity(CaseMode::SmartCase)));
    assert_eq!(Flag::Mouse.value("x"), None);
}

#[test]
fn settings_give_the_value_of_each_category() {
    let s = resolve(&supplied(&[("files", "m"), ("history-file", "/h"), ("map", "a:Exit")])).unwrap();
    assert_eq!(s.value_of(Category::FileHandling), Some(SettingValue::FileHandling(FileHandling::Match)));
    assert_eq!(
        s.value_of(Category::HistoryFile),
        Some(SettingValue::HistoryFile(HistoryFile::Path("/h".to_string())))
    );
    assert_eq!(s.value_of(Category::Keymap), None);
    assert_eq!(s.value_of(Category::Mouse), Some(SettingValue::Mouse(false)));
    let s = s.with(SettingValue::Mouse(true)).with(SettingValue::Mapping("b:Help".to_string()));
    assert!(s.mouse);
    assert_eq!(s.mappings, vec!["a:Exit".to_string(), "b:Help".to_string()]);
}

#[test]
fn declared_defaults_resolve_to_the_defaults() {
    let mut list = Vec::new();
    for flag in Flag::all() {
        if let Some(text) = flag.declared_default() {
            list.push(SuppliedFlag { name: flag.long_name().to_string(), value: text.to_string() });
        }
    }
    assert_eq!(list.len(), 4);
    assert_eq!(resolve(&list).unwrap(), ResolvedSettings::defaults());
}
