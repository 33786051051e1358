use fogo::definitions::{FlagSchema, SchemaError};
use fogo::schema::{Category, Flag, ValueKind};
use fogo::settings::{AutocdTimeout, FileHandling, SettingValue};

#[test]
fn standard_schema_declares_every_category() {
    let schema = FlagSchema::standard();
    let definitions = schema.definitions();
    assert_eq!(definitions.len(), 11);
    let categories: Vec<Category> = definitions.iter().map(|d| d.category).collect();
    assert_eq!(categories, Category::all());
    assert_eq!(schema.registered_flags(), Flag::all());
    let files = &definitions[1];
    assert_eq!(files.category, Category::FileHandling);
    assert_eq!(files.canonical_name, "file-handling");
    assert_eq!(files.surface_names, vec![Flag::Files, Flag::FoldersOnly, Flag::NoFoldersOnly]);
    assert_eq!(files.override_group, vec![Flag::FoldersOnly, Flag::NoFoldersOnly, Flag::Files]);
    assert_eq!(files.value_kind, ValueKind::SingleValueEnum);
    assert_eq!(files.default, Some(SettingValue::FileHandling(FileHandling::Ignore)));
    let keymap = &definitions[4];
    assert_eq!(keymap.surface_names, vec![Flag::Mapping]);
    assert!(keymap.override_group.is_empty());
    assert_eq!(keymap.value_kind, ValueKind::RepeatableText);
    assert_eq!(keymap.default, None);
    let timeout = &definitions[7];
    assert_eq!(timeout.value_kind, ValueKind::FreeText);
    assert_eq!(timeout.default, Some(SettingValue::AutocdTimeout(AutocdTimeout::Millis(200))));
}

#[test]
fn every_flag_is_found_by_its_long_spelling() {
    for flag in Flag::all() {
        assert_eq!(Flag::from_name(flag.long_name()), Some(flag));
    }
    assert_eq!(Flag::from_name("folders-only"), Some(Flag::FoldersOnly));
    assert_eq!(Flag::from_name("map"), Some(Flag::Mapping));
    assert_eq!(Flag::from_name("--map"), None);
    assert_eq!(Flag::from_name("Map"), None);
    assert_eq!(Flag::from_name(""), None);
    assert_eq!(Flag::from_name("d"), None);
}

#[test]
fn flags_know_their_category_and_spelling() {
    assert_eq!(Flag::FoldersOnly.category(), Category::FileHandling);
    assert_eq!(Flag::NoGapSearch.category(), Category::SearchMode);
    assert_eq!(Flag::FoldersOnly.short(), Some('d'));
    assert_eq!(Flag::NoGapSearch.short(), None);
    assert!(Flag::NoGapSearch.deprecated());
    assert!(!Flag::NormalSearch.deprecated());
    assert!(Flag::Sort.expects_value());
    assert!(!Flag::SmartCase.expects_value());
    assert_eq!(Category::SearchMode.canonical_name(), "search-mode");
    assert_eq!(Category::CaseSensitivity.value_kind(), ValueKind::BooleanToggle);
    assert_eq!(
        Category::SearchMode.surfaces(),
        vec![
            Flag::GapSearch,
            Flag::GapSearchAnywhere,
            Flag::NoGapSearch,
            Flag::NormalSearch,
            Flag::NormalSearchAnywhere
        ]
    );
    assert_eq!(Category::HistoryFile.overrides(), vec![]);
    for category in Category::all() {
        for flag in category.overrides() {
            assert_eq!(flag.category(), category);
        }
        for flag in category.surfaces() {
            assert_eq!(flag.category(), category);
        }
    }
}

#[test]
fn declaring_a_flag_twice_is_refused() {
    let schema = FlagSchema::new()
        .declare(Category::Mouse, vec![Flag::Mouse], vec![Flag::Mouse], ValueKind::SingleValueEnum, None)
        .unwrap();
    let made = schema.declare(
        Category::SortMode,
        vec![Flag::Sort, Flag::Mouse],
        vec![],
        ValueKind::SingleValueEnum,
        None,
    );
    assert_eq!(made.err(), Some(SchemaError::DuplicateSurfaceName(Flag::Mouse)));
    let made = FlagSchema::new().declare(
        Category::SortMode,
        vec![Flag::Sort, Flag::Files, Flag::Sort],
        vec![],
        ValueKind::SingleValueEnum,
        None,
    );
    assert_eq!(made.err(), Some(SchemaError::DuplicateSurfaceName(Flag::Sort)));
}

#[test]
fn first_flag_that_occurs_again_is_named() {
    let made = FlagSchema::new().declare(
        Category::SortMode,
        vec![Flag::Sort, Flag::Files, Flag::Files, Flag::Sort],
        vec![],
        ValueKind::SingleValueEnum,
        None,
    );
    assert_eq!(made.err(), Some(SchemaError::DuplicateSurfaceName(Flag::Sort)));
    let schema = FlagSchema::new()
        .declare(Category::Mouse, vec![Flag::Mouse, Flag::Sort], vec![], ValueKind::SingleValueEnum, None)
        .unwrap();
    let made = schema.declare(
        Category::SortMode,
        vec![Flag::Files, Flag::Files, Flag::Sort, Flag::Mouse],
        vec![],
        ValueKind::SingleValueEnum,
        None,
    );
    assert_eq!(made.err(), Some(SchemaError::DuplicateSurfaceName(Flag::Mouse)));
    let made = FlagSchema::new().declare(
        Category::SortMode,
        vec![Flag::Sort],
        vec![Flag::Sort, Flag::Mouse, Flag::Files],
        ValueKind::SingleValueEnum,
        None,
    );
    assert_eq!(made.err(), Some(SchemaError::GroupSpansCategories(Flag::Mouse)));
}

#[test]
fn override_group_must_stay_in_its_category() {
    let made = FlagSchema::new().declare(
        Category::SortMode,
        vec![Flag::Sort],
        vec![Flag::Sort, Flag::Mouse],
        ValueKind::SingleValueEnum,
        None,
    );
    assert_eq!(made.err(), Some(SchemaError::GroupSpansCategories(Flag::Mouse)));
    let made = FlagSchema::new().declare(
        Category::SortMode,
        vec![Flag::Sort, Flag::Sort],
        vec![Flag::Mouse],
        ValueKind::SingleValueEnum,
        None,
    );
    assert_eq!(made.err(), Some(SchemaError::DuplicateSurfaceName(Flag::Sort)));
}

#[test]
fn accepted_declarations_are_kept_in_order() {
    let schema = FlagSchema::new()
        .declare(
            Category::FilterSearch,
            vec![Flag::FilterSearch, Flag::NoFilterSearch],
            vec![Flag::NoFilterSearch, Flag::FilterSearch],
            ValueKind::BooleanToggle,
            Some(SettingValue::FilterSearch(false)),
        )
        .unwrap()
        .declare(Category::Keymap, vec![Flag::Mapping], vec![], ValueKind::RepeatableText, None)
        .unwrap();
    assert_eq!(schema.definitions().len(), 2);
    assert_eq!(schema.definitions()[0].canonical_name, "filter-search");
    assert_eq!(schema.definitions()[0].default, Some(SettingValue::FilterSearch(false)));
    assert_eq!(schema.definitions()[1].category, Category::Keymap);
    assert_eq!(
        schema.registered_flags(),
        vec![Flag::FilterSearch, Flag::NoFilterSearch, Flag::Mapping]
    );
    assert!(FlagSchema::new().definitions().is_empty());
}
