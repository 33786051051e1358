use vstd::prelude::*;
use vstd::string::*;

verus! {

/// A logical setting, whatever the number of flag spellings that can set
/// it.
#[derive(Clone, Copy, Debug, PartialEq, Eq, Structural)]
pub enum Category {
    FilterSearch,
    FileHandling,
    CaseSensitivity,
    SearchMode,
    Keymap,
    ClearDefaultKeymap,
    SortMode,
    AutocdTimeout,
    HistoryFile,
    Mouse,
    SkipFirstRunPrompt,
}

/// A flag as the user spells it. Several flags may write into the same
/// category.
#[derive(Clone, Copy, Debug, PartialEq, Eq, Structural)]
pub enum Flag {
    FilterSearch,
    NoFilterSearch,
    Files,
    FoldersOnly,
    NoFoldersOnly,
    CaseSensitive,
    IgnoreCase,
    SmartCase,
    GapSearch,
    GapSearchAnywhere,
    NoGapSearch,
    NormalSearch,
    NormalSearchAnywhere,
    Mapping,
    ClearDefaultKeymap,
    Sort,
    AutocdTimeout,
    HistoryFile,
    Mouse,
    SkipFirstRunPrompt,
}

/// How the flags of a category take their value.
#[derive(Clone, Copy, Debug, PartialEq, Eq, Structural)]
pub enum ValueKind {
    /// Each flag stands for a value by being present.
    BooleanToggle,
    /// The flag takes one value out of a closed list.
    SingleValueEnum,
    /// The flag takes one value, any text.
    FreeText,
    /// The flag may be given several times and every value counts.
    RepeatableText,
}

/// The long spelling of the flag, without the leading dashes.
pub open spec fn long_name_of(flag: Flag) -> Seq<char> {
    match flag {
        Flag::FilterSearch => "filter-search"@,
        Flag::NoFilterSearch => "no-filter-search"@,
        Flag::Files => "files"@,
        Flag::FoldersOnly => "folders-only"@,
        Flag::NoFoldersOnly => "no-folders-only"@,
        Flag::CaseSensitive => "case-sensitive"@,
        Flag::IgnoreCase => "ignore-case"@,
        Flag::SmartCase => "smart-case"@,
        Flag::GapSearch => "gap-search"@,
        Flag::GapSearchAnywhere => "gap-search-anywhere"@,
        Flag::NoGapSearch => "no-gap-search"@,
        Flag::NormalSearch => "normal-search"@,
        Flag::NormalSearchAnywhere => "normal-search-anywhere"@,
        Flag::Mapping => "map"@,
        Flag::ClearDefaultKeymap => "clear-default-keymap"@,
        Flag::Sort => "sort"@,
        Flag::AutocdTimeout => "autocd-timeout"@,
        Flag::HistoryFile => "history-file"@,
        Flag::Mouse => "mouse"@,
        Flag::SkipFirstRunPrompt => "skip-first-run-prompt"@,
    }
}

/// The one-letter spelling of the flag, where it has one.
pub open spec fn short_of(flag: Flag) -> Option<char> {
    match flag {
        Flag::FilterSearch => Some('f'),
        Flag::NoFilterSearch => Some('F'),
        Flag::Files => Some('l'),
        Flag::FoldersOnly => Some('d'),
        Flag::NoFoldersOnly => Some('D'),
        Flag::CaseSensitive => Some('s'),
        Flag::IgnoreCase => Some('i'),
        Flag::SmartCase => Some('S'),
        Flag::GapSearch => Some('g'),
        Flag::GapSearchAnywhere => Some('G'),
        Flag::NoGapSearch => None,
        Flag::NormalSearch => Some('n'),
        Flag::NormalSearchAnywhere => Some('N'),
        Flag::Mapping => Some('m'),
        Flag::ClearDefaultKeymap => None,
        Flag::Sort => None,
        Flag::AutocdTimeout => None,
        Flag::HistoryFile => None,
        Flag::Mouse => None,
        Flag::SkipFirstRunPrompt => None,
    }
}

/// The category that the flag writes into.
pub open spec fn category_of(flag: Flag) -> Category {
    match flag {
        Flag::FilterSearch => Category::FilterSearch,
        Flag::NoFilterSearch => Category::FilterSearch,
        Flag::Files => Category::FileHandling,
        Flag::FoldersOnly => Category::FileHandling,
        Flag::NoFoldersOnly => Category::FileHandling,
        Flag::CaseSensitive => Category::CaseSensitivity,
        Flag::IgnoreCase => Category::CaseSensitivity,
        Flag::SmartCase => Category::CaseSensitivity,
        Flag::GapSearch => Category::SearchMode,
        Flag::GapSearchAnywhere => Category::SearchMode,
        Flag::NoGapSearch => Category::SearchMode,
        Flag::NormalSearch => Category::SearchMode,
        Flag::NormalSearchAnywhere => Category::SearchMode,
        Flag::Mapping => Category::Keymap,
        Flag::ClearDefaultKeymap => Category::ClearDefaultKeymap,
        Flag::Sort => Category::SortMode,
        Flag::AutocdTimeout => Category::AutocdTimeout,
        Flag::HistoryFile => Category::HistoryFile,
        Flag::Mouse => Category::Mouse,
        Flag::SkipFirstRunPrompt => Category::SkipFirstRunPrompt,
    }
}

/// Whether the flag is followed by a value on the command line.
pub open spec fn takes_value(flag: Flag) -> bool {
    match flag {
        Flag::FilterSearch => false,
        Flag::NoFilterSearch => false,
        Flag::Files => true,
        Flag::FoldersOnly => false,
        Flag::NoFoldersOnly => false,
        Flag::CaseSensitive => false,
        Flag::IgnoreCase => false,
        Flag::SmartCase => false,
        Flag::GapSearch => false,
        Flag::GapSearchAnywhere => false,
        Flag::NoGapSearch => false,
        Flag::NormalSearch => false,
        Flag::NormalSearchAnywhere => false,
        Flag::Mapping => true,
        Flag::ClearDefaultKeymap => false,
        Flag::Sort => true,
        Flag::AutocdTimeout => true,
        Flag::HistoryFile => true,
        Flag::Mouse => true,
        Flag::SkipFirstRunPrompt => false,
    }
}

/// Whether the flag is kept only for command lines written for earlier versions.
pub open spec fn is_deprecated(flag: Flag) -> bool {
    match flag {
        Flag::FilterSearch => false,
        Flag::NoFilterSearch => false,
        Flag::Files => false,
        Flag::FoldersOnly => true,
        Flag::NoFoldersOnly => true,
        Flag::CaseSensitive => false,
        Flag::IgnoreCase => false,
        Flag::SmartCase => false,
        Flag::GapSearch => false,
        Flag::GapSearchAnywhere => false,
        Flag::NoGapSearch => true,
        Flag::NormalSearch => false,
        Flag::NormalSearchAnywhere => false,
        Flag::Mapping => false,
        Flag::ClearDefaultKeymap => false,
        Flag::Sort => false,
        Flag::AutocdTimeout => false,
        Flag::HistoryFile => false,
        Flag::Mouse => false,
        Flag::SkipFirstRunPrompt => false,
    }
}

/// The stable name of the category.
pub open spec fn canonical_name_of(category: Category) -> Seq<char> {
    match category {
        Category::FilterSearch => "filter-search"@,
        Category::FileHandling => "file-handling"@,
        Category::CaseSensitivity => "case-sensitivity"@,
        Category::SearchMode => "search-mode"@,
        Category::Keymap => "keymap"@,
        Category::ClearDefaultKeymap => "clear-default-keymap"@,
        Category::SortMode => "sort-mode"@,
        Category::AutocdTimeout => "autocd-timeout"@,
        Category::HistoryFile => "history-file"@,
        Category::Mouse => "mouse"@,
        Category::SkipFirstRunPrompt => "skip-first-run-prompt"@,
    }
}

/// How the flags of the category take their value.
pub open spec fn value_kind_of(category: Category) -> ValueKind {
    match category {
        Category::FilterSearch => ValueKind::BooleanToggle,
        Category::FileHandling => ValueKind::SingleValueEnum,
        Category::CaseSensitivity => ValueKind::BooleanToggle,
        Category::SearchMode => ValueKind::BooleanToggle,
        Category::Keymap => ValueKind::RepeatableText,
        Category::ClearDefaultKeymap => ValueKind::BooleanToggle,
        Category::SortMode => ValueKind::SingleValueEnum,
        Category::AutocdTimeout => ValueKind::FreeText,
        Category::HistoryFile => ValueKind::FreeText,
        Category::Mouse => ValueKind::SingleValueEnum,
        Category::SkipFirstRunPrompt => ValueKind::BooleanToggle,
    }
}

/// The flags of the category that override each other on the command line: of two of them, the one written later stands. Empty where the category has a single flag that does not override itself.
pub open spec fn overrides_of(category: Category) -> Seq<Flag> {
    match category {
        Category::FilterSearch => seq![Flag::FilterSearch, Flag::NoFilterSearch],
        Category::FileHandling => seq![Flag::FoldersOnly, Flag::NoFoldersOnly, Flag::Files],
        Category::CaseSensitivity => seq![Flag::IgnoreCase, Flag::SmartCase, Flag::CaseSensitive],
        Category::SearchMode => seq![Flag::GapSearch, Flag::GapSearchAnywhere, Flag::NormalSearch, Flag::NormalSearchAnywhere, Flag::NoGapSearch],
        Category::Keymap => Seq::<Flag>::empty(),
        Category::ClearDefaultKeymap => Seq::<Flag>::empty(),
        Category::SortMode => seq![Flag::Sort],
        Category::AutocdTimeout => seq![Flag::AutocdTimeout],
        Category::HistoryFile => Seq::<Flag>::empty(),
        Category::Mouse => seq![Flag::Mouse],
        Category::SkipFirstRunPrompt => Seq::<Flag>::empty(),
    }
}

/// The flags that write into the category, in the order in which they are declared.
pub open spec fn surfaces_of(category: Category) -> Seq<Flag> {
    match category {
        Category::FilterSearch => seq![Flag::FilterSearch, Flag::NoFilterSearch],
        Category::FileHandling => seq![Flag::Files, Flag::FoldersOnly, Flag::NoFoldersOnly],
        Category::CaseSensitivity => seq![Flag::CaseSensitive, Flag::IgnoreCase, Flag::SmartCase],
        Category::SearchMode => seq![Flag::GapSearch, Flag::GapSearchAnywhere, Flag::NoGapSearch, Flag::NormalSearch, Flag::NormalSearchAnywhere],
        Category::Keymap => seq![Flag::Mapping],
        Category::ClearDefaultKeymap => seq![Flag::ClearDefaultKeymap],
        Category::SortMode => seq![Flag::Sort],
        Category::AutocdTimeout => seq![Flag::AutocdTimeout],
        Category::HistoryFile => seq![Flag::HistoryFile],
        Category::Mouse => seq![Flag::Mouse],
        Category::SkipFirstRunPrompt => seq![Flag::SkipFirstRunPrompt],
    }
}

/// Every flag, in the order in which they are declared.
pub open spec fn all_flags() -> Seq<Flag> {
    seq![
        Flag::FilterSearch,
        Flag::NoFilterSearch,
        Flag::Files,
        Flag::FoldersOnly,
        Flag::NoFoldersOnly,
        Flag::CaseSensitive,
        Flag::IgnoreCase,
        Flag::SmartCase,
        Flag::GapSearch,
        Flag::GapSearchAnywhere,
        Flag::NoGapSearch,
        Flag::NormalSearch,
        Flag::NormalSearchAnywhere,
        Flag::Mapping,
        Flag::ClearDefaultKeymap,
        Flag::Sort,
        Flag::AutocdTimeout,
        Flag::HistoryFile,
        Flag::Mouse,
        Flag::SkipFirstRunPrompt,
    ]
}

/// Every category, in the order in which they are declared.
pub open spec fn all_categories() -> Seq<Category> {
    seq![
        Category::FilterSearch,
        Category::FileHandling,
        Category::CaseSensitivity,
        Category::SearchMode,
        Category::Keymap,
        Category::ClearDefaultKeymap,
        Category::SortMode,
        Category::AutocdTimeout,
        Category::HistoryFile,
        Category::Mouse,
        Category::SkipFirstRunPrompt,
    ]
}

/// The flag with the given long spelling, if there is one.
pub open spec fn flag_named(name: Seq<char>) -> Option<Flag> {
    if exists|flag: Flag| long_name_of(flag) == name {
        Some(choose|flag: Flag| long_name_of(flag) == name)
    } else {
        None
    }
}

/// No two flags share a long spelling.
pub proof fn lemma_long_names_distinct()
    ensures
        forall|a: Flag, b: Flag| #[trigger] long_name_of(a) == #[trigger] long_name_of(b) ==> a == b,
{
    reveal_strlit("filter-search");
    assert("filter-search"@.len() == 13 && "filter-search"@[2] == 'l');
    reveal_strlit("no-filter-search");
    assert("no-filter-search"@.len() == 16 && "no-filter-search"@[2] == '-');
    reveal_strlit("files");
    assert("files"@.len() == 5 && "files"@[2] == 'l');
    reveal_strlit("folders-only");
    assert("folders-only"@.len() == 12 && "folders-only"@[2] == 'l');
    reveal_strlit("no-folders-only");
    assert("no-folders-only"@.len() == 15 && "no-folders-only"@[2] == '-');
    reveal_strlit("case-sensitive");
    assert("case-sensitive"@.len() == 14 && "case-sensitive"@[2] == 's');
    reveal_strlit("ignore-case");
    assert("ignore-case"@.len() == 11 && "ignore-case"@[2] == 'n');
    reveal_strlit("smart-case");
    assert("smart-case"@.len() == 10 && "smart-case"@[2] == 'a');
    reveal_strlit("gap-search");
    assert("gap-search"@.len() == 10 && "gap-search"@[2] == 'p');
    reveal_strlit("gap-search-anywhere");
    assert("gap-search-anywhere"@.len() == 19 && "gap-search-anywhere"@[2] == 'p');
    reveal_strlit("no-gap-search");
    assert("no-gap-search"@.len() == 13 && "no-gap-search"@[2] == '-');
    reveal_strlit("normal-search");
    assert("normal-search"@.len() == 13 && "normal-search"@[2] == 'r');
    reveal_strlit("normal-search-anywhere");
    assert("normal-search-anywhere"@.len() == 22 && "normal-search-anywhere"@[2] == 'r');
    reveal_strlit("map");
    assert("map"@.len() == 3 && "map"@[2] == 'p');
    reveal_strlit("clear-default-keymap");
    assert("clear-default-keymap"@.len() == 20 && "clear-default-keymap"@[2] == 'e');
    reveal_strlit("sort");
    assert("sort"@.len() == 4 && "sort"@[2] == 'r');
    reveal_strlit("autocd-timeout");
    assert("autocd-timeout"@.len() == 14 && "autocd-timeout"@[2] == 't');
    reveal_strlit("history-file");
    assert("history-file"@.len() == 12 && "history-file"@[2] == 's');
    reveal_strlit("mouse");
    assert("mouse"@.len() == 5 && "mouse"@[2] == 'u');
    reveal_strlit("skip-first-run-prompt");
    assert("skip-first-run-prompt"@.len() == 21 && "skip-first-run-prompt"@[2] == 'i');
}

/// A flag is found again by its long spelling.
pub proof fn lemma_flag_named_by_long_name(flag: Flag)
    ensures
        flag_named(long_name_of(flag)) == Some(flag),
{
    lemma_long_names_distinct();
}

/// No two categories share a canonical name.
pub proof fn lemma_canonical_names_distinct()
    ensures
        forall|a: Category, b: Category| #[trigger]
            canonical_name_of(a) == #[trigger] canonical_name_of(b) ==> a == b,
{
    reveal_strlit("filter-search");
    assert("filter-search"@.len() == 13 && "filter-search"@[3] == 't');
    reveal_strlit("file-handling");
    assert("file-handling"@.len() == 13 && "file-handling"@[3] == 'e');
    reveal_strlit("case-sensitivity");
    assert("case-sensitivity"@.len() == 16 && "case-sensitivity"@[3] == 'e');
    reveal_strlit("search-mode");
    assert("search-mode"@.len() == 11 && "search-mode"@[3] == 'r');
    reveal_strlit("keymap");
    assert("keymap"@.len() == 6 && "keymap"@[3] == 'm');
    reveal_strlit("clear-default-keymap");
    assert("clear-default-keymap"@.len() == 20 && "clear-default-keymap"@[3] == 'a');
    reveal_strlit("sort-mode");
    assert("sort-mode"@.len() == 9 && "sort-mode"@[3] == 't');
    reveal_strlit("autocd-timeout");
    assert("autocd-timeout"@.len() == 14 && "autocd-timeout"@[3] == 'o');
    reveal_strlit("history-file");
    assert("history-file"@.len() == 12 && "history-file"@[3] == 't');
    reveal_strlit("mouse");
    assert("mouse"@.len() == 5 && "mouse"@[3] == 's');
    reveal_strlit("skip-first-run-prompt");
    assert("skip-first-run-prompt"@.len() == 21 && "skip-first-run-prompt"@[3] == 'p');
}

/// The list of all flags holds every flag once.
pub proof fn lemma_all_flags_complete()
    ensures
        all_flags().no_duplicates(),
        forall|flag: Flag| all_flags().contains(flag),
{
    let all = all_flags();
    assert forall|flag: Flag| all.contains(flag) by {
        let i: int = match flag {
            Flag::FilterSearch => 0,
            Flag::NoFilterSearch => 1,
            Flag::Files => 2,
            Flag::FoldersOnly => 3,
            Flag::NoFoldersOnly => 4,
            Flag::CaseSensitive => 5,
            Flag::IgnoreCase => 6,
            Flag::SmartCase => 7,
            Flag::GapSearch => 8,
            Flag::GapSearchAnywhere => 9,
            Flag::NoGapSearch => 10,
            Flag::NormalSearch => 11,
            Flag::NormalSearchAnywhere => 12,
            Flag::Mapping => 13,
            Flag::ClearDefaultKeymap => 14,
            Flag::Sort => 15,
            Flag::AutocdTimeout => 16,
            Flag::HistoryFile => 17,
            Flag::Mouse => 18,
            Flag::SkipFirstRunPrompt => 19,
        };
        assert(all[i] == flag);
    }
}

/// The list of all categories holds every category once.
pub proof fn lemma_all_categories_complete()
    ensures
        all_categories().no_duplicates(),
        forall|category: Category| all_categories().contains(category),
{
    let all = all_categories();
    assert forall|category: Category| all.contains(category) by {
        let i: int = match category {
            Category::FilterSearch => 0,
            Category::FileHandling => 1,
            Category::CaseSensitivity => 2,
            Category::SearchMode => 3,
            Category::Keymap => 4,
            Category::ClearDefaultKeymap => 5,
            Category::SortMode => 6,
            Category::AutocdTimeout => 7,
            Category::HistoryFile => 8,
            Category::Mouse => 9,
            Category::SkipFirstRunPrompt => 10,
        };
        assert(all[i] == category);
    }
}

/// Every flag belongs to exactly one category: it is among the flags of
/// the category that it writes into, and of no other.
pub proof fn lemma_one_category_per_flag(flag: Flag, category: Category)
    ensures
        surfaces_of(category).contains(flag) <==> category_of(flag) == category,
        surfaces_of(category).no_duplicates(),
{
    let own = surfaces_of(category_of(flag));
    let i: int = match flag {
        Flag::FilterSearch => 0,
        Flag::NoFilterSearch => 1,
        Flag::Files => 0,
        Flag::FoldersOnly => 1,
        Flag::NoFoldersOnly => 2,
        Flag::CaseSensitive => 0,
        Flag::IgnoreCase => 1,
        Flag::SmartCase => 2,
        Flag::GapSearch => 0,
        Flag::GapSearchAnywhere => 1,
        Flag::NoGapSearch => 2,
        Flag::NormalSearch => 3,
        Flag::NormalSearchAnywhere => 4,
        Flag::Mapping => 0,
        Flag::ClearDefaultKeymap => 0,
        Flag::Sort => 0,
        Flag::AutocdTimeout => 0,
        Flag::HistoryFile => 0,
        Flag::Mouse => 0,
        Flag::SkipFirstRunPrompt => 0,
    };
    assert(own[i] == flag);
}

/// An override group never spans two categories: every flag in the group
/// of a category writes into that category, and no flag occurs twice in
/// it.
pub proof fn lemma_overrides_within_category(category: Category)
    ensures
        forall|i: int|
            0 <= i < overrides_of(category).len() ==> category_of(
                #[trigger] overrides_of(category)[i],
            ) == category,
        overrides_of(category).no_duplicates(),
{
}

impl Flag {
    /// The long spelling of the flag, without the leading dashes.
    pub fn long_name(self) -> (r: &'static str)
        ensures
            r@ == long_name_of(self),
    {
        match self {
            Flag::FilterSearch => "filter-search",
            Flag::NoFilterSearch => "no-filter-search",
            Flag::Files => "files",
            Flag::FoldersOnly => "folders-only",
            Flag::NoFoldersOnly => "no-folders-only",
            Flag::CaseSensitive => "case-sensitive",
            Flag::IgnoreCase => "ignore-case",
            Flag::SmartCase => "smart-case",
            Flag::GapSearch => "gap-search",
            Flag::GapSearchAnywhere => "gap-search-anywhere",
            Flag::NoGapSearch => "no-gap-search",
            Flag::NormalSearch => "normal-search",
            Flag::NormalSearchAnywhere => "normal-search-anywhere",
            Flag::Mapping => "map",
            Flag::ClearDefaultKeymap => "clear-default-keymap",
            Flag::Sort => "sort",
            Flag::AutocdTimeout => "autocd-timeout",
            Flag::HistoryFile => "history-file",
            Flag::Mouse => "mouse",
            Flag::SkipFirstRunPrompt => "skip-first-run-prompt",
        }
    }

    /// The one-letter spelling of the flag, where it has one.
    pub fn short(self) -> (r: Option<char>)
        ensures
            r == short_of(self),
    {
        match self {
            Flag::FilterSearch => Some('f'),
            Flag::NoFilterSearch => Some('F'),
            Flag::Files => Some('l'),
            Flag::FoldersOnly => Some('d'),
            Flag::NoFoldersOnly => Some('D'),
            Flag::CaseSensitive => Some('s'),
            Flag::IgnoreCase => Some('i'),
            Flag::SmartCase => Some('S'),
            Flag::GapSearch => Some('g'),
            Flag::GapSearchAnywhere => Some('G'),
            Flag::NoGapSearch => None,
            Flag::NormalSearch => Some('n'),
            Flag::NormalSearchAnywhere => Some('N'),
            Flag::Mapping => Some('m'),
            Flag::ClearDefaultKeymap => None,
            Flag::Sort => None,
            Flag::AutocdTimeout => None,
            Flag::HistoryFile => None,
            Flag::Mouse => None,
            Flag::SkipFirstRunPrompt => None,
        }
    }

    /// The category that the flag writes into.
    pub fn category(self) -> (r: Category)
        ensures
            r == category_of(self),
    {
        match self {
            Flag::FilterSearch => Category::FilterSearch,
            Flag::NoFilterSearch => Category::FilterSearch,
            Flag::Files => Category::FileHandling,
            Flag::FoldersOnly => Category::FileHandling,
            Flag::NoFoldersOnly => Category::FileHandling,
            Flag::CaseSensitive => Category::CaseSensitivity,
            Flag::IgnoreCase => Category::CaseSensitivity,
            Flag::SmartCase => Category::CaseSensitivity,
            Flag::GapSearch => Category::SearchMode,
            Flag::GapSearchAnywhere => Category::SearchMode,
            Flag::NoGapSearch => Category::SearchMode,
            Flag::NormalSearch => Category::SearchMode,
            Flag::NormalSearchAnywhere => Category::SearchMode,
            Flag::Mapping => Category::Keymap,
            Flag::ClearDefaultKeymap => Category::ClearDefaultKeymap,
            Flag::Sort => Category::SortMode,
            Flag::AutocdTimeout => Category::AutocdTimeout,
            Flag::HistoryFile => Category::HistoryFile,
            Flag::Mouse => Category::Mouse,
            Flag::SkipFirstRunPrompt => Category::SkipFirstRunPrompt,
        }
    }

    /// Whether the flag is followed by a value on the command line.
    pub fn expects_value(self) -> (r: bool)
        ensures
            r == takes_value(self),
    {
        match self {
            Flag::FilterSearch => false,
            Flag::NoFilterSearch => false,
            Flag::Files => true,
            Flag::FoldersOnly => false,
            Flag::NoFoldersOnly => false,
            Flag::CaseSensitive => false,
            Flag::IgnoreCase => false,
            Flag::SmartCase => false,
            Flag::GapSearch => false,
            Flag::GapSearchAnywhere => false,
            Flag::NoGapSearch => false,
            Flag::NormalSearch => false,
            Flag::NormalSearchAnywhere => false,
            Flag::Mapping => true,
            Flag::ClearDefaultKeymap => false,
            Flag::Sort => true,
            Flag::AutocdTimeout => true,
            Flag::HistoryFile => true,
            Flag::Mouse => true,
            Flag::SkipFirstRunPrompt => false,
        }
    }

    /// Whether the flag is kept only for command lines written for earlier versions.
    pub fn deprecated(self) -> (r: bool)
        ensures
            r == is_deprecated(self),
    {
        match self {
            Flag::FilterSearch => false,
            Flag::NoFilterSearch => false,
            Flag::Files => false,
            Flag::FoldersOnly => true,
            Flag::NoFoldersOnly => true,
            Flag::CaseSensitive => false,
            Flag::IgnoreCase => false,
            Flag::SmartCase => false,
            Flag::GapSearch => false,
            Flag::GapSearchAnywhere => false,
            Flag::NoGapSearch => true,
            Flag::NormalSearch => false,
            Flag::NormalSearchAnywhere => false,
            Flag::Mapping => false,
            Flag::ClearDefaultKeymap => false,
            Flag::Sort => false,
            Flag::AutocdTimeout => false,
            Flag::HistoryFile => false,
            Flag::Mouse => false,
            Flag::SkipFirstRunPrompt => false,
        }
    }

    /// Every flag, in the order in which they are declared.
    pub fn all() -> (flags: Vec<Flag>)
        ensures
            flags@ == all_flags(),
    {
        let flags = vec![
            Flag::FilterSearch,
            Flag::NoFilterSearch,
            Flag::Files,
            Flag::FoldersOnly,
            Flag::NoFoldersOnly,
            Flag::CaseSensitive,
            Flag::IgnoreCase,
            Flag::SmartCase,
            Flag::GapSearch,
            Flag::GapSearchAnywhere,
            Flag::NoGapSearch,
            Flag::NormalSearch,
            Flag::NormalSearchAnywhere,
            Flag::Mapping,
            Flag::ClearDefaultKeymap,
            Flag::Sort,
            Flag::AutocdTimeout,
            Flag::HistoryFile,
            Flag::Mouse,
            Flag::SkipFirstRunPrompt,
        ];
        assert(flags@ =~= all_flags());
        flags
    }

    /// The flag with the given long spelling, letter for letter and
    /// without the leading dashes, if there is one.
    pub fn from_name(name: &str) -> (found: Option<Flag>)
        ensures
            found == flag_named(name@),
    {
        let wanted = name.to_owned();
        let flags = Flag::all();
        let mut i: usize = 0;
        while i < flags.len()
            invariant
                i <= flags.len(),
                flags@ == all_flags(),
                wanted@ == name@,
                forall|j: int| 0 <= j < i ==> long_name_of(#[trigger] flags[j]) != name@,
            decreases flags.len() - i,
        {
            let flag = flags[i];
            if flag.long_name().to_owned() == wanted {
                proof {
                    lemma_long_names_distinct();
                }
                return Some(flag);
            }
            i = i + 1;
        }
        proof {
            lemma_all_flags_complete();
            assert forall|flag: Flag| long_name_of(flag) != name@ by {
                let j = choose|j: int| 0 <= j < flags.len() && flags[j] == flag;
                assert(long_name_of(flags[j]) != name@);
            }
        }
        None
    }
}

impl Category {
    /// The stable name of the category.
    pub fn canonical_name(self) -> (r: &'static str)
        ensures
            r@ == canonical_name_of(self),
    {
        match self {
            Category::FilterSearch => "filter-search",
            Category::FileHandling => "file-handling",
            Category::CaseSensitivity => "case-sensitivity",
            Category::SearchMode => "search-mode",
            Category::Keymap => "keymap",
            Category::ClearDefaultKeymap => "clear-default-keymap",
            Category::SortMode => "sort-mode",
            Category::AutocdTimeout => "autocd-timeout",
            Category::HistoryFile => "history-file",
            Category::Mouse => "mouse",
            Category::SkipFirstRunPrompt => "skip-first-run-prompt",
        }
    }

    /// How the flags of the category take their value.
    pub fn value_kind(self) -> (r: ValueKind)
        ensures
            r == value_kind_of(self),
    {
        match self {
            Category::FilterSearch => ValueKind::BooleanToggle,
            Category::FileHandling => ValueKind::SingleValueEnum,
            Category::CaseSensitivity => ValueKind::BooleanToggle,
            Category::SearchMode => ValueKind::BooleanToggle,
            Category::Keymap => ValueKind::RepeatableText,
            Category::ClearDefaultKeymap => ValueKind::BooleanToggle,
            Category::SortMode => ValueKind::SingleValueEnum,
            Category::AutocdTimeout => ValueKind::FreeText,
            Category::HistoryFile => ValueKind::FreeText,
            Category::Mouse => ValueKind::SingleValueEnum,
            Category::SkipFirstRunPrompt => ValueKind::BooleanToggle,
        }
    }

    /// The flags of the category that override each other on the command line.
    pub fn overrides(self) -> (flags: Vec<Flag>)
        ensures
            flags@ == overrides_of(self),
    {
        let flags: Vec<Flag> = match self {
            Category::FilterSearch => vec![Flag::FilterSearch, Flag::NoFilterSearch],
            Category::FileHandling => vec![Flag::FoldersOnly, Flag::NoFoldersOnly, Flag::Files],
            Category::CaseSensitivity => vec![Flag::IgnoreCase, Flag::SmartCase, Flag::CaseSensitive],
            Category::SearchMode => vec![Flag::GapSearch, Flag::GapSearchAnywhere, Flag::NormalSearch, Flag::NormalSearchAnywhere, Flag::NoGapSearch],
            Category::Keymap => Vec::new(),
            Category::ClearDefaultKeymap => Vec::new(),
            Category::SortMode => vec![Flag::Sort],
            Category::AutocdTimeout => vec![Flag::AutocdTimeout],
            Category::HistoryFile => Vec::new(),
            Category::Mouse => vec![Flag::Mouse],
            Category::SkipFirstRunPrompt => Vec::new(),
        };
        assert(flags@ =~= overrides_of(self));
        flags
    }

    /// The flags that write into the category, in the order in which they are declared.
    pub fn surfaces(self) -> (flags: Vec<Flag>)
        ensures
            flags@ == surfaces_of(self),
    {
        let flags: Vec<Flag> = match self {
            Category::FilterSearch => vec![Flag::FilterSearch, Flag::NoFilterSearch],
            Category::FileHandling => vec![Flag::Files, Flag::FoldersOnly, Flag::NoFoldersOnly],
            Category::CaseSensitivity => vec![Flag::CaseSensitive, Flag::IgnoreCase, Flag::SmartCase],
            Category::SearchMode => vec![Flag::GapSearch, Flag::GapSearchAnywhere, Flag::NoGapSearch, Flag::NormalSearch, Flag::NormalSearchAnywhere],
            Category::Keymap => vec![Flag::Mapping],
            Category::ClearDefaultKeymap => vec![Flag::ClearDefaultKeymap],
            Category::SortMode => vec![Flag::Sort],
            Category::AutocdTimeout => vec![Flag::AutocdTimeout],
            Category::HistoryFile => vec![Flag::HistoryFile],
            Category::Mouse => vec![Flag::Mouse],
            Category::SkipFirstRunPrompt => vec![Flag::SkipFirstRunPrompt],
        };
        assert(flags@ =~= surfaces_of(self));
        flags
    }

    /// Every category, in the order in which they are declared.
    pub fn all() -> (categories: Vec<Category>)
        ensures
            categories@ == all_categories(),
    {
        let categories = vec![
            Category::FilterSearch,
            Category::FileHandling,
            Category::CaseSensitivity,
            Category::SearchMode,
            Category::Keymap,
            Category::ClearDefaultKeymap,
            Category::SortMode,
            Category::AutocdTimeout,
            Category::HistoryFile,
            Category::Mouse,
            Category::SkipFirstRunPrompt,
        ];
        assert(categories@ =~= all_categories());
        categories
    }
}

} // verus!
