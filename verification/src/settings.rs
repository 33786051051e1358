use crate::schema::{flag_named, takes_value, Category, Flag};
use crate::text::same_text;
use vstd::prelude::*;
use vstd::string::*;

verus! {

/// What a search does with files.
#[derive(Clone, Copy, Debug, PartialEq, Eq, Structural)]
pub enum FileHandling {
    /// Files are listed, but a search matches only folders.
    Ignore,
    /// Files are not listed.
    Hide,
    /// Files are listed and a search matches them too.
    Match,
}

/// How a search treats upper and lower case.
#[derive(Clone, Copy, Debug, PartialEq, Eq, Structural)]
pub enum CaseMode {
    CaseSensitive,
    IgnoreCase,
    /// Case counts only where the query holds an upper-case letter.
    SmartCase,
}

/// Where a query may match in a name, and whether it may skip letters.
#[derive(Clone, Copy, Debug, PartialEq, Eq, Structural)]
pub enum SearchMode {
    /// From the first letter, with gaps.
    Gap,
    /// Anywhere, with gaps.
    GapAnywhere,
    /// From the first letter, without gaps.
    Normal,
    /// Anywhere, without gaps.
    NormalAnywhere,
}

/// The order of the listing.
#[derive(Clone, Copy, Debug, PartialEq, Eq, Structural)]
pub enum SortMode {
    Name,
    Created,
    Modified,
}

/// When to enter the only folder that matches: never, or after so many
/// milliseconds. Zero milliseconds is a timeout, not `Off`.
#[derive(Clone, Copy, Debug, PartialEq, Eq, Structural)]
pub enum AutocdTimeout {
    Off,
    Millis(u64),
}

/// Where the history of visited folders is kept.
#[derive(Clone, Debug, PartialEq, Eq)]
pub enum HistoryFile {
    /// In the file that the platform's cache folder gives.
    Default,
    /// Nowhere: no history is kept.
    Disabled,
    /// In the file at this path.
    Path(String),
}

/// What a [`HistoryFile`] holds.
pub enum HistoryFileView {
    Default,
    Disabled,
    Path(Seq<char>),
}

impl View for HistoryFile {
    type V = HistoryFileView;

    open spec fn view(&self) -> HistoryFileView {
        match self {
            HistoryFile::Default => HistoryFileView::Default,
            HistoryFile::Disabled => HistoryFileView::Disabled,
            HistoryFile::Path(p) => HistoryFileView::Path(p@),
        }
    }
}

/// A value for one category: what one flag on the command line stands
/// for.
#[derive(Clone, Debug, PartialEq, Eq)]
pub enum SettingValue {
    FilterSearch(bool),
    FileHandling(FileHandling),
    CaseSensitivity(CaseMode),
    SearchMode(SearchMode),
    /// One more entry of the keymap option.
    Mapping(String),
    ClearDefaultKeymap(bool),
    SortMode(SortMode),
    AutocdTimeout(AutocdTimeout),
    HistoryFile(HistoryFile),
    Mouse(bool),
    SkipFirstRunPrompt(bool),
}

/// What a [`SettingValue`] holds.
pub enum SettingValueView {
    FilterSearch(bool),
    FileHandling(FileHandling),
    CaseSensitivity(CaseMode),
    SearchMode(SearchMode),
    Mapping(Seq<char>),
    ClearDefaultKeymap(bool),
    SortMode(SortMode),
    AutocdTimeout(AutocdTimeout),
    HistoryFile(HistoryFileView),
    Mouse(bool),
    SkipFirstRunPrompt(bool),
}

impl View for SettingValue {
    type V = SettingValueView;

    open spec fn view(&self) -> SettingValueView {
        match self {
            SettingValue::FilterSearch(b) => SettingValueView::FilterSearch(*b),
            SettingValue::FileHandling(m) => SettingValueView::FileHandling(*m),
            SettingValue::CaseSensitivity(m) => SettingValueView::CaseSensitivity(*m),
            SettingValue::SearchMode(m) => SettingValueView::SearchMode(*m),
            SettingValue::Mapping(t) => SettingValueView::Mapping(t@),
            SettingValue::ClearDefaultKeymap(b) => SettingValueView::ClearDefaultKeymap(*b),
            SettingValue::SortMode(m) => SettingValueView::SortMode(*m),
            SettingValue::AutocdTimeout(t) => SettingValueView::AutocdTimeout(*t),
            SettingValue::HistoryFile(h) => SettingValueView::HistoryFile(h@),
            SettingValue::Mouse(b) => SettingValueView::Mouse(*b),
            SettingValue::SkipFirstRunPrompt(b) => SettingValueView::SkipFirstRunPrompt(*b),
        }
    }
}

/// The configuration of a session: one value for each category. The
/// entries of the keymap option are kept in the order written.
#[derive(Clone, Debug, PartialEq, Eq)]
pub struct ResolvedSettings {
    pub filter_search: bool,
    pub file_handling: FileHandling,
    pub case_sensitivity: CaseMode,
    pub search_mode: SearchMode,
    pub mappings: Vec<String>,
    pub clear_default_keymap: bool,
    pub sort_mode: SortMode,
    pub autocd_timeout: AutocdTimeout,
    pub history_file: HistoryFile,
    pub mouse: bool,
    pub skip_first_run_prompt: bool,
}

/// What [`ResolvedSettings`] hold.
pub struct SettingsView {
    pub filter_search: bool,
    pub file_handling: FileHandling,
    pub case_sensitivity: CaseMode,
    pub search_mode: SearchMode,
    pub mappings: Seq<Seq<char>>,
    pub clear_default_keymap: bool,
    pub sort_mode: SortMode,
    pub autocd_timeout: AutocdTimeout,
    pub history_file: HistoryFileView,
    pub mouse: bool,
    pub skip_first_run_prompt: bool,
}

impl View for ResolvedSettings {
    type V = SettingsView;

    open spec fn view(&self) -> SettingsView {
        SettingsView {
            filter_search: self.filter_search,
            file_handling: self.file_handling,
            case_sensitivity: self.case_sensitivity,
            search_mode: self.search_mode,
            mappings: crate::text::views(self.mappings@),
            clear_default_keymap: self.clear_default_keymap,
            sort_mode: self.sort_mode,
            autocd_timeout: self.autocd_timeout,
            history_file: self.history_file@,
            mouse: self.mouse,
            skip_first_run_prompt: self.skip_first_run_prompt,
        }
    }
}

/// One flag as it stood on the command line: its long spelling without the
/// leading dashes, and the value that followed it (ignored for a flag that
/// takes none).
#[derive(Clone, Debug, PartialEq, Eq)]
pub struct SuppliedFlag {
    pub name: String,
    pub value: String,
}

/// The names and values of the supplied flags, in order.
pub open spec fn supplied_views(supplied: Seq<SuppliedFlag>) -> Seq<(Seq<char>, Seq<char>)> {
    Seq::new(supplied.len(), |i: int| (supplied[i].name@, supplied[i].value@))
}

/// A value that the flag does not accept.
#[derive(Clone, Debug, PartialEq, Eq)]
pub struct InvalidValue {
    pub flag: Flag,
    pub value: String,
}

/// What an [`InvalidValue`] holds.
pub struct InvalidValueView {
    pub flag: Flag,
    pub value: Seq<char>,
}

impl View for InvalidValue {
    type V = InvalidValueView;

    open spec fn view(&self) -> InvalidValueView {
        InvalidValueView { flag: self.flag, value: self.value@ }
    }
}

/// The settings when no flag is given.
pub open spec fn default_settings() -> SettingsView {
    SettingsView {
        filter_search: false,
        file_handling: FileHandling::Ignore,
        case_sensitivity: CaseMode::SmartCase,
        search_mode: SearchMode::Gap,
        mappings: Seq::<Seq<char>>::empty(),
        clear_default_keymap: false,
        sort_mode: SortMode::Name,
        autocd_timeout: AutocdTimeout::Millis(200),
        history_file: HistoryFileView::Default,
        mouse: false,
        skip_first_run_prompt: false,
    }
}

/// The category that a value belongs to.
pub open spec fn value_category(value: SettingValueView) -> Category {
    match value {
        SettingValueView::FilterSearch(_) => Category::FilterSearch,
        SettingValueView::FileHandling(_) => Category::FileHandling,
        SettingValueView::CaseSensitivity(_) => Category::CaseSensitivity,
        SettingValueView::SearchMode(_) => Category::SearchMode,
        SettingValueView::Mapping(_) => Category::Keymap,
        SettingValueView::ClearDefaultKeymap(_) => Category::ClearDefaultKeymap,
        SettingValueView::SortMode(_) => Category::SortMode,
        SettingValueView::AutocdTimeout(_) => Category::AutocdTimeout,
        SettingValueView::HistoryFile(_) => Category::HistoryFile,
        SettingValueView::Mouse(_) => Category::Mouse,
        SettingValueView::SkipFirstRunPrompt(_) => Category::SkipFirstRunPrompt,
    }
}

/// The value that the settings hold for a category with a single value;
/// `None` for the keymap, which collects every entry.
pub open spec fn value_in(settings: SettingsView, category: Category) -> Option<SettingValueView> {
    match category {
        Category::FilterSearch => Some(SettingValueView::FilterSearch(settings.filter_search)),
        Category::FileHandling => Some(SettingValueView::FileHandling(settings.file_handling)),
        Category::CaseSensitivity => Some(
            SettingValueView::CaseSensitivity(settings.case_sensitivity),
        ),
        Category::SearchMode => Some(SettingValueView::SearchMode(settings.search_mode)),
        Category::Keymap => None,
        Category::ClearDefaultKeymap => Some(
            SettingValueView::ClearDefaultKeymap(settings.clear_default_keymap),
        ),
        Category::SortMode => Some(SettingValueView::SortMode(settings.sort_mode)),
        Category::AutocdTimeout => Some(SettingValueView::AutocdTimeout(settings.autocd_timeout)),
        Category::HistoryFile => Some(SettingValueView::HistoryFile(settings.history_file)),
        Category::Mouse => Some(SettingValueView::Mouse(settings.mouse)),
        Category::SkipFirstRunPrompt => Some(
            SettingValueView::SkipFirstRunPrompt(settings.skip_first_run_prompt),
        ),
    }
}

/// The settings with one value written: it replaces the value of its
/// category, or, for the keymap, is added after the entries already there.
pub open spec fn with_value(settings: SettingsView, value: SettingValueView) -> SettingsView {
    match value {
        SettingValueView::FilterSearch(b) => SettingsView { filter_search: b, ..settings },
        SettingValueView::FileHandling(m) => SettingsView { file_handling: m, ..settings },
        SettingValueView::CaseSensitivity(m) => SettingsView { case_sensitivity: m, ..settings },
        SettingValueView::SearchMode(m) => SettingsView { search_mode: m, ..settings },
        SettingValueView::Mapping(t) => SettingsView {
            mappings: settings.mappings.push(t),
            ..settings
        },
        SettingValueView::ClearDefaultKeymap(b) => SettingsView {
            clear_default_keymap: b,
            ..settings
        },
        SettingValueView::SortMode(m) => SettingsView { sort_mode: m, ..settings },
        SettingValueView::AutocdTimeout(t) => SettingsView { autocd_timeout: t, ..settings },
        SettingValueView::HistoryFile(h) => SettingsView { history_file: h, ..settings },
        SettingValueView::Mouse(b) => SettingsView { mouse: b, ..settings },
        SettingValueView::SkipFirstRunPrompt(b) => SettingsView {
            skip_first_run_prompt: b,
            ..settings
        },
    }
}

/// The value that a flag stands for by being present. This is the table
/// that maps the flags without a value, the deprecated ones among them,
/// onto the values of their categories. `None` for a flag that takes its
/// value from the command line.
pub open spec fn implied_value(flag: Flag) -> Option<SettingValueView> {
    match flag {
        Flag::FilterSearch => Some(SettingValueView::FilterSearch(true)),
        Flag::NoFilterSearch => Some(SettingValueView::FilterSearch(false)),
        Flag::FoldersOnly => Some(SettingValueView::FileHandling(FileHandling::Hide)),
        Flag::NoFoldersOnly => Some(SettingValueView::FileHandling(FileHandling::Ignore)),
        Flag::CaseSensitive => Some(SettingValueView::CaseSensitivity(CaseMode::CaseSensitive)),
        Flag::IgnoreCase => Some(SettingValueView::CaseSensitivity(CaseMode::IgnoreCase)),
        Flag::SmartCase => Some(SettingValueView::CaseSensitivity(CaseMode::SmartCase)),
        Flag::GapSearch => Some(SettingValueView::SearchMode(SearchMode::Gap)),
        Flag::GapSearchAnywhere => Some(SettingValueView::SearchMode(SearchMode::GapAnywhere)),
        Flag::NoGapSearch => Some(SettingValueView::SearchMode(SearchMode::Normal)),
        Flag::NormalSearch => Some(SettingValueView::SearchMode(SearchMode::Normal)),
        Flag::NormalSearchAnywhere => Some(
            SettingValueView::SearchMode(SearchMode::NormalAnywhere),
        ),
        Flag::ClearDefaultKeymap => Some(SettingValueView::ClearDefaultKeymap(true)),
        Flag::SkipFirstRunPrompt => Some(SettingValueView::SkipFirstRunPrompt(true)),
        Flag::Files | Flag::Mapping | Flag::Sort | Flag::AutocdTimeout | Flag::HistoryFile
        | Flag::Mouse => None,
    }
}

/// Whether the character is a decimal digit.
pub open spec fn is_digit(c: char) -> bool {
    '0' <= c <= '9'
}

/// Whether the text holds decimal digits only.
pub open spec fn all_digits(text: Seq<char>) -> bool {
    forall|i: int| 0 <= i < text.len() ==> is_digit(#[trigger] text[i])
}

/// The number that a text of decimal digits writes.
pub open spec fn decimal_value(text: Seq<char>) -> nat
    decreases text.len(),
{
    if text.len() == 0 {
        0
    } else {
        decimal_value(text.drop_last()) * 10 + (text.last() as nat - '0' as nat) as nat
    }
}

/// The meaning of a file handling value. Each mode has a full spelling and
/// a one-letter one.
pub open spec fn file_handling_of(raw: Seq<char>) -> Option<FileHandling> {
    if raw == "ignore"@ || raw == "i"@ {
        Some(FileHandling::Ignore)
    } else if raw == "hide"@ || raw == "h"@ {
        Some(FileHandling::Hide)
    } else if raw == "match"@ || raw == "m"@ {
        Some(FileHandling::Match)
    } else {
        None
    }
}

/// The meaning of a sorting value.
pub open spec fn sort_mode_of(raw: Seq<char>) -> Option<SortMode> {
    if raw == "name"@ {
        Some(SortMode::Name)
    } else if raw == "created"@ {
        Some(SortMode::Created)
    } else if raw == "modified"@ {
        Some(SortMode::Modified)
    } else {
        None
    }
}

/// The meaning of a switch value.
pub open spec fn switch_of(raw: Seq<char>) -> Option<bool> {
    if raw == "on"@ {
        Some(true)
    } else if raw == "off"@ {
        Some(false)
    } else {
        None
    }
}

/// The meaning of a timeout value: the word `off`, or a number of
/// milliseconds written in decimal digits and nothing else, that fits in
/// 64 bits.
pub open spec fn timeout_of(raw: Seq<char>) -> Option<AutocdTimeout> {
    if raw == "off"@ {
        Some(AutocdTimeout::Off)
    } else if raw.len() > 0 && all_digits(raw) && decimal_value(raw) <= u64::MAX {
        Some(AutocdTimeout::Millis(decimal_value(raw) as u64))
    } else {
        None
    }
}

/// The meaning of a history file value: any text is accepted, and the
/// empty text disables the history.
pub open spec fn history_file_of(raw: Seq<char>) -> HistoryFileView {
    if raw.len() == 0 {
        HistoryFileView::Disabled
    } else {
        HistoryFileView::Path(raw)
    }
}

/// The value that a flag with a value stands for; `None` where the flag
/// does not accept the value, or takes none.
pub open spec fn read_value(flag: Flag, raw: Seq<char>) -> Option<SettingValueView> {
    match flag {
        Flag::Files => match file_handling_of(raw) {
            Some(m) => Some(SettingValueView::FileHandling(m)),
            None => None,
        },
        Flag::Sort => match sort_mode_of(raw) {
            Some(m) => Some(SettingValueView::SortMode(m)),
            None => None,
        },
        Flag::Mouse => match switch_of(raw) {
            Some(b) => Some(SettingValueView::Mouse(b)),
            None => None,
        },
        Flag::AutocdTimeout => match timeout_of(raw) {
            Some(t) => Some(SettingValueView::AutocdTimeout(t)),
            None => None,
        },
        Flag::HistoryFile => Some(SettingValueView::HistoryFile(history_file_of(raw))),
        Flag::Mapping => Some(SettingValueView::Mapping(raw)),
        _ => None,
    }
}

/// The value that one occurrence of a flag stands for; `None` where the
/// flag does not accept the value written after it.
pub open spec fn flag_value(flag: Flag, raw: Seq<char>) -> Option<SettingValueView> {
    if takes_value(flag) {
        read_value(flag, raw)
    } else {
        implied_value(flag)
    }
}

/// The settings that result from writing the supplied flags, in order,
/// over `start`: each flag replaces the value of its category, so that the
/// last one written for a category stands. A name that is no flag's long
/// spelling belongs to no category and changes nothing. The first flag
/// whose value is not accepted ends the resolution with that flag and
/// value.
pub open spec fn resolve_from(start: SettingsView, supplied: Seq<(Seq<char>, Seq<char>)>) -> Result<
    SettingsView,
    InvalidValueView,
>
    decreases supplied.len(),
{
    if supplied.len() == 0 {
        Ok(start)
    } else {
        match resolve_from(start, supplied.drop_last()) {
            Err(e) => Err(e),
            Ok(settings) => match flag_named(supplied.last().0) {
                None => Ok(settings),
                Some(flag) => match flag_value(flag, supplied.last().1) {
                    None => Err(InvalidValueView { flag, value: supplied.last().1 }),
                    Some(value) => Ok(with_value(settings, value)),
                },
            },
        }
    }
}

/// The settings that the supplied flags resolve to.
pub open spec fn resolve_all(supplied: Seq<(Seq<char>, Seq<char>)>) -> Result<
    SettingsView,
    InvalidValueView,
> {
    resolve_from(default_settings(), supplied)
}

/// The view of the outcome of a resolution.
pub open spec fn resolution_view(resolved: Result<ResolvedSettings, InvalidValue>) -> Result<
    SettingsView,
    InvalidValueView,
> {
    match resolved {
        Ok(settings) => Ok(settings@),
        Err(e) => Err(e@),
    }
}

/// The view of an optional value.
pub open spec fn optional_value_view(value: Option<SettingValue>) -> Option<SettingValueView> {
    match value {
        Some(v) => Some(v@),
        None => None,
    }
}

/// A longer text of digits writes no smaller number.
pub proof fn lemma_decimal_value_grows(text: Seq<char>, k: int)
    requires
        0 <= k <= text.len(),
        all_digits(text),
    ensures
        decimal_value(text.take(k)) <= decimal_value(text),
    decreases text.len(),
{
    if k == text.len() {
        assert(text.take(k) =~= text);
    } else {
        assert(text.drop_last().take(k) =~= text.take(k));
        assert(is_digit(text[text.len() - 1]));
        lemma_decimal_value_grows(text.drop_last(), k);
    }
}

/// Reads a timeout: the word `off`, or a number of milliseconds in decimal
/// digits. A sign, a blank, the empty text or a number beyond 64 bits is
/// not accepted.
pub fn parse_timeout(raw: &str) -> (timeout: Option<AutocdTimeout>)
    ensures
        timeout == timeout_of(raw@),
{
    if same_text(raw, "off") {
        return Some(AutocdTimeout::Off);
    }
    if raw.is_empty() {
        return None;
    }
    let mut total: u64 = 0;
    assert(raw@.take(0) =~= Seq::<char>::empty());
    for c in it: raw.chars()
        invariant
            it.seq() == raw@,
            raw@ != "off"@,
            raw@.len() > 0,
            all_digits(raw@.take(it.index() as int)),
            total == decimal_value(raw@.take(it.index() as int)),
    {
        let ghost k = it.index() as int;
        proof {
            assert(raw@.take(k + 1).drop_last() =~= raw@.take(k));
            assert(raw@.take(k + 1).last() == c);
        }
        if c < '0' || c > '9' {
            assert(!is_digit(raw@[k]));
            return None;
        }
        let digit: u64 = (c as u32 - '0' as u32) as u64;
        if total > (u64::MAX - digit) / 10 {
            proof {
                if all_digits(raw@) {
                    lemma_decimal_value_grows(raw@, k + 1);
                }
            }
            return None;
        }
        total = total * 10 + digit;
        proof {
            assert forall|i: int| 0 <= i < k + 1 implies is_digit(
                #[trigger] raw@.take(k + 1)[i],
            ) by {
                if i < k {
                    assert(raw@.take(k)[i] == raw@.take(k + 1)[i]);
                }
            }
        }
    }
    assert(raw@.take(raw@.len() as int) =~= raw@);
    Some(AutocdTimeout::Millis(total))
}

/// Reads a file handling value.
pub fn parse_file_handling(raw: &str) -> (mode: Option<FileHandling>)
    ensures
        mode == file_handling_of(raw@),
{
    if same_text(raw, "ignore") || same_text(raw, "i") {
        Some(FileHandling::Ignore)
    } else if same_text(raw, "hide") || same_text(raw, "h") {
        Some(FileHandling::Hide)
    } else if same_text(raw, "match") || same_text(raw, "m") {
        Some(FileHandling::Match)
    } else {
        None
    }
}

/// Reads a sorting value.
pub fn parse_sort_mode(raw: &str) -> (mode: Option<SortMode>)
    ensures
        mode == sort_mode_of(raw@),
{
    if same_text(raw, "name") {
        Some(SortMode::Name)
    } else if same_text(raw, "created") {
        Some(SortMode::Created)
    } else if same_text(raw, "modified") {
        Some(SortMode::Modified)
    } else {
        None
    }
}

/// Reads a switch value, `on` or `off`.
pub fn parse_switch(raw: &str) -> (on: Option<bool>)
    ensures
        on == switch_of(raw@),
{
    if same_text(raw, "on") {
        Some(true)
    } else if same_text(raw, "off") {
        Some(false)
    } else {
        None
    }
}

/// Reads a history file value.
pub fn parse_history_file(raw: &str) -> (file: HistoryFile)
    ensures
        file@ == history_file_of(raw@),
{
    if raw.is_empty() {
        HistoryFile::Disabled
    } else {
        HistoryFile::Path(raw.to_owned())
    }
}

impl Flag {
    /// The value that the flag stands for by being present, if it takes no
    /// value from the command line.
    pub fn implied(self) -> (value: Option<SettingValue>)
        ensures
            optional_value_view(value) == implied_value(self),
    {
        match self {
            Flag::FilterSearch => Some(SettingValue::FilterSearch(true)),
            Flag::NoFilterSearch => Some(SettingValue::FilterSearch(false)),
            Flag::FoldersOnly => Some(SettingValue::FileHandling(FileHandling::Hide)),
            Flag::NoFoldersOnly => Some(SettingValue::FileHandling(FileHandling::Ignore)),
            Flag::CaseSensitive => Some(SettingValue::CaseSensitivity(CaseMode::CaseSensitive)),
            Flag::IgnoreCase => Some(SettingValue::CaseSensitivity(CaseMode::IgnoreCase)),
            Flag::SmartCase => Some(SettingValue::CaseSensitivity(CaseMode::SmartCase)),
            Flag::GapSearch => Some(SettingValue::SearchMode(SearchMode::Gap)),
            Flag::GapSearchAnywhere => Some(SettingValue::SearchMode(SearchMode::GapAnywhere)),
            Flag::NoGapSearch => Some(SettingValue::SearchMode(SearchMode::Normal)),
            Flag::NormalSearch => Some(SettingValue::SearchMode(SearchMode::Normal)),
            Flag::NormalSearchAnywhere => Some(
                SettingValue::SearchMode(SearchMode::NormalAnywhere),
            ),
            Flag::ClearDefaultKeymap => Some(SettingValue::ClearDefaultKeymap(true)),
            Flag::SkipFirstRunPrompt => Some(SettingValue::SkipFirstRunPrompt(true)),
            Flag::Files | Flag::Mapping | Flag::Sort | Flag::AutocdTimeout | Flag::HistoryFile
            | Flag::Mouse => None,
        }
    }

    /// The value that one occurrence of the flag stands for: the flag's own
    /// value where it takes none from the command line, else the meaning
    /// of `raw`; `None` where the flag does not accept `raw`.
    pub fn value(self, raw: &str) -> (value: Option<SettingValue>)
        ensures
            optional_value_view(value) == flag_value(self, raw@),
    {
        match self {
            Flag::Files => match parse_file_handling(raw) {
                Some(m) => Some(SettingValue::FileHandling(m)),
                None => None,
            },
            Flag::Sort => match parse_sort_mode(raw) {
                Some(m) => Some(SettingValue::SortMode(m)),
                None => None,
            },
            Flag::Mouse => match parse_switch(raw) {
                Some(b) => Some(SettingValue::Mouse(b)),
                None => None,
            },
            Flag::AutocdTimeout => match parse_timeout(raw) {
                Some(t) => Some(SettingValue::AutocdTimeout(t)),
                None => None,
            },
            Flag::HistoryFile => Some(SettingValue::HistoryFile(parse_history_file(raw))),
            Flag::Mapping => Some(SettingValue::Mapping(raw.to_owned())),
            _ => self.implied(),
        }
    }
}

impl ResolvedSettings {
    /// The settings when no flag is given.
    pub fn defaults() -> (settings: ResolvedSettings)
        ensures
            settings@ == default_settings(),
    {
        let settings = ResolvedSettings {
            filter_search: false,
            file_handling: FileHandling::Ignore,
            case_sensitivity: CaseMode::SmartCase,
            search_mode: SearchMode::Gap,
            mappings: Vec::new(),
            clear_default_keymap: false,
            sort_mode: SortMode::Name,
            autocd_timeout: AutocdTimeout::Millis(200),
            history_file: HistoryFile::Default,
            mouse: false,
            skip_first_run_prompt: false,
        };
        assert(settings@.mappings =~= Seq::<Seq<char>>::empty());
        settings
    }

    /// The value that the settings hold for a category with a single
    /// value; `None` for the keymap, which collects every entry.
    pub fn value_of(&self, category: Category) -> (value: Option<SettingValue>)
        ensures
            optional_value_view(value) == value_in(self@, category),
    {
        match category {
            Category::FilterSearch => Some(SettingValue::FilterSearch(self.filter_search)),
            Category::FileHandling => Some(SettingValue::FileHandling(self.file_handling)),
            Category::CaseSensitivity => Some(SettingValue::CaseSensitivity(self.case_sensitivity)),
            Category::SearchMode => Some(SettingValue::SearchMode(self.search_mode)),
            Category::Keymap => None,
            Category::ClearDefaultKeymap => Some(
                SettingValue::ClearDefaultKeymap(self.clear_default_keymap),
            ),
            Category::SortMode => Some(SettingValue::SortMode(self.sort_mode)),
            Category::AutocdTimeout => Some(SettingValue::AutocdTimeout(self.autocd_timeout)),
            Category::HistoryFile => {
                let file = match &self.history_file {
                    HistoryFile::Default => HistoryFile::Default,
                    HistoryFile::Disabled => HistoryFile::Disabled,
                    HistoryFile::Path(p) => HistoryFile::Path(p.clone()),
                };
                Some(SettingValue::HistoryFile(file))
            },
            Category::Mouse => Some(SettingValue::Mouse(self.mouse)),
            Category::SkipFirstRunPrompt => Some(
                SettingValue::SkipFirstRunPrompt(self.skip_first_run_prompt),
            ),
        }
    }

    /// Writes one value: it replaces the value of its category, or, for the
    /// keymap, is added after the entries already there.
    pub fn with(self, value: SettingValue) -> (settings: ResolvedSettings)
        ensures
            settings@ == with_value(self@, value@),
    {
        let mut settings = self;
        match value {
            SettingValue::FilterSearch(b) => {
                settings.filter_search = b;
            },
            SettingValue::FileHandling(m) => {
                settings.file_handling = m;
            },
            SettingValue::CaseSensitivity(m) => {
                settings.case_sensitivity = m;
            },
            SettingValue::SearchMode(m) => {
                settings.search_mode = m;
            },
            SettingValue::Mapping(t) => {
                let ghost before = settings@.mappings;
                settings.mappings.push(t);
                assert(settings@.mappings =~= before.push(t@));
            },
            SettingValue::ClearDefaultKeymap(b) => {
                settings.clear_default_keymap = b;
            },
            SettingValue::SortMode(m) => {
                settings.sort_mode = m;
            },
            SettingValue::AutocdTimeout(t) => {
                settings.autocd_timeout = t;
            },
            SettingValue::HistoryFile(h) => {
                settings.history_file = h;
            },
            SettingValue::Mouse(b) => {
                settings.mouse = b;
            },
            SettingValue::SkipFirstRunPrompt(b) => {
                settings.skip_first_run_prompt = b;
            },
        }
        settings
    }
}

/// An invalid value among the first `k` flags is the outcome of the whole
/// resolution.
pub proof fn lemma_first_invalid_stands(
    start: SettingsView,
    supplied: Seq<(Seq<char>, Seq<char>)>,
    k: int,
)
    requires
        0 <= k <= supplied.len(),
        resolve_from(start, supplied.take(k)) is Err,
    ensures
        resolve_from(start, supplied) == resolve_from(start, supplied.take(k)),
    decreases supplied.len(),
{
    if k == supplied.len() {
        assert(supplied.take(k) =~= supplied);
    } else {
        assert(supplied.drop_last().take(k) =~= supplied.take(k));
        lemma_first_invalid_stands(start, supplied.drop_last(), k);
    }
}

/// Resolves the flags that were supplied, in the order in which the user
/// wrote them, into one value for each category. Within a category the
/// flag written last stands, whichever of the category's spellings it
/// uses; a category for which no flag was written keeps its default. A
/// name that is no flag's long spelling is passed over. The first flag
/// whose value is not accepted is reported, also where a later flag
/// overrides it.
pub fn resolve(supplied: &Vec<SuppliedFlag>) -> (resolved: Result<ResolvedSettings, InvalidValue>)
    ensures
        resolution_view(resolved) == resolve_all(supplied_views(supplied@)),
{
    let ghost all = supplied_views(supplied@);
    let mut settings = ResolvedSettings::defaults();
    let mut i: usize = 0;
    assert(all.take(0) =~= Seq::<(Seq<char>, Seq<char>)>::empty());
    while i < supplied.len()
        invariant
            i <= supplied.len(),
            all == supplied_views(supplied@),
            resolve_from(default_settings(), all.take(i as int)) == Ok::<
                SettingsView,
                InvalidValueView,
            >(settings@),
        decreases supplied.len() - i,
    {
        proof {
            assert(all.take(i as int + 1).drop_last() =~= all.take(i as int));
            assert(all.take(i as int + 1).last() == (supplied[i as int].name@, supplied[i as int].value@));
        }
        match Flag::from_name(supplied[i].name.as_str()) {
            None => {},
            Some(flag) => match flag.value(supplied[i].value.as_str()) {
                None => {
                    proof {
                        lemma_first_invalid_stands(default_settings(), all, i as int + 1);
                    }
                    return Err(InvalidValue { flag, value: supplied[i].value.clone() });
                },
                Some(value) => {
                    settings = settings.with(value);
                },
            },
        }
        i = i + 1;
    }
    assert(all.take(i as int) =~= all);
    Ok(settings)
}

} // verus!
