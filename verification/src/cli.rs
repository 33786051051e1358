use crate::definitions::{
    definition_views, lemma_standard_registers_all_flags, registered,
    standard_definitions, standard_prefix, FlagSchema,
};
use crate::help::{keymap_help, keymap_help_text, listing};
use crate::schema::{
    all_categories, all_flags, category_of, is_deprecated, lemma_one_category_per_flag,
    long_name_of, overrides_of, short_of, surfaces_of, takes_value, value_kind_of, Flag,
    ValueKind,
};
use crate::settings::{decimal_value, default_settings, flag_value, value_in};
use crate::texts;
use crate::vocabulary::{
    pair_descriptions, pair_names, standard_actions, standard_contexts, Vocabulary,
};
use vstd::prelude::*;
use vstd::string::*;

verus! {

/// `clap::Command`, the description of a command line. Nothing is known of
/// what a value of it holds but what the contracts below say.
#[verifier::external_type_specification]
#[verifier::external_body]
pub struct ExCommand(clap::Command);

/// `clap::Arg`, the description of one argument. Nothing is known of what
/// a value of it holds but what the contracts below say.
#[verifier::external_type_specification]
#[verifier::external_body]
pub struct ExArg(clap::Arg);

/// The identifiers of the arguments that a command declares, in the order
/// in which they were added: those of the arguments that
/// `clap::Command::get_arguments` walks.
pub uninterp spec fn command_arg_ids(command: clap::Command) -> Seq<Seq<char>>;

/// The identifier of an argument: what `clap::Arg::get_id` returns.
pub uninterp spec fn arg_id(arg: clap::Arg) -> Seq<char>;

/// What an argument does with what it finds on the command line.
#[derive(Clone, Copy, Debug, PartialEq, Eq, Structural)]
pub enum ArgKind {
    /// A flag without a value: sets its setting by being present.
    Switch,
    /// An option with one value.
    Single,
    /// An option whose values are collected, one for each occurrence.
    Repeated,
}

/// `clap::Command::new`: a command of the given name, which declares no
/// argument yet.
#[verifier::external_body]
fn command_new(name: &'static str) -> (command: clap::Command)
    ensures
        command_arg_ids(command) == Seq::<Seq<char>>::empty(),
{
    clap::Command::new(name)
}

/// `clap::Command::arg`: the command with the argument added after those
/// that it had.
#[verifier::external_body]
fn command_arg(command: clap::Command, arg: clap::Arg) -> (extended: clap::Command)
    ensures
        command_arg_ids(extended) == command_arg_ids(command).push(arg_id(arg)),
{
    command.arg(arg)
}

/// `clap::Arg::new`: an argument with the given identifier.
#[verifier::external_body]
fn arg_new(id: &'static str) -> (arg: clap::Arg)
    ensures
        arg_id(arg) == id@,
{
    clap::Arg::new(id)
}

/// `clap::Arg::action`: sets what the argument does when it is found. The
/// identifier stays.
#[verifier::external_body]
fn arg_action(arg: clap::Arg, kind: ArgKind) -> (changed: clap::Arg)
    ensures
        arg_id(changed) == arg_id(arg),
{
    arg.action(
        match kind {
            ArgKind::Switch => clap::ArgAction::SetTrue,
            ArgKind::Single => clap::ArgAction::Set,
            ArgKind::Repeated => clap::ArgAction::Append,
        },
    )
}

/// `clap::Arg::long`: sets the long spelling. The identifier stays.
#[verifier::external_body]
fn arg_long(arg: clap::Arg, name: &'static str) -> (changed: clap::Arg)
    ensures
        arg_id(changed) == arg_id(arg),
{
    arg.long(name)
}

/// `clap::Arg::short`: sets the one-letter spelling. The identifier stays.
/// With a dash as the letter the call fails an assertion in a debug build.
#[verifier::external_body]
fn arg_short(arg: clap::Arg, letter: char) -> (changed: clap::Arg)
    requires
        letter != '-',
    ensures
        arg_id(changed) == arg_id(arg),
{
    arg.short(letter)
}

/// `clap::Arg::help`: sets the short documentation. The identifier stays.
#[verifier::external_body]
fn arg_help(arg: clap::Arg, text: &'static str) -> (changed: clap::Arg)
    ensures
        arg_id(changed) == arg_id(arg),
{
    arg.help(text)
}

/// `clap::Arg::long_help`: sets the long documentation. The identifier
/// stays.
#[verifier::external_body]
fn arg_long_help(arg: clap::Arg, text: &String) -> (changed: clap::Arg)
    ensures
        arg_id(changed) == arg_id(arg),
{
    arg.long_help(text.clone())
}

/// `clap::Arg::overrides_with_all`: adds to the arguments that this one
/// overrides. The identifier stays.
#[verifier::external_body]
fn arg_overrides_with_all(arg: clap::Arg, ids: &Vec<&'static str>) -> (changed: clap::Arg)
    ensures
        arg_id(changed) == arg_id(arg),
{
    arg.overrides_with_all(ids.clone())
}

/// `clap::Arg::value_name`: sets the placeholder for the value in the
/// documentation. The identifier stays.
#[verifier::external_body]
fn arg_value_name(arg: clap::Arg, name: &'static str) -> (changed: clap::Arg)
    ensures
        arg_id(changed) == arg_id(arg),
{
    arg.value_name(name)
}

/// `clap::Arg::value_parser` with a
/// `clap::builder::PossibleValuesParser`: the argument accepts the given
/// values only. The identifier stays.
#[verifier::external_body]
fn arg_possible_values(arg: clap::Arg, values: &Vec<&'static str>) -> (changed: clap::Arg)
    ensures
        arg_id(changed) == arg_id(arg),
{
    arg.value_parser(clap::builder::PossibleValuesParser::new(values.clone()))
}

/// `clap::Arg::hide_possible_values`: whether the documentation leaves
/// out the list of accepted values. The identifier stays.
#[verifier::external_body]
fn arg_hide_possible_values(arg: clap::Arg, yes: bool) -> (changed: clap::Arg)
    ensures
        arg_id(changed) == arg_id(arg),
{
    arg.hide_possible_values(yes)
}

/// `clap::Arg::default_value`: sets the value used where the argument is
/// not given. The identifier stays.
#[verifier::external_body]
fn arg_default_value(arg: clap::Arg, value: &'static str) -> (changed: clap::Arg)
    ensures
        arg_id(changed) == arg_id(arg),
{
    arg.default_value(value)
}

/// `clap::Arg::hide`: whether the documentation leaves the argument out.
/// The identifier stays.
#[verifier::external_body]
fn arg_hide(arg: clap::Arg, yes: bool) -> (changed: clap::Arg)
    ensures
        arg_id(changed) == arg_id(arg),
{
    let set_hidden = clap::Arg::hide;
    set_hidden(arg, yes)
}

/// What the argument of a flag does: a flag without a value sets its
/// setting, the keymap option collects its values, any other option
/// stores its one value.
pub open spec fn arg_kind_of(flag: Flag) -> ArgKind {
    if !takes_value(flag) {
        ArgKind::Switch
    } else if value_kind_of(category_of(flag)) == ValueKind::RepeatableText {
        ArgKind::Repeated
    } else {
        ArgKind::Single
    }
}

/// The values that the flag accepts, where they form a closed list; empty
/// for a flag that takes no value or any text.
pub open spec fn accepted_values_of(flag: Flag) -> Seq<Seq<char>> {
    match flag {
        Flag::Files => seq!["ignore"@, "i"@, "hide"@, "h"@, "match"@, "m"@],
        Flag::Sort => seq!["name"@, "created"@, "modified"@],
        Flag::Mouse => seq!["on"@, "off"@],
        _ => Seq::<Seq<char>>::empty(),
    }
}

/// The value that the command line declares for a flag that is not given;
/// `None` for a flag without such a value.
pub open spec fn declared_default_of(flag: Flag) -> Option<Seq<char>> {
    match flag {
        Flag::Files => Some("ignore"@),
        Flag::Sort => Some("name"@),
        Flag::AutocdTimeout => Some("200"@),
        Flag::Mouse => Some("off"@),
        _ => None,
    }
}

/// The one-line documentation of a flag; none for a deprecated flag.
pub open spec fn help_of(flag: Flag) -> Option<Seq<char>> {
    match flag {
        Flag::FilterSearch => Some(texts::HELP_FILTER_SEARCH@),
        Flag::NoFilterSearch => Some(texts::HELP_NO_FILTER_SEARCH@),
        Flag::Files => Some(texts::HELP_FILES@),
        Flag::CaseSensitive => Some(texts::HELP_CASE_SENSITIVE@),
        Flag::IgnoreCase => Some(texts::HELP_IGNORE_CASE@),
        Flag::SmartCase => Some(texts::HELP_SMART_CASE@),
        Flag::GapSearch => Some(texts::HELP_GAP_SEARCH@),
        Flag::GapSearchAnywhere => Some(texts::HELP_GAP_SEARCH_ANYWHERE@),
        Flag::NormalSearch => Some(texts::HELP_NORMAL_SEARCH@),
        Flag::NormalSearchAnywhere => Some(texts::HELP_NORMAL_SEARCH_ANYWHERE@),
        Flag::Mapping => Some(texts::HELP_MAP@),
        Flag::ClearDefaultKeymap => Some(texts::HELP_CLEAR_DEFAULT_KEYMAP@),
        Flag::Sort => Some(texts::HELP_SORT@),
        Flag::AutocdTimeout => Some(texts::HELP_AUTOCD_TIMEOUT@),
        Flag::HistoryFile => Some(texts::HELP_HISTORY_FILE@),
        Flag::Mouse => Some(texts::HELP_MOUSE@),
        Flag::SkipFirstRunPrompt => Some(texts::HELP_SKIP_FIRST_RUN_PROMPT@),
        _ => None,
    }
}

/// What stands for the flag's value in the documentation; none for a flag
/// without a value.
pub open spec fn value_name_of(flag: Flag) -> Option<Seq<char>> {
    match flag {
        Flag::Files => Some(texts::VALUE_NAME_FILES@),
        Flag::Mapping => Some(texts::VALUE_NAME_MAP@),
        Flag::Sort => Some(texts::VALUE_NAME_SORT@),
        Flag::AutocdTimeout => Some(texts::VALUE_NAME_AUTOCD_TIMEOUT@),
        Flag::HistoryFile => Some(texts::VALUE_NAME_HISTORY_FILE@),
        Flag::Mouse => Some(texts::VALUE_NAME_MOUSE@),
        _ => None,
    }
}

/// The long documentation of a case sensitivity flag: what it does, then
/// the two flags that it overrides.
pub open spec fn case_help_of(text: Seq<char>, first: Flag, second: Flag) -> Seq<char> {
    text + texts::OVERRIDES_OPENING@ + long_name_of(first) + texts::OVERRIDES_LAST@ + long_name_of(second)
        + texts::CASE_CLOSING@
}

/// The long documentation of a search mode flag: what it does, then the
/// three flags that it overrides.
pub open spec fn search_help_of(text: Seq<char>, first: Flag, second: Flag, third: Flag) -> Seq<
    char,
> {
    text + texts::OVERRIDES_OPENING@ + long_name_of(first) + texts::OVERRIDES_NEXT@ + long_name_of(second)
        + texts::OVERRIDES_LAST@ + long_name_of(third) + texts::SEARCH_CLOSING@
}

/// The long documentation of a flag; none for a deprecated flag. That of
/// the keymap option is the given text.
pub open spec fn long_help_of(flag: Flag, keymap_help: Seq<char>) -> Option<Seq<char>> {
    match flag {
        Flag::FilterSearch => Some(texts::LONG_HELP_FILTER_SEARCH@),
        Flag::NoFilterSearch => Some(texts::LONG_HELP_NO_FILTER_SEARCH@),
        Flag::Files => Some(texts::LONG_HELP_FILES@),
        Flag::CaseSensitive => Some(case_help_of(texts::LONG_HELP_CASE_SENSITIVE@, Flag::IgnoreCase, Flag::SmartCase)),
        Flag::IgnoreCase => Some(case_help_of(texts::LONG_HELP_IGNORE_CASE@, Flag::CaseSensitive, Flag::SmartCase)),
        Flag::SmartCase => Some(case_help_of(texts::LONG_HELP_SMART_CASE@, Flag::CaseSensitive, Flag::IgnoreCase)),
        Flag::GapSearch => Some(search_help_of(texts::LONG_HELP_GAP_SEARCH@, Flag::GapSearchAnywhere, Flag::NormalSearch, Flag::NormalSearchAnywhere)),
        Flag::GapSearchAnywhere => Some(search_help_of(texts::LONG_HELP_GAP_SEARCH_ANYWHERE@, Flag::GapSearch, Flag::NormalSearch, Flag::NormalSearchAnywhere)),
        Flag::NormalSearch => Some(search_help_of(texts::LONG_HELP_NORMAL_SEARCH@, Flag::GapSearch, Flag::GapSearchAnywhere, Flag::NormalSearchAnywhere)),
        Flag::NormalSearchAnywhere => Some(search_help_of(texts::LONG_HELP_NORMAL_SEARCH_ANYWHERE@, Flag::GapSearch, Flag::GapSearchAnywhere, Flag::NormalSearch)),
        Flag::Mapping => Some(keymap_help),
        Flag::ClearDefaultKeymap => Some(texts::LONG_HELP_CLEAR_DEFAULT_KEYMAP@),
        Flag::Sort => Some(texts::LONG_HELP_SORT@),
        Flag::AutocdTimeout => Some(texts::LONG_HELP_AUTOCD_TIMEOUT@),
        Flag::HistoryFile => Some(texts::LONG_HELP_HISTORY_FILE@),
        Flag::Mouse => Some(texts::LONG_HELP_MOUSE@),
        Flag::SkipFirstRunPrompt => Some(texts::LONG_HELP_SKIP_FIRST_RUN_PROMPT@),
        _ => None,
    }
}

/// The long documentation of the keymap option with the built-in
/// vocabulary.
pub open spec fn standard_keymap_help() -> Seq<char> {
    keymap_help_text(
        listing(pair_names(standard_actions()), pair_descriptions(standard_actions())),
        listing(pair_names(standard_contexts()), pair_descriptions(standard_contexts())),
    )
}

/// A flag with a closed list of values accepts the values of its list and
/// no other.
pub proof fn lemma_accepted_values(flag: Flag, raw: Seq<char>)
    requires
        accepted_values_of(flag).len() > 0,
    ensures
        flag_value(flag, raw) is Some <==> accepted_values_of(flag).contains(raw),
{
    let accepted = accepted_values_of(flag);
    match flag {
        Flag::Files => {
            assert(accepted[0] == "ignore"@ && accepted[1] == "i"@ && accepted[2] == "hide"@
                && accepted[3] == "h"@ && accepted[4] == "match"@ && accepted[5] == "m"@);
        },
        Flag::Sort => {
            assert(accepted[0] == "name"@ && accepted[1] == "created"@ && accepted[2]
                == "modified"@);
        },
        Flag::Mouse => {
            assert(accepted[0] == "on"@ && accepted[1] == "off"@);
        },
        _ => {},
    }
}

/// The value that the command line declares for a flag that is not given
/// is the default of the flag's category.
pub proof fn lemma_declared_defaults(flag: Flag)
    requires
        declared_default_of(flag) is Some,
    ensures
        flag_value(flag, declared_default_of(flag)->0) == value_in(
            default_settings(),
            category_of(flag),
        ),
{
    reveal_strlit("ignore");
    reveal_strlit("name");
    reveal_strlit("created");
    reveal_strlit("modified");
    reveal_strlit("on");
    reveal_strlit("off");
    reveal_strlit("200");
    assert("on"@.len() == 2 && "off"@.len() == 3 && "200"@.len() == 3);
    assert("name"@.len() == 4 && "created"@.len() == 7 && "modified"@.len() == 8);
    let text = "200"@;
    assert(text[0] == '2' && text[1] == '0' && text[2] == '0');
    assert(text.drop_last().drop_last().drop_last() =~= Seq::<char>::empty());
    assert(text.drop_last().drop_last().len() == 1);
    assert(text.drop_last().len() == 2);
    assert(decimal_value(text.drop_last().drop_last()) == 2) by {
        assert(text.drop_last().drop_last().last() == '2');
        assert(decimal_value(text.drop_last().drop_last().drop_last()) == 0);
    }
    assert(decimal_value(text.drop_last()) == 20) by {
        assert(text.drop_last().last() == '0');
    }
    assert(decimal_value(text) == 200) by {
        assert(text.last() == '0');
    }
}

/// The long spellings of the given flags, in order.
pub open spec fn long_names_of(flags: Seq<Flag>) -> Seq<Seq<char>> {
    Seq::new(flags.len(), |i: int| long_name_of(flags[i]))
}

/// The character sequences of the given texts, in order.
pub open spec fn text_views(texts: Seq<&'static str>) -> Seq<Seq<char>> {
    Seq::new(texts.len(), |i: int| texts[i]@)
}

/// The character sequence of an optional text.
pub open spec fn optional_text_view(text: Option<&'static str>) -> Option<Seq<char>> {
    match text {
        Some(t) => Some(t@),
        None => None,
    }
}

/// The long documentation of a case sensitivity flag.
fn case_help(text: &str, first: Flag, second: Flag) -> (help: String)
    ensures
        help@ == case_help_of(text@, first, second),
{
    let mut help = text.to_owned();
    help.append(texts::OVERRIDES_OPENING);
    help.append(first.long_name());
    help.append(texts::OVERRIDES_LAST);
    help.append(second.long_name());
    help.append(texts::CASE_CLOSING);
    help
}

/// The long documentation of a search mode flag.
fn search_help(text: &str, first: Flag, second: Flag, third: Flag) -> (help: String)
    ensures
        help@ == search_help_of(text@, first, second, third),
{
    let mut help = text.to_owned();
    help.append(texts::OVERRIDES_OPENING);
    help.append(first.long_name());
    help.append(texts::OVERRIDES_NEXT);
    help.append(second.long_name());
    help.append(texts::OVERRIDES_LAST);
    help.append(third.long_name());
    help.append(texts::SEARCH_CLOSING);
    help
}

impl Flag {
    /// What the argument of the flag does.
    pub fn arg_kind(self) -> (kind: ArgKind)
        ensures
            kind == arg_kind_of(self),
    {
        if !self.expects_value() {
            ArgKind::Switch
        } else if self.category().value_kind() == ValueKind::RepeatableText {
            ArgKind::Repeated
        } else {
            ArgKind::Single
        }
    }

    /// The values that the flag accepts, where they form a closed list.
    pub fn accepted_values(self) -> (values: Vec<&'static str>)
        ensures
            text_views(values@) == accepted_values_of(self),
    {
        let values: Vec<&'static str> = match self {
            Flag::Files => vec!["ignore", "i", "hide", "h", "match", "m"],
            Flag::Sort => vec!["name", "created", "modified"],
            Flag::Mouse => vec!["on", "off"],
            _ => Vec::new(),
        };
        assert(text_views(values@) =~= accepted_values_of(self));
        values
    }

    /// The value that the command line declares for the flag where it is
    /// not given.
    pub fn declared_default(self) -> (value: Option<&'static str>)
        ensures
            optional_text_view(value) == declared_default_of(self),
    {
        match self {
            Flag::Files => Some("ignore"),
            Flag::Sort => Some("name"),
            Flag::AutocdTimeout => Some("200"),
            Flag::Mouse => Some("off"),
            _ => None,
        }
    }

    /// The one-line documentation of the flag; none for a deprecated
    /// flag.
    pub fn help(self) -> (text: Option<&'static str>)
        ensures
            optional_text_view(text) == help_of(self),
    {
        match self {
            Flag::FilterSearch => Some(texts::HELP_FILTER_SEARCH),
            Flag::NoFilterSearch => Some(texts::HELP_NO_FILTER_SEARCH),
            Flag::Files => Some(texts::HELP_FILES),
            Flag::CaseSensitive => Some(texts::HELP_CASE_SENSITIVE),
            Flag::IgnoreCase => Some(texts::HELP_IGNORE_CASE),
            Flag::SmartCase => Some(texts::HELP_SMART_CASE),
            Flag::GapSearch => Some(texts::HELP_GAP_SEARCH),
            Flag::GapSearchAnywhere => Some(texts::HELP_GAP_SEARCH_ANYWHERE),
            Flag::NormalSearch => Some(texts::HELP_NORMAL_SEARCH),
            Flag::NormalSearchAnywhere => Some(texts::HELP_NORMAL_SEARCH_ANYWHERE),
            Flag::Mapping => Some(texts::HELP_MAP),
            Flag::ClearDefaultKeymap => Some(texts::HELP_CLEAR_DEFAULT_KEYMAP),
            Flag::Sort => Some(texts::HELP_SORT),
            Flag::AutocdTimeout => Some(texts::HELP_AUTOCD_TIMEOUT),
            Flag::HistoryFile => Some(texts::HELP_HISTORY_FILE),
            Flag::Mouse => Some(texts::HELP_MOUSE),
            Flag::SkipFirstRunPrompt => Some(texts::HELP_SKIP_FIRST_RUN_PROMPT),
            _ => None,
        }
    }

    /// What stands for the flag's value in the documentation.
    pub fn value_name(self) -> (text: Option<&'static str>)
        ensures
            optional_text_view(text) == value_name_of(self),
    {
        match self {
            Flag::Files => Some(texts::VALUE_NAME_FILES),
            Flag::Mapping => Some(texts::VALUE_NAME_MAP),
            Flag::Sort => Some(texts::VALUE_NAME_SORT),
            Flag::AutocdTimeout => Some(texts::VALUE_NAME_AUTOCD_TIMEOUT),
            Flag::HistoryFile => Some(texts::VALUE_NAME_HISTORY_FILE),
            Flag::Mouse => Some(texts::VALUE_NAME_MOUSE),
            _ => None,
        }
    }

    /// The long documentation of the flag; none for a deprecated flag.
    /// That of the keymap option is the documentation of the vocabulary.
    pub fn long_help(self, vocabulary: &Vocabulary) -> (text: Option<String>)
        ensures
            crate::keymap::optional_view(text) == long_help_of(
                self,
                keymap_help_text(
                    listing(
                        vocabulary.action_names(),
                        crate::vocabulary::entry_descriptions(vocabulary.actions@),
                    ),
                    listing(
                        vocabulary.context_names(),
                        crate::vocabulary::entry_descriptions(vocabulary.contexts@),
                    ),
                ),
            ),
    {
        match self {
            Flag::FilterSearch => Some(texts::LONG_HELP_FILTER_SEARCH.to_owned()),
            Flag::NoFilterSearch => Some(texts::LONG_HELP_NO_FILTER_SEARCH.to_owned()),
            Flag::Files => Some(texts::LONG_HELP_FILES.to_owned()),
            Flag::CaseSensitive => Some(case_help(texts::LONG_HELP_CASE_SENSITIVE, Flag::IgnoreCase, Flag::SmartCase)),
            Flag::IgnoreCase => Some(case_help(texts::LONG_HELP_IGNORE_CASE, Flag::CaseSensitive, Flag::SmartCase)),
            Flag::SmartCase => Some(case_help(texts::LONG_HELP_SMART_CASE, Flag::CaseSensitive, Flag::IgnoreCase)),
            Flag::GapSearch => Some(search_help(texts::LONG_HELP_GAP_SEARCH, Flag::GapSearchAnywhere, Flag::NormalSearch, Flag::NormalSearchAnywhere)),
            Flag::GapSearchAnywhere => Some(search_help(texts::LONG_HELP_GAP_SEARCH_ANYWHERE, Flag::GapSearch, Flag::NormalSearch, Flag::NormalSearchAnywhere)),
            Flag::NormalSearch => Some(search_help(texts::LONG_HELP_NORMAL_SEARCH, Flag::GapSearch, Flag::GapSearchAnywhere, Flag::NormalSearchAnywhere)),
            Flag::NormalSearchAnywhere => Some(search_help(texts::LONG_HELP_NORMAL_SEARCH_ANYWHERE, Flag::GapSearch, Flag::GapSearchAnywhere, Flag::NormalSearch)),
            Flag::Mapping => Some(keymap_help(vocabulary)),
            Flag::ClearDefaultKeymap => Some(texts::LONG_HELP_CLEAR_DEFAULT_KEYMAP.to_owned()),
            Flag::Sort => Some(texts::LONG_HELP_SORT.to_owned()),
            Flag::AutocdTimeout => Some(texts::LONG_HELP_AUTOCD_TIMEOUT.to_owned()),
            Flag::HistoryFile => Some(texts::LONG_HELP_HISTORY_FILE.to_owned()),
            Flag::Mouse => Some(texts::LONG_HELP_MOUSE.to_owned()),
            Flag::SkipFirstRunPrompt => Some(texts::LONG_HELP_SKIP_FIRST_RUN_PROMPT.to_owned()),
            _ => None,
        }
    }
}

/// What the command line says of one flag: all that is handed to clap for
/// it.
#[derive(Clone, Debug, PartialEq, Eq)]
pub struct Argument {
    /// The identifier under which the flag's value is found after parsing.
    pub id: &'static str,
    pub kind: ArgKind,
    /// The long spelling, without the leading dashes.
    pub long: &'static str,
    /// The one-letter spelling.
    pub short: Option<char>,
    pub help: Option<&'static str>,
    pub long_help: Option<String>,
    /// The identifiers of the arguments that this one overrides: of two of
    /// them on a command line, the later one stands.
    pub overrides: Vec<&'static str>,
    pub value_name: Option<&'static str>,
    /// The values that are accepted, where not every text is.
    pub accepted_values: Vec<&'static str>,
    /// The value used where the flag is not given.
    pub default_value: Option<&'static str>,
    /// Whether the documentation leaves the flag out.
    pub hidden: bool,
}

/// What an [`Argument`] holds.
pub struct ArgumentView {
    pub id: Seq<char>,
    pub kind: ArgKind,
    pub long: Seq<char>,
    pub short: Option<char>,
    pub help: Option<Seq<char>>,
    pub long_help: Option<Seq<char>>,
    pub overrides: Seq<Seq<char>>,
    pub value_name: Option<Seq<char>>,
    pub accepted_values: Seq<Seq<char>>,
    pub default_value: Option<Seq<char>>,
    pub hidden: bool,
}

impl View for Argument {
    type V = ArgumentView;

    open spec fn view(&self) -> ArgumentView {
        ArgumentView {
            id: self.id@,
            kind: self.kind,
            long: self.long@,
            short: self.short,
            help: optional_text_view(self.help),
            long_help: crate::keymap::optional_view(self.long_help),
            overrides: text_views(self.overrides@),
            value_name: optional_text_view(self.value_name),
            accepted_values: text_views(self.accepted_values@),
            default_value: optional_text_view(self.default_value),
            hidden: self.hidden,
        }
    }
}

/// The views of the given arguments, in order.
pub open spec fn argument_views(arguments: Seq<Argument>) -> Seq<ArgumentView> {
    Seq::new(arguments.len(), |i: int| arguments[i]@)
}

/// The argument of a flag: it is known by the flag's long spelling, has
/// the flag's spellings, documentation, accepted values and default,
/// overrides the flags of the given group, and is hidden where the flag is
/// deprecated.
pub open spec fn argument_of(flag: Flag, group: Seq<Flag>, keymap_help: Seq<char>) -> ArgumentView {
    ArgumentView {
        id: long_name_of(flag),
        kind: arg_kind_of(flag),
        long: long_name_of(flag),
        short: short_of(flag),
        help: help_of(flag),
        long_help: long_help_of(flag, keymap_help),
        overrides: long_names_of(group),
        value_name: value_name_of(flag),
        accepted_values: accepted_values_of(flag),
        default_value: declared_default_of(flag),
        hidden: is_deprecated(flag),
    }
}

/// The arguments of the given flags, each overriding the override group
/// of its own category.
pub open spec fn arguments_for(flags: Seq<Flag>, keymap_help: Seq<char>) -> Seq<ArgumentView> {
    Seq::new(
        flags.len(),
        |i: int| argument_of(flags[i], overrides_of(category_of(flags[i])), keymap_help),
    )
}

/// The long spellings of the given flags, in order.
fn long_names(flags: &Vec<Flag>) -> (names: Vec<&'static str>)
    ensures
        text_views(names@) == long_names_of(flags@),
{
    let mut names: Vec<&'static str> = Vec::new();
    let mut i: usize = 0;
    while i < flags.len()
        invariant
            i <= flags.len(),
            names.len() == i,
            forall|k: int| 0 <= k < i ==> names[k]@ == long_name_of(flags[k]),
        decreases flags.len() - i,
    {
        names.push(flags[i].long_name());
        i = i + 1;
    }
    assert(text_views(names@) =~= long_names_of(flags@));
    names
}

/// The argument of a flag that overrides the flags of the given group.
pub fn argument(flag: Flag, group: &Vec<Flag>, vocabulary: &Vocabulary) -> (made: Argument)
    ensures
        made@ == argument_of(
            flag,
            group@,
            keymap_help_text(
                listing(
                    vocabulary.action_names(),
                    crate::vocabulary::entry_descriptions(vocabulary.actions@),
                ),
                listing(
                    vocabulary.context_names(),
                    crate::vocabulary::entry_descriptions(vocabulary.contexts@),
                ),
            ),
        ),
{
    Argument {
        id: flag.long_name(),
        kind: flag.arg_kind(),
        long: flag.long_name(),
        short: flag.short(),
        help: flag.help(),
        long_help: flag.long_help(vocabulary),
        overrides: long_names(group),
        value_name: flag.value_name(),
        accepted_values: flag.accepted_values(),
        default_value: flag.declared_default(),
        hidden: flag.deprecated(),
    }
}

/// The arguments of the command line of the program, made from the
/// schema: one for each flag, in the order in which the flags are
/// declared. Each overrides the override group of its category, and the
/// documentation of the keymap option lists the built-in vocabulary.
pub fn cli_arguments() -> (arguments: Vec<Argument>)
    ensures
        argument_views(arguments@) == arguments_for(all_flags(), standard_keymap_help()),
{
    let vocabulary = Vocabulary::standard();
    let schema = FlagSchema::standard();
    let definitions = schema.definitions();
    let ghost views = definition_views(definitions@);
    let ghost help = standard_keymap_help();
    proof {
        assert(vocabulary.action_names() =~= pair_names(standard_actions()));
        assert(crate::vocabulary::entry_descriptions(vocabulary.actions@) =~= pair_descriptions(
            standard_actions(),
        ));
        assert(vocabulary.context_names() =~= pair_names(standard_contexts()));
        assert(crate::vocabulary::entry_descriptions(vocabulary.contexts@) =~= pair_descriptions(
            standard_contexts(),
        ));
    }
    let mut arguments: Vec<Argument> = Vec::new();
    let mut i: usize = 0;
    assert(standard_prefix(0) =~= views.take(0));
    assert(argument_views(arguments@) =~= arguments_for(registered(views.take(0)), help));
    while i < definitions.len()
        invariant
            i <= definitions.len(),
            views == definition_views(definitions@),
            views == standard_definitions(),
            help == standard_keymap_help(),
            help == keymap_help_text(
                listing(
                    vocabulary.action_names(),
                    crate::vocabulary::entry_descriptions(vocabulary.actions@),
                ),
                listing(
                    vocabulary.context_names(),
                    crate::vocabulary::entry_descriptions(vocabulary.contexts@),
                ),
            ),
            argument_views(arguments@) == arguments_for(registered(views.take(i as int)), help),
        decreases definitions.len() - i,
    {
        let definition = &definitions[i];
        let names = &definition.surface_names;
        let ghost before = registered(views.take(i as int));
        let ghost category = all_categories()[i as int];
        let mut k: usize = 0;
        proof {
            assert(before + names@.take(0) =~= before);
            assert(views.len() == all_categories().len());
            assert(views[i as int] == definition@);
            assert(standard_definitions()[i as int] == crate::definitions::definition_of(category));
            assert(names@ == surfaces_of(category));
            assert(definition.override_group@ == overrides_of(category));
        }
        while k < names.len()
            invariant
                k <= names.len(),
                names@ == surfaces_of(category),
                definition.override_group@ == overrides_of(category),
                help == keymap_help_text(
                    listing(
                        vocabulary.action_names(),
                        crate::vocabulary::entry_descriptions(vocabulary.actions@),
                    ),
                    listing(
                        vocabulary.context_names(),
                        crate::vocabulary::entry_descriptions(vocabulary.contexts@),
                    ),
                ),
                argument_views(arguments@) == arguments_for(before + names@.take(k as int), help),
            decreases names.len() - k,
        {
            let ghost listed = argument_views(arguments@);
            let made = argument(names[k], &definition.override_group, &vocabulary);
            arguments.push(made);
            proof {
                lemma_one_category_per_flag(names[k as int], category);
                assert(surfaces_of(category)[k as int] == names[k as int]);
                assert(category_of(names[k as int]) == category);
                assert(argument_views(arguments@) =~= listed.push(made@));
                assert(before + names@.take(k as int + 1) =~= (before + names@.take(
                    k as int,
                )).push(names[k as int]));
                assert(arguments_for(before + names@.take(k as int + 1), help) =~= arguments_for(
                    before + names@.take(k as int),
                    help,
                ).push(made@));
            }
            k = k + 1;
        }
        proof {
            assert(names@.take(k as int) =~= names@);
            assert(views.take(i as int + 1).drop_last() =~= views.take(i as int));
            assert(views.take(i as int + 1).last().surface_names == names@);
        }
        i = i + 1;
    }
    proof {
        assert(views.take(i as int) =~= views);
        lemma_standard_registers_all_flags();
    }
    arguments
}

/// Hands one argument to clap.
fn to_arg(argument: &Argument) -> (arg: clap::Arg)
    requires
        argument.short != Some('-'),
    ensures
        arg_id(arg) == argument.id@,
{
    let mut arg = arg_new(argument.id);
    arg = arg_action(arg, argument.kind);
    arg = arg_long(arg, argument.long);
    match argument.short {
        Some(letter) => {
            arg = arg_short(arg, letter);
        },
        None => {},
    }
    match argument.help {
        Some(text) => {
            arg = arg_help(arg, text);
        },
        None => {},
    }
    match &argument.long_help {
        Some(text) => {
            arg = arg_long_help(arg, text);
        },
        None => {},
    }
    if argument.overrides.len() > 0 {
        arg = arg_overrides_with_all(arg, &argument.overrides);
    }
    match argument.value_name {
        Some(name) => {
            arg = arg_value_name(arg, name);
        },
        None => {},
    }
    if argument.accepted_values.len() > 0 {
        arg = arg_possible_values(arg, &argument.accepted_values);
        arg = arg_hide_possible_values(arg, true);
    }
    match argument.default_value {
        Some(value) => {
            arg = arg_default_value(arg, value);
        },
        None => {},
    }
    if argument.hidden {
        arg = arg_hide(arg, true);
    }
    arg
}

/// The command line of the program as clap takes it: the program's name
/// and one argument for each flag, in the order in which the flags are
/// declared, each known by its long spelling and made of what
/// [`cli_arguments`] says of it.
pub fn get_cli_args() -> (command: clap::Command)
    ensures
        command_arg_ids(command) == long_names_of(all_flags()),
{
    let arguments = cli_arguments();
    let ghost expected = arguments_for(all_flags(), standard_keymap_help());
    let mut command = command_new(texts::PROGRAM_NAME);
    let mut i: usize = 0;
    assert(long_names_of(all_flags().take(0)) =~= Seq::<Seq<char>>::empty());
    while i < arguments.len()
        invariant
            i <= arguments.len(),
            argument_views(arguments@) == expected,
            expected == arguments_for(all_flags(), standard_keymap_help()),
            command_arg_ids(command) == long_names_of(all_flags().take(i as int)),
        decreases arguments.len() - i,
    {
        proof {
            assert(argument_views(arguments@).len() == all_flags().len());
            assert(argument_views(arguments@)[i as int] == arguments[i as int]@);
            assert(arguments[i as int]@ == expected[i as int]);
            assert(arguments[i as int].id@ == long_name_of(all_flags()[i as int]));
            assert(arguments[i as int].short == short_of(all_flags()[i as int]));
        }
        let arg = to_arg(&arguments[i]);
        command = command_arg(command, arg);
        assert(long_names_of(all_flags().take(i as int + 1)) =~= long_names_of(
            all_flags().take(i as int),
        ).push(long_name_of(all_flags()[i as int])));
        i = i + 1;
    }
    proof {
        assert(argument_views(arguments@).len() == all_flags().len());
        assert(all_flags().take(i as int) =~= all_flags());
    }
    command
}

} // verus!
