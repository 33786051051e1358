use crate::bindings::{
    build, build_table, directive_key, empty_table, lemma_last_directive_wins, BindingTable,
    TableView,
};
use crate::keymap::{
    lemma_directives_follow_mappings, parse, parse_entries, parse_token, tokens_of,
    BoundActionView, DirectiveView, KeymapError, KeymapErrorView,
};
use crate::settings::{ResolvedSettings, SettingsView};
use crate::vocabulary::Vocabulary;
use vstd::prelude::*;
use vstd::string::*;

verus! {

/// Why the key bindings of a session could not be made.
#[derive(Clone, Debug, PartialEq, Eq)]
pub enum SessionError {
    /// An entry of the keymap option was refused.
    Keymap(KeymapError),
    /// The default keymap was cleared and no key is bound to the exit
    /// action, so the user could not leave the program.
    MissingExitBinding,
}

/// The name of the action that ends the program.
pub open spec fn exit_action() -> Seq<char> {
    "Exit"@
}

/// Whether some exact key of the table is bound to the action.
pub open spec fn binds(table: TableView, action: Seq<char>) -> bool {
    exists|key: (Seq<char>, Option<Seq<char>>)|
        table.bound.dom().contains(key) && table.bound[key] == action
}

/// The table that the directives are applied to: the defaults, or the
/// empty table where the settings clear the default keymap.
pub open spec fn starting_table(settings: SettingsView, defaults: TableView) -> TableView {
    if settings.clear_default_keymap {
        empty_table()
    } else {
        defaults
    }
}

/// Of all the mappings that the entries hold for one exact key, whichever
/// entry they stand in, the one written last decides that key: the table
/// reflects that mapping alone, whatever the defaults and the earlier
/// mappings say.
pub proof fn lemma_last_mapping_wins(
    defaults: TableView,
    entries: Seq<Seq<char>>,
    actions: Seq<Seq<char>>,
    contexts: Seq<Seq<char>>,
    last: int,
)
    requires
        parse_entries(entries, actions, contexts) is Ok,
        0 <= last < tokens_of(entries).len(),
        forall|j: int|
            last < j < tokens_of(entries).len() ==> directive_key(
                #[trigger] parse_entries(entries, actions, contexts)->Ok_0[j],
            ) != directive_key(parse_entries(entries, actions, contexts)->Ok_0[last]),
    ensures
        ({
            let decisive = parse_token(tokens_of(entries)[last], actions, contexts);
            let table = build_table(defaults, parse_entries(entries, actions, contexts)->Ok_0);
            &&& decisive matches Ok(d) && match d.action {
                BoundActionView::Remove => !table.bound.dom().contains(directive_key(d))
                    && table.cleared.contains(directive_key(d)),
                BoundActionView::Run(action) => table.bound.dom().contains(directive_key(d))
                    && table.bound[directive_key(d)] == action && !table.cleared.contains(
                    directive_key(d),
                ),
            }
        }),
{
    let tokens = tokens_of(entries);
    let directives = parse_entries(entries, actions, contexts)->Ok_0;
    lemma_directives_follow_mappings(tokens, actions, contexts);
    assert(parse_token(tokens[last], actions, contexts) == Ok::<DirectiveView, KeymapErrorView>(
        directives[last],
    ));
    lemma_last_directive_wins(defaults, directives, last);
}

/// Makes the key bindings of a session from the resolved settings: the
/// keymap entries are parsed against the vocabulary and applied, in the
/// order written, to the defaults, or to the empty table where the
/// settings clear the default keymap. An entry that is refused ends the
/// work with its error. Where the default keymap is cleared and the table
/// binds no key to the exit action, the table is refused.
pub fn session_bindings(
    settings: &ResolvedSettings,
    defaults: BindingTable,
    vocabulary: &Vocabulary,
) -> (made: Result<BindingTable, SessionError>)
    ensures
        match parse_entries(
            settings@.mappings,
            vocabulary.action_names(),
            vocabulary.context_names(),
        ) {
            Err(e) => made matches Err(SessionError::Keymap(error)) && error@ == e,
            Ok(directives) => {
                let table = build_table(starting_table(settings@, defaults@), directives);
                if settings.clear_default_keymap && !binds(table, exit_action()) {
                    made == Err::<BindingTable, SessionError>(SessionError::MissingExitBinding)
                } else {
                    made matches Ok(t) && t@ == table
                }
            },
        },
{
    let directives = match parse(&settings.mappings, vocabulary) {
        Err(e) => {
            return Err(SessionError::Keymap(e));
        },
        Ok(directives) => directives,
    };
    let start = if settings.clear_default_keymap {
        BindingTable::empty()
    } else {
        defaults
    };
    let table = build(start, &directives);
    if settings.clear_default_keymap && !table.binds_action("Exit") {
        Err(SessionError::MissingExitBinding)
    } else {
        Ok(table)
    }
}

} // verus!
