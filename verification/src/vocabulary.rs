use crate::help::justify_and_indent;
use crate::text::{first_repeated_at, views};
use vstd::prelude::*;
use vstd::string::*;

verus! {

/// One word of the keymap language with the text that documents it.
#[derive(Clone, Debug, PartialEq, Eq)]
pub struct VocabularyEntry {
    pub name: String,
    pub description: String,
}

/// The names of the given entries, in order.
pub open spec fn entry_names(entries: Seq<VocabularyEntry>) -> Seq<Seq<char>> {
    Seq::new(entries.len(), |i: int| entries[i].name@)
}

/// The descriptions of the given entries, in order.
pub open spec fn entry_descriptions(entries: Seq<VocabularyEntry>) -> Seq<Seq<char>> {
    Seq::new(entries.len(), |i: int| entries[i].description@)
}

/// The given entries as pairs of name and description, in order.
pub open spec fn entry_pairs(entries: Seq<VocabularyEntry>) -> Seq<(Seq<char>, Seq<char>)> {
    Seq::new(entries.len(), |i: int| (entries[i].name@, entries[i].description@))
}

/// The action name that removes a binding instead of setting one.
pub open spec fn removal_sentinel() -> Seq<char> {
    "None"@
}

/// The actions of the built-in vocabulary, in the order in which they are documented.
pub open spec fn standard_actions() -> Seq<(Seq<char>, Seq<char>)> {
    seq![
        ("ChangeDir"@, "Enter the folder under the cursor"@),
        ("ChangeDirParent"@, "Go to the parent folder"@),
        ("ChangeDirHome"@, "Go to the home folder"@),
        ("ChangeDirRoot"@, "Go to the root folder"@),
        ("ChangeDirAndExit"@, "Enter the folder under the cursor and exit"@),
        ("CursorUp"@, "Move the cursor up by one step"@),
        ("CursorDown"@, "Move the cursor down by one step"@),
        ("CursorUpScreen"@, "Move the cursor up by one screen"@),
        ("CursorDownScreen"@, "Move the cursor down by one screen"@),
        ("CursorTop"@, "Move the cursor to the first item in the listing"@),
        ("CursorBottom"@, "Move the cursor to the last item in the listing"@),
        ("EraseSearchChar"@, "Erase the last character of the search"@),
        ("ClearSearch"@, "Clear the search"@),
        ("ChangeFilterSearchMode"@, "Toggle filtering of the listing while searching"@),
        ("ChangeCaseSensitiveMode"@, "Change the case sensitivity mode"@),
        ("ChangeGapSearchMode"@, "Change the search mode"@),
        ("ChangeSortMode"@, "Change the sorting mode"@),
        ("RefreshListing"@, "Refresh the current folder listing"@),
        ("Help"@, "Show the help screen"@),
        ("Exit"@, "Exit the program"@),
        ("ExitWithoutCd"@, "Exit the program without changing the working folder"@),
        ("None"@, "Remove this mapping"@),
    ]
}

/// The contexts of the built-in vocabulary, in the order in which they are documented.
pub open spec fn standard_contexts() -> Seq<(Seq<char>, Seq<char>)> {
    seq![
        ("Searching"@, "The mapping applies only while a search query is entered"@),
        ("NotSearching"@, "The mapping applies only while the search query is empty"@),
    ]
}

/// Why a vocabulary was not accepted.
#[derive(Clone, Debug, PartialEq, Eq)]
pub enum VocabularyError {
    /// The action name occurs more than once among the actions.
    DuplicateAction(String),
    /// The context name occurs more than once among the contexts.
    DuplicateContext(String),
}

/// The ordered lists of the actions that a key can be bound to and of the
/// contexts that a binding can be restricted to. The two lists are separate
/// name spaces.
#[derive(Clone, Debug, PartialEq, Eq)]
pub struct Vocabulary {
    pub actions: Vec<VocabularyEntry>,
    pub contexts: Vec<VocabularyEntry>,
}

fn entry(name: &str, description: &str) -> (e: VocabularyEntry)
    ensures
        e.name@ == name@,
        e.description@ == description@,
{
    VocabularyEntry { name: name.to_owned(), description: description.to_owned() }
}

/// The position of the first entry whose name also occurs later in the
/// list, if any name occurs twice.
fn first_repeated(entries: &Vec<VocabularyEntry>) -> (found: Option<usize>)
    ensures
        found is None <==> entry_names(entries@).no_duplicates(),
        found matches Some(i) ==> first_repeated_at(entry_names(entries@), i as int),
{
    let mut i: usize = 0;
    while i < entries.len()
        invariant
            i <= entries.len(),
            forall|a: int, b: int|
                0 <= a < i && a < b < entries.len() ==> entries[a].name@ != entries[b].name@,
        decreases entries.len() - i,
    {
        let mut j: usize = i + 1;
        while j < entries.len()
            invariant
                i < j <= entries.len(),
                forall|a: int, b: int|
                    0 <= a < i && a < b < entries.len() ==> entries[a].name@ != entries[b].name@,
                forall|b: int| i < b < j ==> entries[i as int].name@ != entries[b].name@,
            decreases entries.len() - j,
        {
            if entries[i].name == entries[j].name {
                proof {
                    let names = entry_names(entries@);
                    assert(names[i as int] == names[j as int]);
                    assert forall|a: int, b: int|
                        0 <= a < i && a < b < names.len() implies names[a] != names[b] by {
                        assert(entries[a].name@ != entries[b].name@);
                    }
                }
                return Some(i);
            }
            j = j + 1;
        }
        i = i + 1;
    }
    proof {
        let names = entry_names(entries@);
        assert forall|a: int, b: int|
            0 <= a < names.len() && 0 <= b < names.len() && a != b implies names[a] != names[b] by {
            if a < b {
                assert(entries[a].name@ != entries[b].name@);
            } else {
                assert(entries[b].name@ != entries[a].name@);
            }
        }
    }
    None
}

/// Whether `name` is the name of one of the entries.
fn names_contain(entries: &Vec<VocabularyEntry>, name: &str) -> (found: bool)
    ensures
        found == entry_names(entries@).contains(name@),
{
    let wanted = name.to_owned();
    let mut i: usize = 0;
    while i < entries.len()
        invariant
            i <= entries.len(),
            wanted@ == name@,
            forall|k: int| 0 <= k < i ==> entries[k].name@ != name@,
        decreases entries.len() - i,
    {
        if entries[i].name == wanted {
            assert(entry_names(entries@)[i as int] == name@);
            return true;
        }
        i = i + 1;
    }
    false
}

/// Lists the entries in two aligned columns; the empty text for no entries.
fn listing_of(entries: &Vec<VocabularyEntry>) -> (text: String)
    ensures
        text@ == crate::help::listing(entry_names(entries@), entry_descriptions(entries@)),
{
    if entries.len() == 0 {
        return String::new();
    }
    let mut names: Vec<String> = Vec::new();
    let mut descriptions: Vec<String> = Vec::new();
    let mut i: usize = 0;
    while i < entries.len()
        invariant
            i <= entries.len(),
            names.len() == i,
            descriptions.len() == i,
            forall|k: int| 0 <= k < i ==> names[k]@ == entries[k].name@,
            forall|k: int| 0 <= k < i ==> descriptions[k]@ == entries[k].description@,
        decreases entries.len() - i,
    {
        names.push(entries[i].name.clone());
        descriptions.push(entries[i].description.clone());
        i = i + 1;
    }
    assert(views(names@) =~= entry_names(entries@));
    assert(views(descriptions@) =~= entry_descriptions(entries@));
    justify_and_indent(names.as_slice(), descriptions.as_slice())
}

impl Vocabulary {
    /// The names of the actions, in order.
    pub open spec fn action_names(&self) -> Seq<Seq<char>> {
        entry_names(self.actions@)
    }

    /// The names of the contexts, in order.
    pub open spec fn context_names(&self) -> Seq<Seq<char>> {
        entry_names(self.contexts@)
    }

    /// No action name occurs twice and no context name occurs twice. The
    /// same name may be both an action and a context.
    pub open spec fn well_formed(&self) -> bool {
        &&& self.action_names().no_duplicates()
        &&& self.context_names().no_duplicates()
    }

    /// Makes a vocabulary of the given actions and contexts, in the given
    /// order. It is refused where a name occurs twice in its list: the
    /// error names the first action that occurs again, or, where no action
    /// does, the first context that occurs again.
    pub fn new(actions: Vec<VocabularyEntry>, contexts: Vec<VocabularyEntry>) -> (made: Result<
        Vocabulary,
        VocabularyError,
    >)
        ensures
            made is Ok <==> entry_names(actions@).no_duplicates() && entry_names(
                contexts@,
            ).no_duplicates(),
            made matches Ok(v) ==> v.actions == actions && v.contexts == contexts
                && v.well_formed(),
            made matches Err(VocabularyError::DuplicateAction(name)) ==> exists|i: int|
                first_repeated_at(entry_names(actions@), i) && entry_names(actions@)[i] == name@,
            made matches Err(VocabularyError::DuplicateContext(name)) ==> entry_names(
                actions@,
            ).no_duplicates() && exists|i: int|
                first_repeated_at(entry_names(contexts@), i) && entry_names(contexts@)[i]
                    == name@,
    {
        match first_repeated(&actions) {
            Some(i) => {
                assert(entry_names(actions@)[i as int] == actions[i as int].name@);
                return Err(VocabularyError::DuplicateAction(actions[i].name.clone()));
            },
            None => {},
        }
        match first_repeated(&contexts) {
            Some(i) => {
                assert(entry_names(contexts@)[i as int] == contexts[i as int].name@);
                return Err(VocabularyError::DuplicateContext(contexts[i].name.clone()));
            },
            None => {},
        }
        Ok(Vocabulary { actions, contexts })
    }

    /// The built-in vocabulary.
    pub fn standard() -> (v: Vocabulary)
        ensures
            entry_pairs(v.actions@) == standard_actions(),
            entry_pairs(v.contexts@) == standard_contexts(),
            v.well_formed(),
    {
        let actions = standard_action_entries();
        let contexts = standard_context_entries();
        let v = Vocabulary { actions, contexts };
        proof {
            lemma_standard_names_distinct();
            assert(v.action_names() =~= pair_names(standard_actions()));
            assert(v.context_names() =~= pair_names(standard_contexts()));
        }
        v
    }

    /// Whether `name` is the name of an action, letter for letter.
    pub fn has_action(&self, name: &str) -> (found: bool)
        ensures
            found == self.action_names().contains(name@),
    {
        names_contain(&self.actions, name)
    }

    /// Whether `name` is the name of a context, letter for letter.
    pub fn has_context(&self, name: &str) -> (found: bool)
        ensures
            found == self.context_names().contains(name@),
    {
        names_contain(&self.contexts, name)
    }

    /// The actions with their descriptions, one per line in two aligned
    /// columns; the empty text where there is no action.
    pub fn action_listing(&self) -> (text: String)
        ensures
            text@ == crate::help::listing(
                self.action_names(),
                entry_descriptions(self.actions@),
            ),
    {
        listing_of(&self.actions)
    }

    /// The contexts with their descriptions, one per line in two aligned
    /// columns; the empty text where there is no context.
    pub fn context_listing(&self) -> (text: String)
        ensures
            text@ == crate::help::listing(
                self.context_names(),
                entry_descriptions(self.contexts@),
            ),
    {
        listing_of(&self.contexts)
    }
}

/// The first components of the given pairs, in order.
pub open spec fn pair_names(pairs: Seq<(Seq<char>, Seq<char>)>) -> Seq<Seq<char>> {
    Seq::new(pairs.len(), |i: int| pairs[i].0)
}

/// The second components of the given pairs, in order.
pub open spec fn pair_descriptions(pairs: Seq<(Seq<char>, Seq<char>)>) -> Seq<Seq<char>> {
    Seq::new(pairs.len(), |i: int| pairs[i].1)
}

fn standard_action_entries() -> (entries: Vec<VocabularyEntry>)
    ensures
        entry_pairs(entries@) == standard_actions(),
{
    let mut entries: Vec<VocabularyEntry> = Vec::new();
    entries.push(entry("ChangeDir", "Enter the folder under the cursor"));
    entries.push(entry("ChangeDirParent", "Go to the parent folder"));
    entries.push(entry("ChangeDirHome", "Go to the home folder"));
    entries.push(entry("ChangeDirRoot", "Go to the root folder"));
    entries.push(entry("ChangeDirAndExit", "Enter the folder under the cursor and exit"));
    entries.push(entry("CursorUp", "Move the cursor up by one step"));
    entries.push(entry("CursorDown", "Move the cursor down by one step"));
    entries.push(entry("CursorUpScreen", "Move the cursor up by one screen"));
    entries.push(entry("CursorDownScreen", "Move the cursor down by one screen"));
    entries.push(entry("CursorTop", "Move the cursor to the first item in the listing"));
    entries.push(entry("CursorBottom", "Move the cursor to the last item in the listing"));
    entries.push(entry("EraseSearchChar", "Erase the last character of the search"));
    entries.push(entry("ClearSearch", "Clear the search"));
    entries.push(entry("ChangeFilterSearchMode", "Toggle filtering of the listing while searching"));
    entries.push(entry("ChangeCaseSensitiveMode", "Change the case sensitivity mode"));
    entries.push(entry("ChangeGapSearchMode", "Change the search mode"));
    entries.push(entry("ChangeSortMode", "Change the sorting mode"));
    entries.push(entry("RefreshListing", "Refresh the current folder listing"));
    entries.push(entry("Help", "Show the help screen"));
    entries.push(entry("Exit", "Exit the program"));
    entries.push(entry("ExitWithoutCd", "Exit the program without changing the working folder"));
    entries.push(entry("None", "Remove this mapping"));
    assert(entry_pairs(entries@) =~= standard_actions());
    entries
}

fn standard_context_entries() -> (entries: Vec<VocabularyEntry>)
    ensures
        entry_pairs(entries@) == standard_contexts(),
{
    let mut entries: Vec<VocabularyEntry> = Vec::new();
    entries.push(entry("Searching", "The mapping applies only while a search query is entered"));
    entries.push(entry("NotSearching", "The mapping applies only while the search query is empty"));
    assert(entry_pairs(entries@) =~= standard_contexts());
    entries
}

/// In the built-in vocabulary no action name and no context name occurs
/// twice.
pub proof fn lemma_standard_names_distinct()
    ensures
        pair_names(standard_actions()).no_duplicates(),
        pair_names(standard_contexts()).no_duplicates(),
{
    reveal_strlit("ChangeDir");
    assert("ChangeDir"@.len() == 9 && "ChangeDir"@[1] == 'h');
    reveal_strlit("ChangeDirParent");
    assert("ChangeDirParent"@.len() == 15 && "ChangeDirParent"@[1] == 'h' && "ChangeDirParent"@[9] == 'P');
    reveal_strlit("ChangeDirHome");
    assert("ChangeDirHome"@.len() == 13 && "ChangeDirHome"@[1] == 'h' && "ChangeDirHome"@[9] == 'H');
    reveal_strlit("ChangeDirRoot");
    assert("ChangeDirRoot"@.len() == 13 && "ChangeDirRoot"@[1] == 'h' && "ChangeDirRoot"@[9] == 'R');
    reveal_strlit("ChangeDirAndExit");
    assert("ChangeDirAndExit"@.len() == 16 && "ChangeDirAndExit"@[1] == 'h' && "ChangeDirAndExit"@[9] == 'A');
    reveal_strlit("CursorUp");
    assert("CursorUp"@.len() == 8 && "CursorUp"@[1] == 'u');
    reveal_strlit("CursorDown");
    assert("CursorDown"@.len() == 10 && "CursorDown"@[1] == 'u' && "CursorDown"@[9] == 'n');
    reveal_strlit("CursorUpScreen");
    assert("CursorUpScreen"@.len() == 14 && "CursorUpScreen"@[1] == 'u' && "CursorUpScreen"@[9] == 'c');
    reveal_strlit("CursorDownScreen");
    assert("CursorDownScreen"@.len() == 16 && "CursorDownScreen"@[1] == 'u' && "CursorDownScreen"@[9] == 'n');
    reveal_strlit("CursorTop");
    assert("CursorTop"@.len() == 9 && "CursorTop"@[1] == 'u');
    reveal_strlit("CursorBottom");
    assert("CursorBottom"@.len() == 12 && "CursorBottom"@[1] == 'u' && "CursorBottom"@[9] == 't');
    reveal_strlit("EraseSearchChar");
    assert("EraseSearchChar"@.len() == 15 && "EraseSearchChar"@[1] == 'r' && "EraseSearchChar"@[9] == 'c');
    reveal_strlit("ClearSearch");
    assert("ClearSearch"@.len() == 11 && "ClearSearch"@[1] == 'l' && "ClearSearch"@[9] == 'c');
    reveal_strlit("ChangeFilterSearchMode");
    assert("ChangeFilterSearchMode"@.len() == 22 && "ChangeFilterSearchMode"@[1] == 'h' && "ChangeFilterSearchMode"@[9] == 't');
    reveal_strlit("ChangeCaseSensitiveMode");
    assert("ChangeCaseSensitiveMode"@.len() == 23 && "ChangeCaseSensitiveMode"@[1] == 'h' && "ChangeCaseSensitiveMode"@[9] == 'e');
    reveal_strlit("ChangeGapSearchMode");
    assert("ChangeGapSearchMode"@.len() == 19 && "ChangeGapSearchMode"@[1] == 'h' && "ChangeGapSearchMode"@[9] == 'S');
    reveal_strlit("ChangeSortMode");
    assert("ChangeSortMode"@.len() == 14 && "ChangeSortMode"@[1] == 'h' && "ChangeSortMode"@[9] == 't');
    reveal_strlit("RefreshListing");
    assert("RefreshListing"@.len() == 14 && "RefreshListing"@[1] == 'e' && "RefreshListing"@[9] == 's');
    reveal_strlit("Help");
    assert("Help"@.len() == 4 && "Help"@[1] == 'e');
    reveal_strlit("Exit");
    assert("Exit"@.len() == 4 && "Exit"@[1] == 'x');
    reveal_strlit("ExitWithoutCd");
    assert("ExitWithoutCd"@.len() == 13 && "ExitWithoutCd"@[1] == 'x' && "ExitWithoutCd"@[9] == 'u');
    reveal_strlit("None");
    assert("None"@.len() == 4 && "None"@[1] == 'o');
    reveal_strlit("Searching");
    assert("Searching"@.len() == 9 && "Searching"@[1] == 'e');
    reveal_strlit("NotSearching");
    assert("NotSearching"@.len() == 12 && "NotSearching"@[1] == 'o' && "NotSearching"@[9] == 'i');
}

} // verus!
