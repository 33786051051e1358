use crate::text::{split, split_text, views};
use crate::vocabulary::{removal_sentinel, Vocabulary};
use vstd::prelude::*;
use vstd::string::*;

verus! {

/// What a directive does to its key: bind it to an action, or remove its
/// binding.
#[derive(Clone, Debug, PartialEq, Eq)]
pub enum BoundAction {
    Remove,
    Run(String),
}

/// One parsed mapping: a key combination, the context it is restricted to
/// (`None`: every context), and what to do with that key.
#[derive(Clone, Debug, PartialEq, Eq)]
pub struct BindingDirective {
    pub key_combination: String,
    pub context: Option<String>,
    pub action: BoundAction,
}

/// Why a mapping was refused. Each variant carries the offending text: the
/// whole mapping, the action name, the context name.
#[derive(Clone, Debug, PartialEq, Eq)]
pub enum KeymapError {
    MalformedBinding(String),
    UnknownAction(String),
    UnknownContext(String),
}

/// What a [`BoundAction`] holds.
pub enum BoundActionView {
    Remove,
    Run(Seq<char>),
}

/// What a [`BindingDirective`] holds.
pub struct DirectiveView {
    pub key_combination: Seq<char>,
    pub context: Option<Seq<char>>,
    pub action: BoundActionView,
}

/// What a [`KeymapError`] holds.
pub enum KeymapErrorView {
    MalformedBinding(Seq<char>),
    UnknownAction(Seq<char>),
    UnknownContext(Seq<char>),
}

impl View for BoundAction {
    type V = BoundActionView;

    open spec fn view(&self) -> BoundActionView {
        match self {
            BoundAction::Remove => BoundActionView::Remove,
            BoundAction::Run(name) => BoundActionView::Run(name@),
        }
    }
}

/// The character sequence of an optional text.
pub open spec fn optional_view(text: Option<String>) -> Option<Seq<char>> {
    match text {
        Some(t) => Some(t@),
        None => None,
    }
}

impl View for BindingDirective {
    type V = DirectiveView;

    open spec fn view(&self) -> DirectiveView {
        DirectiveView {
            key_combination: self.key_combination@,
            context: optional_view(self.context),
            action: self.action@,
        }
    }
}

impl View for KeymapError {
    type V = KeymapErrorView;

    open spec fn view(&self) -> KeymapErrorView {
        match self {
            KeymapError::MalformedBinding(t) => KeymapErrorView::MalformedBinding(t@),
            KeymapError::UnknownAction(t) => KeymapErrorView::UnknownAction(t@),
            KeymapError::UnknownContext(t) => KeymapErrorView::UnknownContext(t@),
        }
    }
}

/// The views of a list of directives, in order.
pub open spec fn directive_views(directives: Seq<BindingDirective>) -> Seq<DirectiveView> {
    Seq::new(directives.len(), |i: int| directives[i]@)
}

/// What the parts of a mapping mean. The context, where there is one, must
/// be a known context. The action is then either the removal sentinel,
/// which needs not be a known action, or a known action.
pub open spec fn interpret(
    key_combination: Seq<char>,
    context: Option<Seq<char>>,
    action: Seq<char>,
    actions: Seq<Seq<char>>,
    contexts: Seq<Seq<char>>,
) -> Result<DirectiveView, KeymapErrorView> {
    if context is Some && !contexts.contains(context->0) {
        Err(KeymapErrorView::UnknownContext(context->0))
    } else if action == removal_sentinel() {
        Ok(DirectiveView { key_combination, context, action: BoundActionView::Remove })
    } else if !actions.contains(action) {
        Err(KeymapErrorView::UnknownAction(action))
    } else {
        Ok(DirectiveView { key_combination, context, action: BoundActionView::Run(action) })
    }
}

/// What one mapping means: `KEY:ACTION` or `KEY:CONTEXT:ACTION`, cut at
/// every colon, the parts taken as they are.
pub open spec fn parse_token(
    token: Seq<char>,
    actions: Seq<Seq<char>>,
    contexts: Seq<Seq<char>>,
) -> Result<DirectiveView, KeymapErrorView> {
    let parts = split(token, ':');
    if parts.len() == 2 {
        interpret(parts[0], None, parts[1], actions, contexts)
    } else if parts.len() == 3 {
        interpret(parts[0], Some(parts[1]), parts[2], actions, contexts)
    } else {
        Err(KeymapErrorView::MalformedBinding(token))
    }
}

/// The mappings of all the entries, in the order written: each entry is cut
/// at every comma.
pub open spec fn tokens_of(entries: Seq<Seq<char>>) -> Seq<Seq<char>>
    decreases entries.len(),
{
    if entries.len() == 0 {
        Seq::<Seq<char>>::empty()
    } else {
        tokens_of(entries.drop_last()) + split(entries.last(), ',')
    }
}

/// What a list of mappings means: the directives in the same order, or the
/// error of the first mapping that is refused.
pub open spec fn parse_tokens(
    tokens: Seq<Seq<char>>,
    actions: Seq<Seq<char>>,
    contexts: Seq<Seq<char>>,
) -> Result<Seq<DirectiveView>, KeymapErrorView>
    decreases tokens.len(),
{
    if tokens.len() == 0 {
        Ok(Seq::<DirectiveView>::empty())
    } else {
        match parse_tokens(tokens.drop_last(), actions, contexts) {
            Err(e) => Err(e),
            Ok(before) => match parse_token(tokens.last(), actions, contexts) {
                Err(e) => Err(e),
                Ok(d) => Ok(before.push(d)),
            },
        }
    }
}

/// What a list of raw entries means.
pub open spec fn parse_entries(
    entries: Seq<Seq<char>>,
    actions: Seq<Seq<char>>,
    contexts: Seq<Seq<char>>,
) -> Result<Seq<DirectiveView>, KeymapErrorView> {
    parse_tokens(tokens_of(entries), actions, contexts)
}

/// The view of the outcome of parsing one mapping.
pub open spec fn directive_outcome(parsed: Result<BindingDirective, KeymapError>) -> Result<
    DirectiveView,
    KeymapErrorView,
> {
    match parsed {
        Ok(d) => Ok(d@),
        Err(e) => Err(e@),
    }
}

/// The view of the outcome of parsing a list of entries.
pub open spec fn directives_outcome(parsed: Result<Vec<BindingDirective>, KeymapError>) -> Result<
    Seq<DirectiveView>,
    KeymapErrorView,
> {
    match parsed {
        Ok(ds) => Ok(directive_views(ds@)),
        Err(e) => Err(e@),
    }
}

/// An error among the first `k` mappings is the error of the whole list.
pub proof fn lemma_first_error_stands(
    tokens: Seq<Seq<char>>,
    k: int,
    actions: Seq<Seq<char>>,
    contexts: Seq<Seq<char>>,
)
    requires
        0 <= k <= tokens.len(),
        parse_tokens(tokens.take(k), actions, contexts) is Err,
    ensures
        parse_tokens(tokens, actions, contexts) == parse_tokens(tokens.take(k), actions, contexts),
    decreases tokens.len(),
{
    if k == tokens.len() {
        assert(tokens.take(k) =~= tokens);
    } else {
        assert(tokens.drop_last().take(k) =~= tokens.take(k));
        lemma_first_error_stands(tokens.drop_last(), k, actions, contexts);
    }
}

/// Where every mapping is accepted, there is one directive for each
/// mapping, in the same order, and each is what its own mapping means.
pub proof fn lemma_directives_follow_mappings(
    tokens: Seq<Seq<char>>,
    actions: Seq<Seq<char>>,
    contexts: Seq<Seq<char>>,
)
    requires
        parse_tokens(tokens, actions, contexts) is Ok,
    ensures
        parse_tokens(tokens, actions, contexts)->Ok_0.len() == tokens.len(),
        forall|i: int|
            0 <= i < tokens.len() ==> parse_token(#[trigger] tokens[i], actions, contexts) == Ok::<
                DirectiveView,
                KeymapErrorView,
            >(parse_tokens(tokens, actions, contexts)->Ok_0[i]),
    decreases tokens.len(),
{
    if tokens.len() > 0 {
        let before = tokens.drop_last();
        lemma_directives_follow_mappings(before, actions, contexts);
        let directives = parse_tokens(tokens, actions, contexts)->Ok_0;
        assert forall|i: int| 0 <= i < tokens.len() implies parse_token(
            #[trigger] tokens[i],
            actions,
            contexts,
        ) == Ok::<DirectiveView, KeymapErrorView>(directives[i]) by {
            if i < tokens.len() - 1 {
                assert(tokens[i] == before[i]);
            }
        }
    }
}

/// Entries written one after another give their mappings one after
/// another.
pub proof fn lemma_tokens_of_concat(first: Seq<Seq<char>>, second: Seq<Seq<char>>)
    ensures
        tokens_of(first + second) == tokens_of(first) + tokens_of(second),
    decreases second.len(),
{
    if second.len() == 0 {
        assert(first + second =~= first);
        assert(tokens_of(first) + tokens_of(second) =~= tokens_of(first));
    } else {
        assert((first + second).drop_last() =~= first + second.drop_last());
        assert((first + second).last() == second.last());
        lemma_tokens_of_concat(first, second.drop_last());
        assert(tokens_of(first + second) =~= tokens_of(first) + tokens_of(second));
    }
}

fn interpret_parts(
    key_combination: String,
    context: Option<String>,
    action: String,
    vocabulary: &Vocabulary,
) -> (parsed: Result<BindingDirective, KeymapError>)
    ensures
        directive_outcome(parsed) == interpret(
            key_combination@,
            optional_view(context),
            action@,
            vocabulary.action_names(),
            vocabulary.context_names(),
        ),
{
    match &context {
        Some(name) => {
            if !vocabulary.has_context(name.as_str()) {
                return Err(KeymapError::UnknownContext(name.clone()));
            }
        },
        None => {},
    }
    let sentinel = "None".to_owned();
    if action == sentinel {
        Ok(BindingDirective { key_combination, context, action: BoundAction::Remove })
    } else if !vocabulary.has_action(action.as_str()) {
        Err(KeymapError::UnknownAction(action))
    } else {
        Ok(BindingDirective { key_combination, context, action: BoundAction::Run(action) })
    }
}

/// Parses one mapping, `KEY:ACTION` or `KEY:CONTEXT:ACTION`, against the
/// vocabulary. The mapping is cut at every colon and the parts are taken
/// as they are. With any other number of parts than two or three it is
/// malformed. An unknown context is reported before an unknown action.
pub fn parse_binding(token: &str, vocabulary: &Vocabulary) -> (parsed: Result<
    BindingDirective,
    KeymapError,
>)
    ensures
        directive_outcome(parsed) == parse_token(
            token@,
            vocabulary.action_names(),
            vocabulary.context_names(),
        ),
{
    let parts = split_text(token, ':');
    assert(views(parts@).len() == parts.len());
    if parts.len() == 2 {
        assert(views(parts@)[0] == parts[0]@ && views(parts@)[1] == parts[1]@);
        interpret_parts(parts[0].clone(), None, parts[1].clone(), vocabulary)
    } else if parts.len() == 3 {
        assert(views(parts@)[0] == parts[0]@ && views(parts@)[1] == parts[1]@ && views(
            parts@,
        )[2] == parts[2]@);
        interpret_parts(parts[0].clone(), Some(parts[1].clone()), parts[2].clone(), vocabulary)
    } else {
        Err(KeymapError::MalformedBinding(token.to_owned()))
    }
}

/// Cuts every entry at its commas and lists the mappings in the order
/// written.
pub fn split_mappings(raw_entries: &Vec<String>) -> (tokens: Vec<String>)
    ensures
        views(tokens@) == tokens_of(views(raw_entries@)),
{
    let mut tokens: Vec<String> = Vec::new();
    let mut i: usize = 0;
    assert(views(raw_entries@).take(0) =~= Seq::<Seq<char>>::empty());
    assert(views(tokens@) =~= Seq::<Seq<char>>::empty());
    while i < raw_entries.len()
        invariant
            i <= raw_entries.len(),
            views(tokens@) == tokens_of(views(raw_entries@).take(i as int)),
        decreases raw_entries.len() - i,
    {
        let ghost before = views(tokens@);
        let mut pieces = split_text(raw_entries[i].as_str(), ',');
        let ghost added = views(pieces@);
        tokens.append(&mut pieces);
        proof {
            let entries = views(raw_entries@);
            assert(entries.take(i as int + 1).drop_last() =~= entries.take(i as int));
            assert(entries.take(i as int + 1).last() == raw_entries[i as int]@);
            assert(views(tokens@) =~= before + added);
        }
        i = i + 1;
    }
    assert(views(raw_entries@).take(i as int) =~= views(raw_entries@));
    tokens
}

/// Parses the raw entries of the keymap option, in the order written. Each
/// entry holds one or more mappings separated by commas. The directives
/// come out in the order of the mappings; the first mapping that is
/// refused ends the parse with its error.
pub fn parse(raw_entries: &Vec<String>, vocabulary: &Vocabulary) -> (parsed: Result<
    Vec<BindingDirective>,
    KeymapError,
>)
    ensures
        directives_outcome(parsed) == parse_entries(
            views(raw_entries@),
            vocabulary.action_names(),
            vocabulary.context_names(),
        ),
{
    let tokens = split_mappings(raw_entries);
    let ghost all = views(tokens@);
    let ghost actions = vocabulary.action_names();
    let ghost contexts = vocabulary.context_names();
    let mut directives: Vec<BindingDirective> = Vec::new();
    let mut i: usize = 0;
    assert(all.take(0) =~= Seq::<Seq<char>>::empty());
    assert(directive_views(directives@) =~= Seq::<DirectiveView>::empty());
    while i < tokens.len()
        invariant
            i <= tokens.len(),
            all == views(tokens@),
            all == tokens_of(views(raw_entries@)),
            actions == vocabulary.action_names(),
            contexts == vocabulary.context_names(),
            parse_tokens(all.take(i as int), actions, contexts) == Ok::<
                Seq<DirectiveView>,
                KeymapErrorView,
            >(directive_views(directives@)),
        decreases tokens.len() - i,
    {
        let ghost before = directive_views(directives@);
        proof {
            assert(all.take(i as int + 1).drop_last() =~= all.take(i as int));
            assert(all.take(i as int + 1).last() == tokens[i as int]@);
        }
        match parse_binding(tokens[i].as_str(), vocabulary) {
            Err(e) => {
                proof {
                    lemma_first_error_stands(all, i as int + 1, actions, contexts);
                }
                return Err(e);
            },
            Ok(d) => {
                directives.push(d);
                assert(directive_views(directives@) =~= before.push(d@));
            },
        }
        i = i + 1;
    }
    assert(all.take(i as int) =~= all);
    Ok(directives)
}

} // verus!
