use crate::keymap::{
    directive_views, optional_view, BindingDirective, BoundAction, BoundActionView, DirectiveView,
};
use vstd::prelude::*;
use vstd::string::*;

verus! {

/// One entry of a binding table: in the given context (`None`: in every
/// context) the key combination triggers the action.
#[derive(Clone, Debug, PartialEq, Eq)]
pub struct Binding {
    pub key_combination: String,
    pub context: Option<String>,
    pub action: String,
}

/// The exact key of a table entry: a key combination with a context or
/// with none. A key without a context is a key of its own: it is distinct
/// from every key with the same key combination and a context.
#[derive(Clone, Debug, PartialEq, Eq)]
pub struct BindingKey {
    pub key_combination: String,
    pub context: Option<String>,
}

impl View for BindingKey {
    type V = (Seq<char>, Option<Seq<char>>);

    open spec fn view(&self) -> (Seq<char>, Option<Seq<char>>) {
        (self.key_combination@, optional_view(self.context))
    }
}

/// What a binding table holds: the action bound at each exact key, and the
/// exact keys that were explicitly cleared.
pub struct TableView {
    pub bound: Map<(Seq<char>, Option<Seq<char>>), Seq<char>>,
    pub cleared: Set<(Seq<char>, Option<Seq<char>>)>,
}

/// The exact key of an entry.
pub open spec fn binding_key(b: Binding) -> (Seq<char>, Option<Seq<char>>) {
    (b.key_combination@, optional_view(b.context))
}

/// The exact keys of the entries, in order.
pub open spec fn binding_keys(entries: Seq<Binding>) -> Seq<(Seq<char>, Option<Seq<char>>)> {
    Seq::new(entries.len(), |i: int| binding_key(entries[i]))
}

/// The bindings that a list of entries amounts to: where two entries have
/// the same exact key, the later one stands.
pub open spec fn bound_of(entries: Seq<Binding>) -> Map<(Seq<char>, Option<Seq<char>>), Seq<char>>
    decreases entries.len(),
{
    if entries.len() == 0 {
        Map::empty()
    } else {
        bound_of(entries.drop_last()).insert(binding_key(entries.last()), entries.last().action@)
    }
}

/// The set of the given exact keys.
pub open spec fn key_set(keys: Seq<BindingKey>) -> Set<(Seq<char>, Option<Seq<char>>)>
    decreases keys.len(),
{
    if keys.len() == 0 {
        Set::empty()
    } else {
        key_set(keys.drop_last()).insert(keys.last()@)
    }
}

/// The exact key that a directive targets.
pub open spec fn directive_key(d: DirectiveView) -> (Seq<char>, Option<Seq<char>>) {
    (d.key_combination, d.context)
}

/// The table with no binding and no cleared key.
pub open spec fn empty_table() -> TableView {
    TableView { bound: Map::empty(), cleared: Set::empty() }
}

/// The table after one directive. A removal deletes the entry at the
/// directive's exact key and records the key as cleared. Any other
/// directive sets the entry at its exact key, and the key is no longer
/// cleared. No other key is touched.
pub open spec fn apply_directive(table: TableView, d: DirectiveView) -> TableView {
    let key = directive_key(d);
    match d.action {
        BoundActionView::Remove => TableView {
            bound: table.bound.remove(key),
            cleared: table.cleared.insert(key),
        },
        BoundActionView::Run(action) => TableView {
            bound: table.bound.insert(key, action),
            cleared: table.cleared.remove(key),
        },
    }
}

/// The table that results from applying the directives, in order, to the
/// defaults.
pub open spec fn build_table(defaults: TableView, directives: Seq<DirectiveView>) -> TableView
    decreases directives.len(),
{
    if directives.len() == 0 {
        defaults
    } else {
        apply_directive(build_table(defaults, directives.drop_last()), directives.last())
    }
}

/// No cleared key has a binding.
pub open spec fn consistent(table: TableView) -> bool {
    forall|key: (Seq<char>, Option<Seq<char>>)|
        table.cleared.contains(key) ==> !table.bound.dom().contains(key)
}

/// Every entry's key has a binding, every bound key is the key of an
/// entry, and where no two entries share a key, every entry stands with
/// its own action.
pub proof fn lemma_bound_of_entries(entries: Seq<Binding>)
    ensures
        forall|i: int|
            0 <= i < entries.len() ==> bound_of(entries).dom().contains(
                #[trigger] binding_key(entries[i]),
            ),
        forall|key: (Seq<char>, Option<Seq<char>>)| #[trigger]
            bound_of(entries).dom().contains(key) ==> exists|i: int|
                0 <= i < entries.len() && #[trigger] binding_key(entries[i]) == key,
        binding_keys(entries).no_duplicates() ==> forall|i: int|
            0 <= i < entries.len() ==> bound_of(entries)[#[trigger] binding_key(entries[i])]
                == entries[i].action@,
    decreases entries.len(),
{
    if entries.len() > 0 {
        let before = entries.drop_last();
        let last = entries.len() - 1;
        lemma_bound_of_entries(before);
        assert forall|i: int| 0 <= i < entries.len() implies bound_of(entries).dom().contains(
            #[trigger] binding_key(entries[i]),
        ) by {
            if i < last {
                assert(before[i] == entries[i]);
                assert(bound_of(before).dom().contains(binding_key(before[i])));
            }
        }
        assert forall|key: (Seq<char>, Option<Seq<char>>)| #[trigger]
            bound_of(entries).dom().contains(key) implies exists|i: int|
            0 <= i < entries.len() && #[trigger] binding_key(entries[i]) == key by {
            if key == binding_key(entries[last]) {
            } else {
                assert(bound_of(before).dom().contains(key));
                let i = choose|i: int|
                    0 <= i < before.len() && #[trigger] binding_key(before[i]) == key;
                assert(before[i] == entries[i]);
                assert(binding_key(entries[i]) == key);
            }
        }
        if binding_keys(entries).no_duplicates() {
            let keys = binding_keys(entries);
            assert(binding_keys(before) =~= keys.drop_last());
            assert forall|i: int| 0 <= i < entries.len() implies bound_of(
                entries,
            )[#[trigger] binding_key(entries[i])] == entries[i].action@ by {
                if i < last {
                    assert(keys[i] != keys[last]);
                    assert(before[i] == entries[i]);
                    assert(bound_of(before)[binding_key(before[i])] == before[i].action@);
                }
            }
        }
    }
}

/// A key is in `key_set` exactly if it is one of the keys.
pub proof fn lemma_key_set_members(keys: Seq<BindingKey>)
    ensures
        forall|i: int| 0 <= i < keys.len() ==> key_set(keys).contains((#[trigger] keys[i])@),
        forall|key: (Seq<char>, Option<Seq<char>>)| #[trigger]
            key_set(keys).contains(key) ==> exists|i: int|
                0 <= i < keys.len() && (#[trigger] keys[i])@ == key,
    decreases keys.len(),
{
    if keys.len() > 0 {
        let before = keys.drop_last();
        let last = keys.len() - 1;
        lemma_key_set_members(before);
        assert forall|i: int| 0 <= i < keys.len() implies key_set(keys).contains(
            (#[trigger] keys[i])@,
        ) by {
            if i < last {
                assert(before[i] == keys[i]);
            }
        }
        assert forall|key: (Seq<char>, Option<Seq<char>>)| #[trigger]
            key_set(keys).contains(key) implies exists|i: int|
            0 <= i < keys.len() && (#[trigger] keys[i])@ == key by {
            if key == keys[last]@ {
            } else {
                assert(key_set(before).contains(key));
                let i = choose|i: int| 0 <= i < before.len() && (#[trigger] before[i])@ == key;
                assert(before[i] == keys[i]);
                assert(keys[i]@ == key);
            }
        }
    }
}

/// A key that no directive targets keeps what the defaults had for it.
pub proof fn lemma_untouched_key(
    defaults: TableView,
    directives: Seq<DirectiveView>,
    key: (Seq<char>, Option<Seq<char>>),
)
    requires
        forall|i: int| 0 <= i < directives.len() ==> directive_key(#[trigger] directives[i]) != key,
    ensures
        build_table(defaults, directives).bound.dom().contains(key)
            == defaults.bound.dom().contains(key),
        build_table(defaults, directives).bound[key] == defaults.bound[key],
        build_table(defaults, directives).cleared.contains(key) == defaults.cleared.contains(key),
    decreases directives.len(),
{
    if directives.len() > 0 {
        let before = directives.drop_last();
        assert forall|i: int| 0 <= i < before.len() implies directive_key(#[trigger] before[i])
            != key by {
            assert(before[i] == directives[i]);
        }
        lemma_untouched_key(defaults, before, key);
        assert(directive_key(directives[directives.len() - 1]) != key);
    }
}

/// The last directive that targets a key decides that key, whatever the
/// defaults and the earlier directives say: a removal leaves the key
/// without a binding and cleared, any other directive leaves it bound to
/// its action and not cleared.
pub proof fn lemma_last_directive_wins(
    defaults: TableView,
    directives: Seq<DirectiveView>,
    last: int,
)
    requires
        0 <= last < directives.len(),
        forall|i: int|
            last < i < directives.len() ==> directive_key(#[trigger] directives[i])
                != directive_key(directives[last]),
    ensures
        ({
            let key = directive_key(directives[last]);
            let table = build_table(defaults, directives);
            match directives[last].action {
                BoundActionView::Remove => !table.bound.dom().contains(key)
                    && table.cleared.contains(key),
                BoundActionView::Run(action) => table.bound.dom().contains(key) && table.bound[key]
                    == action && !table.cleared.contains(key),
            }
        }),
    decreases directives.len(),
{
    let before = directives.drop_last();
    if last < directives.len() - 1 {
        assert(before[last] == directives[last]);
        assert forall|i: int| last < i < before.len() implies directive_key(#[trigger] before[i])
            != directive_key(before[last]) by {
            assert(before[i] == directives[i]);
        }
        lemma_last_directive_wins(defaults, before, last);
        assert(directive_key(directives[directives.len() - 1]) != directive_key(directives[last]));
    }
}

/// Directives applied to consistent defaults give a consistent table.
pub proof fn lemma_build_consistent(defaults: TableView, directives: Seq<DirectiveView>)
    requires
        consistent(defaults),
    ensures
        consistent(build_table(defaults, directives)),
    decreases directives.len(),
{
    if directives.len() > 0 {
        lemma_build_consistent(defaults, directives.drop_last());
    }
}

/// Building in two steps is building at once: the directives of a later
/// occurrence are applied to the table of the earlier ones.
pub proof fn lemma_build_concat(
    defaults: TableView,
    first: Seq<DirectiveView>,
    second: Seq<DirectiveView>,
)
    ensures
        build_table(defaults, first + second) == build_table(build_table(defaults, first), second),
    decreases second.len(),
{
    if second.len() == 0 {
        assert(first + second =~= first);
    } else {
        assert((first + second).drop_last() =~= first + second.drop_last());
        assert((first + second).last() == second.last());
        lemma_build_concat(defaults, first, second.drop_last());
    }
}

/// A table of key bindings: at most one action for each exact key, and a
/// record of the exact keys that were explicitly cleared.
#[derive(Debug)]
pub struct BindingTable {
    entries: Vec<Binding>,
    cleared: Vec<BindingKey>,
}

fn same_text(a: &Option<String>, b: &Option<String>) -> (same: bool)
    ensures
        same == (optional_view(*a) == optional_view(*b)),
{
    match (a, b) {
        (Some(x), Some(y)) => *x == *y,
        (None, None) => true,
        _ => false,
    }
}

fn copy_text(text: &Option<String>) -> (copy: Option<String>)
    ensures
        optional_view(copy) == optional_view(*text),
{
    match text {
        Some(t) => Some(t.clone()),
        None => None,
    }
}

/// The entries without those at the given exact key, in their order.
fn entries_without(entries: &Vec<Binding>, key_combination: &String, context: &Option<String>) -> (kept:
    Vec<Binding>)
    requires
        binding_keys(entries@).no_duplicates(),
    ensures
        binding_keys(kept@).no_duplicates(),
        !binding_keys(kept@).contains((key_combination@, optional_view(*context))),
        bound_of(kept@) == bound_of(entries@).remove((key_combination@, optional_view(*context))),
{
    let ghost key = (key_combination@, optional_view(*context));
    let mut kept: Vec<Binding> = Vec::new();
    let mut i: usize = 0;
    assert(bound_of(kept@) =~= bound_of(entries@.take(0)).remove(key));
    while i < entries.len()
        invariant
            i <= entries.len(),
            key == (key_combination@, optional_view(*context)),
            binding_keys(entries@).no_duplicates(),
            binding_keys(kept@).no_duplicates(),
            forall|j: int|
                0 <= j < kept.len() ==> binding_key(#[trigger] kept[j]) != key && exists|m: int|
                    0 <= m < i && binding_key(entries[m]) == binding_key(kept[j]),
            bound_of(kept@) == bound_of(entries@.take(i as int)).remove(key),
        decreases entries.len() - i,
    {
        let entry = &entries[i];
        let ghost before = kept@;
        proof {
            assert(entries@.take(i as int + 1).drop_last() =~= entries@.take(i as int));
            assert(entries@.take(i as int + 1).last() == entries[i as int]);
        }
        if entry.key_combination == *key_combination && same_text(&entry.context, context) {
            assert(bound_of(kept@) =~= bound_of(entries@.take(i as int + 1)).remove(key));
        } else {
            let copy = Binding {
                key_combination: entry.key_combination.clone(),
                context: copy_text(&entry.context),
                action: entry.action.clone(),
            };
            kept.push(copy);
            proof {
                assert(kept@.drop_last() =~= before);
                assert(binding_key(copy) == binding_key(entries[i as int]));
                assert(bound_of(kept@) =~= bound_of(entries@.take(i as int + 1)).remove(key));
                let keys = binding_keys(kept@);
                assert forall|a: int, b: int|
                    0 <= a < keys.len() && 0 <= b < keys.len() && a != b implies keys[a]
                    != keys[b] by {
                    let all = binding_keys(entries@);
                    if a < before.len() && b < before.len() {
                        assert(binding_keys(before)[a] != binding_keys(before)[b]);
                    } else if a < before.len() {
                        let m = choose|m: int|
                            0 <= m < i && binding_key(entries[m]) == binding_key(before[a]);
                        assert(all[m] != all[i as int]);
                    } else {
                        let m = choose|m: int|
                            0 <= m < i && binding_key(entries[m]) == binding_key(before[b]);
                        assert(all[m] != all[i as int]);
                    }
                }
                assert forall|j: int| 0 <= j < kept.len() implies binding_key(#[trigger] kept[j])
                    != key && exists|m: int|
                    0 <= m < i + 1 && binding_key(entries[m]) == binding_key(kept[j]) by {
                    if j < before.len() {
                        assert(kept[j] == before[j]);
                        let m = choose|m: int|
                            0 <= m < i && binding_key(entries[m]) == binding_key(before[j]);
                        assert(binding_key(entries[m]) == binding_key(kept[j]));
                    } else {
                        assert(binding_key(entries[i as int]) == binding_key(kept[j]));
                    }
                }
            }
        }
        i = i + 1;
    }
    proof {
        assert(entries@.take(i as int) =~= entries@);
        let keys = binding_keys(kept@);
        if keys.contains(key) {
            let j = choose|j: int| 0 <= j < keys.len() && keys[j] == key;
            assert(binding_key(kept[j]) != key);
        }
    }
    kept
}

/// The keys without the given exact key, in their order.
fn keys_without(keys: &Vec<BindingKey>, key_combination: &String, context: &Option<String>) -> (kept:
    Vec<BindingKey>)
    ensures
        key_set(kept@) == key_set(keys@).remove((key_combination@, optional_view(*context))),
{
    let ghost key = (key_combination@, optional_view(*context));
    let mut kept: Vec<BindingKey> = Vec::new();
    let mut i: usize = 0;
    assert(key_set(kept@) =~= key_set(keys@.take(0)).remove(key));
    while i < keys.len()
        invariant
            i <= keys.len(),
            key == (key_combination@, optional_view(*context)),
            key_set(kept@) == key_set(keys@.take(i as int)).remove(key),
        decreases keys.len() - i,
    {
        let entry = &keys[i];
        let ghost before = kept@;
        proof {
            assert(keys@.take(i as int + 1).drop_last() =~= keys@.take(i as int));
            assert(keys@.take(i as int + 1).last() == keys[i as int]);
        }
        if entry.key_combination == *key_combination && same_text(&entry.context, context) {
            assert(key_set(kept@) =~= key_set(keys@.take(i as int + 1)).remove(key));
        } else {
            let copy = BindingKey {
                key_combination: entry.key_combination.clone(),
                context: copy_text(&entry.context),
            };
            kept.push(copy);
            proof {
                assert(kept@.drop_last() =~= before);
                assert(copy@ == keys[i as int]@);
                assert(key_set(kept@) =~= key_set(keys@.take(i as int + 1)).remove(key));
            }
        }
        i = i + 1;
    }
    assert(keys@.take(i as int) =~= keys@);
    kept
}

impl View for BindingTable {
    type V = TableView;

    closed spec fn view(&self) -> TableView {
        TableView { bound: bound_of(self.entries@), cleared: key_set(self.cleared@) }
    }
}

/// The character sequence of an optional borrowed text.
pub open spec fn optional_str_view(text: Option<&str>) -> Option<Seq<char>> {
    match text {
        Some(t) => Some(t@),
        None => None,
    }
}

fn own_text(text: Option<&str>) -> (owned: Option<String>)
    ensures
        optional_view(owned) == optional_str_view(text),
{
    match text {
        Some(t) => Some(t.to_owned()),
        None => None,
    }
}

impl BindingTable {
    #[verifier::type_invariant]
    closed spec fn distinct_keys(&self) -> bool {
        binding_keys(self.entries@).no_duplicates()
    }

    /// The table with no binding and no cleared key.
    pub fn empty() -> (table: BindingTable)
        ensures
            table@ == empty_table(),
    {
        let table = BindingTable { entries: Vec::new(), cleared: Vec::new() };
        assert(table@.bound =~= Map::empty());
        assert(table@.cleared =~= Set::empty());
        table
    }

    /// The table with these bindings and no cleared key. Where two
    /// bindings have the same exact key, the later one stands.
    pub fn from_bindings(bindings: &Vec<Binding>) -> (table: BindingTable)
        ensures
            table@.bound == bound_of(bindings@),
            table@.cleared == Set::<(Seq<char>, Option<Seq<char>>)>::empty(),
    {
        let mut table = BindingTable::empty();
        let mut i: usize = 0;
        assert(bindings@.take(0) =~= Seq::<Binding>::empty());
        while i < bindings.len()
            invariant
                i <= bindings.len(),
                table@.bound == bound_of(bindings@.take(i as int)),
                table@.cleared == Set::<(Seq<char>, Option<Seq<char>>)>::empty(),
            decreases bindings.len() - i,
        {
            let entry = &bindings[i];
            proof {
                assert(bindings@.take(i as int + 1).drop_last() =~= bindings@.take(i as int));
                assert(bindings@.take(i as int + 1).last() == bindings[i as int]);
            }
            table = table.bind(
                entry.key_combination.clone(),
                copy_text(&entry.context),
                entry.action.clone(),
            );
            assert(table@.cleared =~= Set::<(Seq<char>, Option<Seq<char>>)>::empty());
            i = i + 1;
        }
        assert(bindings@.take(i as int) =~= bindings@);
        table
    }

    /// Binds the exact key to the action, in place of what it was bound to
    /// before. The key is no longer cleared. No other key is touched.
    pub fn bind(self, key_combination: String, context: Option<String>, action: String) -> (table:
        BindingTable)
        ensures
            table@.bound == self@.bound.insert((key_combination@, optional_view(context)), action@),
            table@.cleared == self@.cleared.remove((key_combination@, optional_view(context))),
    {
        proof {
            use_type_invariant(&self);
        }
        let mut entries = entries_without(&self.entries, &key_combination, &context);
        let cleared = keys_without(&self.cleared, &key_combination, &context);
        let ghost key = (key_combination@, optional_view(context));
        let ghost before = entries@;
        entries.push(Binding { key_combination, context, action });
        proof {
            assert(entries@.drop_last() =~= before);
            assert(bound_of(entries@) =~= bound_of(self.entries@).insert(key, action@));
            let keys = binding_keys(entries@);
            assert forall|a: int, b: int|
                0 <= a < keys.len() && 0 <= b < keys.len() && a != b implies keys[a] != keys[b] by {
                if a < before.len() && b < before.len() {
                    assert(binding_keys(before)[a] != binding_keys(before)[b]);
                } else if a < before.len() {
                    assert(binding_keys(before)[a] == keys[a]);
                } else {
                    assert(binding_keys(before)[b] == keys[b]);
                }
            }
        }
        BindingTable { entries, cleared }
    }

    /// Removes the binding of the exact key, if it has one, and records the
    /// key as cleared. No other key is touched.
    pub fn unbind(self, key_combination: String, context: Option<String>) -> (table: BindingTable)
        ensures
            table@.bound == self@.bound.remove((key_combination@, optional_view(context))),
            table@.cleared == self@.cleared.insert((key_combination@, optional_view(context))),
    {
        proof {
            use_type_invariant(&self);
        }
        let entries = entries_without(&self.entries, &key_combination, &context);
        let mut cleared = keys_without(&self.cleared, &key_combination, &context);
        let ghost key = (key_combination@, optional_view(context));
        let ghost before = cleared@;
        cleared.push(BindingKey { key_combination, context });
        proof {
            assert(cleared@.drop_last() =~= before);
            assert(key_set(cleared@) =~= key_set(self.cleared@).insert(key));
        }
        BindingTable { entries, cleared }
    }

    /// Applies one directive.
    pub fn apply(self, directive: &BindingDirective) -> (table: BindingTable)
        ensures
            table@ == apply_directive(self@, directive@),
    {
        let key_combination = directive.key_combination.clone();
        let context = copy_text(&directive.context);
        match &directive.action {
            BoundAction::Remove => self.unbind(key_combination, context),
            BoundAction::Run(action) => self.bind(key_combination, context, action.clone()),
        }
    }

    /// The action bound at the exact key, if there is one. A context of
    /// `None` asks for the binding that applies in every context, not for
    /// any binding of the key combination.
    pub fn lookup(&self, key_combination: &str, context: Option<&str>) -> (action: Option<String>)
        ensures
            match action {
                Some(a) => self@.bound.dom().contains((key_combination@, optional_str_view(context)))
                    && self@.bound[(key_combination@, optional_str_view(context))] == a@,
                None => !self@.bound.dom().contains((key_combination@, optional_str_view(context))),
            },
    {
        proof {
            use_type_invariant(self);
            lemma_bound_of_entries(self.entries@);
        }
        let wanted_key = key_combination.to_owned();
        let wanted_context = own_text(context);
        let ghost key = (key_combination@, optional_str_view(context));
        let mut i: usize = 0;
        while i < self.entries.len()
            invariant
                i <= self.entries.len(),
                key == (wanted_key@, optional_view(wanted_context)),
                key == (key_combination@, optional_str_view(context)),
                forall|j: int| 0 <= j < i ==> binding_key(#[trigger] self.entries[j]) != key,
            decreases self.entries.len() - i,
        {
            let entry = &self.entries[i];
            if entry.key_combination == wanted_key && same_text(&entry.context, &wanted_context) {
                proof {
                    use_type_invariant(self);
                    lemma_bound_of_entries(self.entries@);
                    assert(binding_key(self.entries[i as int]) == key);
                }
                return Some(entry.action.clone());
            }
            i = i + 1;
        }
        proof {
            if self@.bound.dom().contains(key) {
                let j = choose|j: int|
                    0 <= j < self.entries.len() && #[trigger] binding_key(self.entries[j]) == key;
                assert(binding_key(self.entries[j]) != key);
            }
        }
        None
    }

    /// Whether the exact key was explicitly cleared and has not been bound
    /// since.
    pub fn is_cleared(&self, key_combination: &str, context: Option<&str>) -> (cleared: bool)
        ensures
            cleared == self@.cleared.contains((key_combination@, optional_str_view(context))),
    {
        proof {
            lemma_key_set_members(self.cleared@);
        }
        let wanted_key = key_combination.to_owned();
        let wanted_context = own_text(context);
        let ghost key = (key_combination@, optional_str_view(context));
        let mut i: usize = 0;
        while i < self.cleared.len()
            invariant
                i <= self.cleared.len(),
                key == (wanted_key@, optional_view(wanted_context)),
                key == (key_combination@, optional_str_view(context)),
                forall|j: int| 0 <= j < i ==> (#[trigger] self.cleared[j])@ != key,
            decreases self.cleared.len() - i,
        {
            let entry = &self.cleared[i];
            if entry.key_combination == wanted_key && same_text(&entry.context, &wanted_context) {
                proof {
                    lemma_key_set_members(self.cleared@);
                    assert(self.cleared[i as int]@ == key);
                }
                return true;
            }
            i = i + 1;
        }
        proof {
            if self@.cleared.contains(key) {
                let j = choose|j: int|
                    0 <= j < self.cleared.len() && (#[trigger] self.cleared[j])@ == key;
                assert(self.cleared[j]@ != key);
            }
        }
        false
    }

    /// Whether some exact key is bound to the action.
    pub fn binds_action(&self, action: &str) -> (found: bool)
        ensures
            found == exists|key: (Seq<char>, Option<Seq<char>>)|
                self@.bound.dom().contains(key) && self@.bound[key] == action@,
    {
        proof {
            use_type_invariant(self);
            lemma_bound_of_entries(self.entries@);
        }
        let wanted = action.to_owned();
        let mut i: usize = 0;
        while i < self.entries.len()
            invariant
                i <= self.entries.len(),
                wanted@ == action@,
                forall|j: int| 0 <= j < i ==> (#[trigger] self.entries[j]).action@ != action@,
            decreases self.entries.len() - i,
        {
            if self.entries[i].action == wanted {
                proof {
                    use_type_invariant(self);
                    lemma_bound_of_entries(self.entries@);
                    let key = binding_key(self.entries[i as int]);
                    assert(self@.bound.dom().contains(key) && self@.bound[key] == action@);
                }
                return true;
            }
            i = i + 1;
        }
        proof {
            assert forall|key: (Seq<char>, Option<Seq<char>>)|
                self@.bound.dom().contains(key) implies self@.bound[key] != action@ by {
                let j = choose|j: int|
                    0 <= j < self.entries.len() && #[trigger] binding_key(self.entries[j]) == key;
                assert(self.entries[j].action@ != action@);
            }
        }
        false
    }

    /// The bindings of the table, one for each bound key.
    pub fn bindings(&self) -> (list: Vec<Binding>)
        ensures
            binding_keys(list@).no_duplicates(),
            bound_of(list@) == self@.bound,
    {
        proof {
            use_type_invariant(self);
        }
        let mut list: Vec<Binding> = Vec::new();
        let mut i: usize = 0;
        assert(self.entries@.take(0) =~= list@);
        while i < self.entries.len()
            invariant
                i <= self.entries.len(),
                list.len() == i,
                binding_keys(list@) == binding_keys(self.entries@.take(i as int)),
                bound_of(list@) == bound_of(self.entries@.take(i as int)),
            decreases self.entries.len() - i,
        {
            let entry = &self.entries[i];
            let ghost before = list@;
            let copy = Binding {
                key_combination: entry.key_combination.clone(),
                context: copy_text(&entry.context),
                action: entry.action.clone(),
            };
            list.push(copy);
            proof {
                assert(self.entries@.take(i as int + 1).drop_last() =~= self.entries@.take(
                    i as int,
                ));
                assert(self.entries@.take(i as int + 1).last() == self.entries[i as int]);
                assert(list@.drop_last() =~= before);
                assert(binding_keys(list@) =~= binding_keys(before).push(binding_key(copy)));
                assert(binding_keys(self.entries@.take(i as int + 1)) =~= binding_keys(
                    self.entries@.take(i as int),
                ).push(binding_key(self.entries[i as int])));
            }
            i = i + 1;
        }
        assert(self.entries@.take(i as int) =~= self.entries@);
        list
    }
}

/// Builds the binding table of a session: starts from the defaults and
/// applies the directives in order, so that for each exact key the last
/// directive that targets it decides.
pub fn build(defaults: BindingTable, directives: &Vec<BindingDirective>) -> (table: BindingTable)
    ensures
        table@ == build_table(defaults@, directive_views(directives@)),
{
    let ghost start = defaults@;
    let ghost all = directive_views(directives@);
    let mut table = defaults;
    let mut i: usize = 0;
    assert(all.take(0) =~= Seq::<DirectiveView>::empty());
    while i < directives.len()
        invariant
            i <= directives.len(),
            all == directive_views(directives@),
            table@ == build_table(start, all.take(i as int)),
        decreases directives.len() - i,
    {
        proof {
            assert(all.take(i as int + 1).drop_last() =~= all.take(i as int));
            assert(all.take(i as int + 1).last() == directives[i as int]@);
        }
        table = table.apply(&directives[i]);
        i = i + 1;
    }
    assert(all.take(i as int) =~= all);
    table
}

} // verus!
