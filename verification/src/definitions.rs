use crate::schema::{
    all_categories, all_flags, canonical_name_of, category_of, lemma_all_categories_complete,
    lemma_one_category_per_flag, lemma_overrides_within_category, overrides_of, surfaces_of,
    value_kind_of, Category, Flag, ValueKind,
};
use crate::settings::{
    default_settings, optional_value_view, value_in, ResolvedSettings, SettingValue,
    SettingValueView,
};
use crate::text::first_repeated_at;
use vstd::prelude::*;
use vstd::string::*;

verus! {

/// The declaration of one category: the flags that write into it, those
/// among them that override each other, how they take their value, and
/// the value used where none of them is given (`None` where the category
/// collects values).
#[derive(Clone, Debug, PartialEq, Eq)]
pub struct FlagDefinition {
    pub category: Category,
    pub canonical_name: String,
    pub surface_names: Vec<Flag>,
    pub override_group: Vec<Flag>,
    pub value_kind: ValueKind,
    pub default: Option<SettingValue>,
}

/// What a [`FlagDefinition`] holds.
pub struct DefinitionView {
    pub category: Category,
    pub canonical_name: Seq<char>,
    pub surface_names: Seq<Flag>,
    pub override_group: Seq<Flag>,
    pub value_kind: ValueKind,
    pub default: Option<SettingValueView>,
}

impl View for FlagDefinition {
    type V = DefinitionView;

    open spec fn view(&self) -> DefinitionView {
        DefinitionView {
            category: self.category,
            canonical_name: self.canonical_name@,
            surface_names: self.surface_names@,
            override_group: self.override_group@,
            value_kind: self.value_kind,
            default: optional_value_view(self.default),
        }
    }
}

/// Why a declaration was refused.
#[derive(Clone, Copy, Debug, PartialEq, Eq, Structural)]
pub enum SchemaError {
    /// The flag is declared twice: in an earlier declaration and this one,
    /// or twice in this one.
    DuplicateSurfaceName(Flag),
    /// The flag is in the override group without being one of the flags
    /// of the category, so the group would span two categories.
    GroupSpansCategories(Flag),
}

/// The views of the given definitions, in order.
pub open spec fn definition_views(definitions: Seq<FlagDefinition>) -> Seq<DefinitionView> {
    Seq::new(definitions.len(), |i: int| definitions[i]@)
}

/// All the flags that the definitions declare, in order.
pub open spec fn registered(definitions: Seq<DefinitionView>) -> Seq<Flag>
    decreases definitions.len(),
{
    if definitions.len() == 0 {
        Seq::<Flag>::empty()
    } else {
        registered(definitions.drop_last()) + definitions.last().surface_names
    }
}

/// Whether every flag of the group is one of the given flags.
pub open spec fn group_within(group: Seq<Flag>, surface_names: Seq<Flag>) -> bool {
    forall|k: int| 0 <= k < group.len() ==> surface_names.contains(#[trigger] group[k])
}

/// Whether `k` is the first position of the group whose flag is not among
/// the given flags.
pub open spec fn first_outside_at(group: Seq<Flag>, surface_names: Seq<Flag>, k: int) -> bool {
    &&& 0 <= k < group.len()
    &&& !surface_names.contains(group[k])
    &&& forall|m: int| 0 <= m < k ==> surface_names.contains(#[trigger] group[m])
}

/// Every flag is declared once, in one definition, and every override
/// group stays within the flags of its own definition.
pub open spec fn well_formed(definitions: Seq<DefinitionView>) -> bool {
    &&& registered(definitions).no_duplicates()
    &&& forall|i: int|
        0 <= i < definitions.len() ==> group_within(
            (#[trigger] definitions[i]).override_group,
            definitions[i].surface_names,
        )
}

/// The definition of a category of the program.
pub open spec fn definition_of(category: Category) -> DefinitionView {
    DefinitionView {
        category,
        canonical_name: canonical_name_of(category),
        surface_names: surfaces_of(category),
        override_group: overrides_of(category),
        value_kind: value_kind_of(category),
        default: value_in(default_settings(), category),
    }
}

/// The definitions of the first `count` categories of the program.
pub open spec fn standard_prefix(count: int) -> Seq<DefinitionView> {
    Seq::new(count as nat, |i: int| definition_of(all_categories()[i]))
}

/// The definitions of all the categories of the program, in order.
pub open spec fn standard_definitions() -> Seq<DefinitionView> {
    standard_prefix(all_categories().len() as int)
}

/// The flags that the first `count` definitions of the program declare
/// write into the first `count` categories, and none is declared twice.
pub proof fn lemma_standard_prefix(count: int)
    requires
        0 <= count <= all_categories().len(),
    ensures
        registered(standard_prefix(count)).no_duplicates(),
        forall|k: int|
            0 <= k < registered(standard_prefix(count)).len() ==> exists|j: int|
                0 <= j < count && category_of(#[trigger] registered(standard_prefix(count))[k])
                    == all_categories()[j],
    decreases count,
{
    if count > 0 {
        lemma_standard_prefix(count - 1);
        lemma_all_categories_complete();
        let category = all_categories()[count - 1];
        let before = registered(standard_prefix(count - 1));
        let added = surfaces_of(category);
        let all = registered(standard_prefix(count));
        assert(standard_prefix(count).drop_last() =~= standard_prefix(count - 1));
        assert(all == before + added);
        assert forall|k: int| 0 <= k < added.len() implies category_of(#[trigger] added[k])
            == category by {
            lemma_one_category_per_flag(added[k], category);
        }
        assert forall|k: int| 0 <= k < all.len() implies exists|j: int|
            0 <= j < count && category_of(#[trigger] all[k]) == all_categories()[j] by {
            if k < before.len() {
                assert(all[k] == before[k]);
                let j = choose|j: int|
                    0 <= j < count - 1 && category_of(before[k]) == all_categories()[j];
                assert(category_of(all[k]) == all_categories()[j]);
            } else {
                assert(all[k] == added[k - before.len()]);
                assert(category_of(all[k]) == all_categories()[count - 1]);
            }
        }
        assert forall|a: int, b: int| 0 <= a < all.len() && 0 <= b < all.len() && a != b implies all[a]
            != all[b] by {
            lemma_one_category_per_flag(all[a], category);
            if a < before.len() && b < before.len() {
                assert(before[a] != before[b]);
            } else if a >= before.len() && b >= before.len() {
                assert(added[a - before.len()] != added[b - before.len()]);
            } else {
                let (low, high) = if a < b {
                    (a, b)
                } else {
                    (b, a)
                };
                assert(all[low] == before[low]);
                assert(all[high] == added[high - before.len()]);
                let j = choose|j: int|
                    0 <= j < count - 1 && category_of(before[low]) == all_categories()[j];
                assert(all_categories()[j] != all_categories()[count - 1]);
            }
        }
    }
}

/// The definitions of the program are well formed: every flag is declared
/// once, and no override group spans two categories.
pub proof fn lemma_standard_definitions_well_formed()
    ensures
        well_formed(standard_definitions()),
{
    lemma_standard_prefix(all_categories().len() as int);
    let definitions = standard_definitions();
    assert forall|i: int| 0 <= i < definitions.len() implies group_within(
        (#[trigger] definitions[i]).override_group,
        definitions[i].surface_names,
    ) by {
        let category = all_categories()[i];
        lemma_overrides_within_category(category);
        assert forall|k: int| 0 <= k < overrides_of(category).len() implies surfaces_of(
            category,
        ).contains(#[trigger] overrides_of(category)[k]) by {
            lemma_one_category_per_flag(overrides_of(category)[k], category);
        }
    }
}

/// The definitions of the program declare every flag, in the order in
/// which the flags are declared.
pub proof fn lemma_standard_registers_all_flags()
    ensures
        registered(standard_definitions()) == all_flags(),
{
    let d = standard_definitions();
    assert(d.len() == 11);
    assert(standard_prefix(0) =~= Seq::<DefinitionView>::empty());
    assert(registered(standard_prefix(0)) =~= Seq::<Flag>::empty());
    lemma_registered_step(1);
    lemma_registered_step(2);
    lemma_registered_step(3);
    lemma_registered_step(4);
    lemma_registered_step(5);
    lemma_registered_step(6);
    lemma_registered_step(7);
    lemma_registered_step(8);
    lemma_registered_step(9);
    lemma_registered_step(10);
    lemma_registered_step(11);
    assert(registered(standard_prefix(11)) =~= all_flags());
}

/// The definitions of the first `count` categories declare the flags of
/// the categories before the last of them, then the flags of that one.
pub proof fn lemma_registered_step(count: int)
    requires
        0 < count <= all_categories().len(),
    ensures
        registered(standard_prefix(count)) == registered(standard_prefix(count - 1)) + surfaces_of(
            all_categories()[count - 1],
        ),
{
    assert(standard_prefix(count).drop_last() =~= standard_prefix(count - 1));
}

/// The declarations of the categories of a command line, checked as they
/// are made.
#[derive(Debug)]
pub struct FlagSchema {
    definitions: Vec<FlagDefinition>,
}

impl View for FlagSchema {
    type V = Seq<DefinitionView>;

    closed spec fn view(&self) -> Seq<DefinitionView> {
        definition_views(self.definitions@)
    }
}

/// Whether the flag is among the given flags.
fn has_flag(flags: &Vec<Flag>, flag: Flag) -> (found: bool)
    ensures
        found == flags@.contains(flag),
{
    let mut i: usize = 0;
    while i < flags.len()
        invariant
            i <= flags.len(),
            forall|k: int| 0 <= k < i ==> flags[k] != flag,
        decreases flags.len() - i,
    {
        if flags[i] == flag {
            return true;
        }
        i = i + 1;
    }
    false
}

/// The position of the first flag that also occurs later in the list, if
/// any flag occurs twice.
fn first_repeated_flag(flags: &Vec<Flag>) -> (found: Option<usize>)
    ensures
        found is None <==> flags@.no_duplicates(),
        found matches Some(i) ==> first_repeated_at(flags@, i as int),
{
    let mut i: usize = 0;
    while i < flags.len()
        invariant
            i <= flags.len(),
            forall|a: int, b: int| 0 <= a < i && a < b < flags.len() ==> flags[a] != flags[b],
        decreases flags.len() - i,
    {
        let mut j: usize = i + 1;
        while j < flags.len()
            invariant
                i < j <= flags.len(),
                forall|a: int, b: int| 0 <= a < i && a < b < flags.len() ==> flags[a] != flags[b],
                forall|b: int| i < b < j ==> flags[i as int] != flags[b],
            decreases flags.len() - j,
        {
            if flags[i] == flags[j] {
                return Some(i);
            }
            j = j + 1;
        }
        i = i + 1;
    }
    None
}

/// The position of the first flag of the group that is not among the
/// given flags, if there is one.
fn first_outside(group: &Vec<Flag>, surface_names: &Vec<Flag>) -> (found: Option<usize>)
    ensures
        found is None <==> group_within(group@, surface_names@),
        found matches Some(k) ==> first_outside_at(group@, surface_names@, k as int),
{
    let mut k: usize = 0;
    while k < group.len()
        invariant
            k <= group.len(),
            forall|m: int| 0 <= m < k ==> surface_names@.contains(#[trigger] group[m]),
        decreases group.len() - k,
    {
        if !has_flag(surface_names, group[k]) {
            return Some(k);
        }
        k = k + 1;
    }
    None
}

impl FlagSchema {
    #[verifier::type_invariant]
    closed spec fn checked(&self) -> bool {
        well_formed(definition_views(self.definitions@))
    }

    /// The schema without any declaration.
    pub fn new() -> (schema: FlagSchema)
        ensures
            schema@ == Seq::<DefinitionView>::empty(),
            well_formed(schema@),
    {
        let schema = FlagSchema { definitions: Vec::new() };
        assert(schema@ =~= Seq::<DefinitionView>::empty());
        schema
    }

    /// All the flags declared so far, in order.
    pub fn registered_flags(&self) -> (flags: Vec<Flag>)
        ensures
            flags@ == registered(self@),
            flags@.no_duplicates(),
    {
        proof {
            use_type_invariant(self);
        }
        let ghost views = definition_views(self.definitions@);
        let mut flags: Vec<Flag> = Vec::new();
        let mut i: usize = 0;
        assert(views.take(0) =~= Seq::<DefinitionView>::empty());
        while i < self.definitions.len()
            invariant
                i <= self.definitions.len(),
                views == definition_views(self.definitions@),
                flags@ == registered(views.take(i as int)),
            decreases self.definitions.len() - i,
        {
            let names = &self.definitions[i].surface_names;
            let ghost before = flags@;
            let mut k: usize = 0;
            while k < names.len()
                invariant
                    k <= names.len(),
                    flags@ == before + names@.take(k as int),
                decreases names.len() - k,
            {
                flags.push(names[k]);
                assert(names@.take(k as int + 1) =~= names@.take(k as int).push(names[k as int]));
                assert(flags@ =~= before + names@.take(k as int + 1));
                k = k + 1;
            }
            proof {
                assert(names@.take(k as int) =~= names@);
                assert(views.take(i as int + 1).drop_last() =~= views.take(i as int));
                assert(views.take(i as int + 1).last().surface_names == names@);
            }
            i = i + 1;
        }
        assert(views.take(i as int) =~= views);
        flags
    }

    /// Declares one more category. The declaration is refused where a flag
    /// would be declared twice, by an earlier declaration and this one or
    /// twice in this one: the error names the first flag, in the order of
    /// declaration, that occurs again. Else it is refused where its
    /// override group holds a flag that is not one of its own: the error
    /// names the first such flag of the group. Where it is accepted, the
    /// schema holds the declarations it had and then this one.
    pub fn declare(
        self,
        category: Category,
        surface_names: Vec<Flag>,
        override_group: Vec<Flag>,
        value_kind: ValueKind,
        default: Option<SettingValue>,
    ) -> (made: Result<FlagSchema, SchemaError>)
        ensures
            match made {
                Ok(schema) => {
                    &&& (registered(self@) + surface_names@).no_duplicates()
                    &&& group_within(override_group@, surface_names@)
                    &&& well_formed(schema@)
                    &&& schema@ == self@.push(
                        DefinitionView {
                            category,
                            canonical_name: canonical_name_of(category),
                            surface_names: surface_names@,
                            override_group: override_group@,
                            value_kind,
                            default: optional_value_view(default),
                        },
                    )
                },
                Err(SchemaError::DuplicateSurfaceName(flag)) => exists|i: int|
                    first_repeated_at(registered(self@) + surface_names@, i) && (registered(self@)
                        + surface_names@)[i] == flag,
                Err(SchemaError::GroupSpansCategories(flag)) => {
                    &&& (registered(self@) + surface_names@).no_duplicates()
                    &&& exists|k: int|
                        first_outside_at(override_group@, surface_names@, k) && override_group@[k]
                            == flag
                },
            },
    {
        proof {
            use_type_invariant(&self);
        }
        let mut declared = self.registered_flags();
        let ghost earlier = declared@;
        let mut k: usize = 0;
        while k < surface_names.len()
            invariant
                k <= surface_names.len(),
                declared@ == earlier + surface_names@.take(k as int),
            decreases surface_names.len() - k,
        {
            declared.push(surface_names[k]);
            assert(surface_names@.take(k as int + 1) =~= surface_names@.take(k as int).push(
                surface_names[k as int],
            ));
            assert(declared@ =~= earlier + surface_names@.take(k as int + 1));
            k = k + 1;
        }
        assert(surface_names@.take(k as int) =~= surface_names@);
        match first_repeated_flag(&declared) {
            Some(i) => {
                return Err(SchemaError::DuplicateSurfaceName(declared[i]));
            },
            None => {},
        }
        match first_outside(&override_group, &surface_names) {
            Some(k) => {
                return Err(SchemaError::GroupSpansCategories(override_group[k]));
            },
            None => {},
        }
        let ghost before = definition_views(self.definitions@);
        let definition = FlagDefinition {
            category,
            canonical_name: category.canonical_name().to_owned(),
            surface_names,
            override_group,
            value_kind,
            default,
        };
        let mut definitions = self.definitions;
        definitions.push(definition);
        proof {
            let after = definition_views(definitions@);
            assert(after =~= before.push(definition@));
            assert(after.drop_last() =~= before);
            assert forall|i: int| 0 <= i < after.len() implies group_within(
                (#[trigger] after[i]).override_group,
                after[i].surface_names,
            ) by {
                if i < before.len() {
                    assert(after[i] == before[i]);
                }
            }
        }
        Ok(FlagSchema { definitions })
    }

    /// The declarations, in the order in which they were made.
    pub fn definitions(&self) -> (definitions: &Vec<FlagDefinition>)
        ensures
            definition_views(definitions@) == self@,
            well_formed(self@),
    {
        proof {
            use_type_invariant(self);
        }
        &self.definitions
    }

    /// The schema of the program: one declaration for each category, in
    /// the order of the categories, with the category's flags, override
    /// group, kind and default.
    pub fn standard() -> (schema: FlagSchema)
        ensures
            schema@ == standard_definitions(),
            well_formed(schema@),
    {
        let categories = Category::all();
        let defaults = ResolvedSettings::defaults();
        let mut definitions: Vec<FlagDefinition> = Vec::new();
        let mut i: usize = 0;
        assert(definition_views(definitions@) =~= standard_prefix(0));
        while i < categories.len()
            invariant
                i <= categories.len(),
                categories@ == all_categories(),
                defaults@ == default_settings(),
                definition_views(definitions@) == standard_prefix(i as int),
            decreases categories.len() - i,
        {
            let category = categories[i];
            let ghost before = definition_views(definitions@);
            let definition = FlagDefinition {
                category,
                canonical_name: category.canonical_name().to_owned(),
                surface_names: category.surfaces(),
                override_group: category.overrides(),
                value_kind: category.value_kind(),
                default: defaults.value_of(category),
            };
            definitions.push(definition);
            assert(definition_views(definitions@) =~= before.push(definition@));
            assert(definition_views(definitions@) =~= standard_prefix(i as int + 1));
            i = i + 1;
        }
        proof {
            lemma_standard_definitions_well_formed();
        }
        FlagSchema { definitions }
    }
}

} // verus!
