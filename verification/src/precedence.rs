use crate::schema::{
    category_of, flag_named, lemma_flag_named_by_long_name, long_name_of, Category, Flag,
};
use crate::settings::{
    default_settings, flag_value, resolve_all, resolve_from, value_category, value_in, with_value,
    InvalidValueView, SettingValueView, SettingsView,
};
use vstd::prelude::*;

verus! {

/// With no flag supplied, every category has its default.
pub proof fn lemma_no_flag_gives_defaults()
    ensures
        resolve_all(Seq::<(Seq<char>, Seq<char>)>::empty()) == Ok::<SettingsView, InvalidValueView>(
            default_settings(),
        ),
{
}

/// The value that a flag stands for belongs to the category that the flag
/// writes into.
pub proof fn lemma_value_in_flag_category(flag: Flag, raw: Seq<char>)
    requires
        flag_value(flag, raw) is Some,
    ensures
        value_category(flag_value(flag, raw)->0) == category_of(flag),
{
}

/// Writing a value of a single-valued category sets that category to the
/// value and leaves every other category, and the keymap entries, as they
/// were.
pub proof fn lemma_with_value_frame(settings: SettingsView, value: SettingValueView)
    requires
        value_category(value) != Category::Keymap,
    ensures
        value_in(with_value(settings, value), value_category(value)) == Some(value),
        forall|other: Category|
            other != value_category(value) ==> value_in(with_value(settings, value), other)
                == value_in(settings, other),
        with_value(settings, value).mappings == settings.mappings,
{
}

/// A flag written after all the others decides its category, whatever was
/// written before it, and changes no other category.
pub proof fn lemma_later_flag_wins(supplied: Seq<(Seq<char>, Seq<char>)>, flag: Flag, raw: Seq<char>)
    requires
        resolve_all(supplied) is Ok,
        flag_value(flag, raw) is Some,
        category_of(flag) != Category::Keymap,
    ensures
        resolve_all(supplied.push((long_name_of(flag), raw))) matches Ok(after) && value_in(
            after,
            category_of(flag),
        ) == flag_value(flag, raw) && (forall|other: Category|
            other != category_of(flag) ==> value_in(after, other) == value_in(
                resolve_all(supplied)->Ok_0,
                other,
            )),
{
    let longer = supplied.push((long_name_of(flag), raw));
    assert(longer.drop_last() =~= supplied);
    lemma_flag_named_by_long_name(flag);
    lemma_value_in_flag_category(flag, raw);
    lemma_with_value_frame(resolve_all(supplied)->Ok_0, flag_value(flag, raw)->0);
}

/// Of two flags of one category, the one written later stands: the order
/// decides, not which of the two flags it is.
pub proof fn lemma_order_decides(a: Flag, raw_a: Seq<char>, b: Flag, raw_b: Seq<char>)
    requires
        category_of(a) == category_of(b),
        category_of(a) != Category::Keymap,
        flag_value(a, raw_a) is Some,
        flag_value(b, raw_b) is Some,
    ensures
        resolve_all(seq![(long_name_of(a), raw_a), (long_name_of(b), raw_b)]) matches Ok(s)
            && value_in(s, category_of(a)) == flag_value(b, raw_b),
        resolve_all(seq![(long_name_of(b), raw_b), (long_name_of(a), raw_a)]) matches Ok(s)
            && value_in(s, category_of(a)) == flag_value(a, raw_a),
{
    let none = Seq::<(Seq<char>, Seq<char>)>::empty();
    let first_a = none.push((long_name_of(a), raw_a));
    let first_b = none.push((long_name_of(b), raw_b));
    lemma_later_flag_wins(none, a, raw_a);
    lemma_later_flag_wins(none, b, raw_b);
    lemma_later_flag_wins(first_a, b, raw_b);
    lemma_later_flag_wins(first_b, a, raw_a);
    assert(first_a.push((long_name_of(b), raw_b)) =~= seq![
        (long_name_of(a), raw_a),
        (long_name_of(b), raw_b),
    ]);
    assert(first_b.push((long_name_of(a), raw_a)) =~= seq![
        (long_name_of(b), raw_b),
        (long_name_of(a), raw_a),
    ]);
}

/// Two spellings that stand for the same value are interchangeable: where
/// one is written in place of the other, at any position, the outcome is
/// the same.
pub proof fn lemma_same_value_same_outcome(
    start: SettingsView,
    supplied: Seq<(Seq<char>, Seq<char>)>,
    i: int,
    name: Seq<char>,
    raw: Seq<char>,
)
    requires
        0 <= i < supplied.len(),
        flag_named(supplied[i].0) is Some,
        flag_named(name) is Some,
        flag_value(flag_named(supplied[i].0)->0, supplied[i].1) is Some,
        flag_value(flag_named(supplied[i].0)->0, supplied[i].1) == flag_value(
            flag_named(name)->0,
            raw,
        ),
    ensures
        resolve_from(start, supplied.update(i, (name, raw))) == resolve_from(start, supplied),
    decreases supplied.len(),
{
    let changed = supplied.update(i, (name, raw));
    if i == supplied.len() - 1 {
        assert(changed.drop_last() =~= supplied.drop_last());
    } else {
        assert(changed.drop_last() =~= supplied.drop_last().update(i, (name, raw)));
        assert(changed.last() == supplied.last());
        lemma_same_value_same_outcome(start, supplied.drop_last(), i, name, raw);
    }
}

/// What the deprecated flags stand for: `folders-only` for `files` with
/// `hide`, `no-folders-only` for `files` with `ignore`, `no-gap-search`
/// for `normal-search`, whatever text follows them.
pub proof fn lemma_deprecated_flags(raw: Seq<char>, other: Seq<char>)
    ensures
        flag_value(Flag::FoldersOnly, raw) is Some,
        flag_value(Flag::FoldersOnly, raw) == flag_value(Flag::Files, "hide"@),
        flag_value(Flag::NoFoldersOnly, raw) is Some,
        flag_value(Flag::NoFoldersOnly, raw) == flag_value(Flag::Files, "ignore"@),
        flag_value(Flag::NoGapSearch, raw) is Some,
        flag_value(Flag::NoGapSearch, raw) == flag_value(Flag::NormalSearch, other),
{
    reveal_strlit("hide");
    reveal_strlit("ignore");
    reveal_strlit("i");
    assert("hide"@.len() == 4 && "ignore"@.len() == 6 && "i"@.len() == 1);
}

/// A deprecated flag and the flag that replaced it are interchangeable:
/// where `folders-only` is written, `files` with `hide` gives the same
/// settings, at any position among the other flags. The same holds of
/// `no-folders-only` and `files` with `ignore`, and of `no-gap-search` and
/// `normal-search`.
pub proof fn lemma_deprecated_flag_is_interchangeable(supplied: Seq<(Seq<char>, Seq<char>)>, i: int)
    requires
        0 <= i < supplied.len(),
    ensures
        supplied[i].0 == long_name_of(Flag::FoldersOnly) ==> resolve_all(
            supplied.update(i, (long_name_of(Flag::Files), "hide"@)),
        ) == resolve_all(supplied),
        supplied[i].0 == long_name_of(Flag::NoFoldersOnly) ==> resolve_all(
            supplied.update(i, (long_name_of(Flag::Files), "ignore"@)),
        ) == resolve_all(supplied),
        supplied[i].0 == long_name_of(Flag::NoGapSearch) ==> resolve_all(
            supplied.update(i, (long_name_of(Flag::NormalSearch), supplied[i].1)),
        ) == resolve_all(supplied),
{
    lemma_deprecated_flags(supplied[i].1, supplied[i].1);
    lemma_flag_named_by_long_name(Flag::FoldersOnly);
    lemma_flag_named_by_long_name(Flag::NoFoldersOnly);
    lemma_flag_named_by_long_name(Flag::NoGapSearch);
    lemma_flag_named_by_long_name(Flag::Files);
    lemma_flag_named_by_long_name(Flag::NormalSearch);
    if supplied[i].0 == long_name_of(Flag::FoldersOnly) {
        lemma_same_value_same_outcome(
            default_settings(),
            supplied,
            i,
            long_name_of(Flag::Files),
            "hide"@,
        );
    }
    if supplied[i].0 == long_name_of(Flag::NoFoldersOnly) {
        lemma_same_value_same_outcome(
            default_settings(),
            supplied,
            i,
            long_name_of(Flag::Files),
            "ignore"@,
        );
    }
    if supplied[i].0 == long_name_of(Flag::NoGapSearch) {
        lemma_same_value_same_outcome(
            default_settings(),
            supplied,
            i,
            long_name_of(Flag::NormalSearch),
            supplied[i].1,
        );
    }
}

/// Whether the supplied flag at `i` writes into the category.
pub open spec fn writes_into(supplied: Seq<(Seq<char>, Seq<char>)>, i: int, category: Category) -> bool {
    flag_named(supplied[i].0) matches Some(flag) && category_of(flag) == category
}

/// For each single-valued category, the last supplied flag that writes
/// into it decides its value.
pub proof fn lemma_last_occurrence_decides(
    start: SettingsView,
    supplied: Seq<(Seq<char>, Seq<char>)>,
    category: Category,
    last: int,
)
    requires
        resolve_from(start, supplied) is Ok,
        category != Category::Keymap,
        0 <= last < supplied.len(),
        writes_into(supplied, last, category),
        forall|j: int| last < j < supplied.len() ==> !#[trigger] writes_into(supplied, j, category),
    ensures
        value_in(resolve_from(start, supplied)->Ok_0, category) == flag_value(
            flag_named(supplied[last].0)->0,
            supplied[last].1,
        ),
    decreases supplied.len(),
{
    let before = supplied.drop_last();
    if last == supplied.len() - 1 {
        let flag = flag_named(supplied[last].0)->0;
        lemma_value_in_flag_category(flag, supplied[last].1);
        lemma_with_value_frame(
            resolve_from(start, before)->Ok_0,
            flag_value(flag, supplied[last].1)->0,
        );
    } else {
        assert(before[last] == supplied[last]);
        assert forall|j: int| last < j < before.len() implies !#[trigger] writes_into(
            before,
            j,
            category,
        ) by {
            assert(before[j] == supplied[j]);
            assert(!writes_into(supplied, j, category));
        }
        lemma_last_occurrence_decides(start, before, category, last);
        assert(!writes_into(supplied, supplied.len() - 1, category));
        match flag_named(supplied.last().0) {
            None => {},
            Some(flag) => {
                lemma_value_in_flag_category(flag, supplied.last().1);
                if category_of(flag) != Category::Keymap {
                    lemma_with_value_frame(
                        resolve_from(start, before)->Ok_0,
                        flag_value(flag, supplied.last().1)->0,
                    );
                }
            },
        }
    }
}

/// A single-valued category into which no supplied flag writes keeps the
/// value it started with: the default.
pub proof fn lemma_unsupplied_category_keeps_start(
    start: SettingsView,
    supplied: Seq<(Seq<char>, Seq<char>)>,
    category: Category,
)
    requires
        resolve_from(start, supplied) is Ok,
        forall|j: int| 0 <= j < supplied.len() ==> !#[trigger] writes_into(supplied, j, category),
    ensures
        value_in(resolve_from(start, supplied)->Ok_0, category) == value_in(start, category),
    decreases supplied.len(),
{
    if supplied.len() > 0 {
        let before = supplied.drop_last();
        assert forall|j: int| 0 <= j < before.len() implies !#[trigger] writes_into(
            before,
            j,
            category,
        ) by {
            assert(before[j] == supplied[j]);
            assert(!writes_into(supplied, j, category));
        }
        lemma_unsupplied_category_keeps_start(start, before, category);
        assert(!writes_into(supplied, supplied.len() - 1, category));
        match flag_named(supplied.last().0) {
            None => {},
            Some(flag) => {
                lemma_value_in_flag_category(flag, supplied.last().1);
                if category_of(flag) != Category::Keymap {
                    lemma_with_value_frame(
                        resolve_from(start, before)->Ok_0,
                        flag_value(flag, supplied.last().1)->0,
                    );
                }
            },
        }
    }
}

/// The values of the supplied keymap flags, in the order written.
pub open spec fn mapping_values(supplied: Seq<(Seq<char>, Seq<char>)>) -> Seq<Seq<char>>
    decreases supplied.len(),
{
    if supplied.len() == 0 {
        Seq::<Seq<char>>::empty()
    } else if flag_named(supplied.last().0) == Some(Flag::Mapping) {
        mapping_values(supplied.drop_last()).push(supplied.last().1)
    } else {
        mapping_values(supplied.drop_last())
    }
}

/// The keymap entries of the settings are the values of all the keymap
/// flags, in the order written: none overrides another.
pub proof fn lemma_mappings_accumulate(supplied: Seq<(Seq<char>, Seq<char>)>)
    requires
        resolve_all(supplied) is Ok,
    ensures
        resolve_all(supplied)->Ok_0.mappings == mapping_values(supplied),
    decreases supplied.len(),
{
    if supplied.len() > 0 {
        lemma_mappings_accumulate(supplied.drop_last());
    }
}

} // verus!
