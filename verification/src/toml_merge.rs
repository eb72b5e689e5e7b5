//! Laying one TOML document over another, finding it there, and taking it out again.

use vstd::prelude::*;

use crate::text::same_text;
use crate::toml_doc::{
    absent_item, array_is_empty, array_remove, array_values, inline_get, inline_keys, is_absent,
    is_table_like, item_array_mut, item_copy, item_get, item_get_mut, item_insert, item_is_empty,
    item_keys, item_remove, item_value, value_array, value_bool, value_datetime, value_float_bits,
    value_inline, value_integer, value_text,
};

verus! {

use crate::json::float_eq;
use crate::toml_doc::{
    array_items, array_layout, entry_at, has_entry, inline_entries, item_layout, item_tree,
    lemma_well_formed_array, lemma_well_formed_table, value_tree, value_trees, EntryLayout, Layout,
    TomlTree,
};
use crate::toml_layout::{
    left_items, left_layout, left_so_far, lemma_all_left_out, lemma_key_goes, lemma_key_missing,
    lemma_key_stays, lemma_nothing_left_out, merged_entries, merged_layout,
};

/// Whether `target` contains `source`: a table contains another that has a part of
/// its entries, each contained in its own, whatever the notation of the two; an
/// array contains another whose items can be claimed one by one; any other value
/// contains its equals. An array of tables is contained in nothing.
pub open spec fn toml_contains(target: TomlTree, source: TomlTree) -> bool
    decreases source, 0nat,
{
    match source {
        TomlTree::Table(wanted) => target.is_table_like() && forall|key: Seq<char>| #[trigger]
            wanted.contains_key(key) ==> target.table().contains_key(key) && toml_contains(
                target.table()[key],
                wanted[key],
            ),
        TomlTree::Inline(wanted) => target.is_table_like() && forall|key: Seq<char>| #[trigger]
            wanted.contains_key(key) ==> target.table().contains_key(key) && toml_contains(
                target.table()[key],
                wanted[key],
            ),
        TomlTree::Array(wanted) => match target {
            TomlTree::Array(have) => toml_claims(have, Set::empty(), wanted, 0),
            _ => false,
        },
        TomlTree::Float(wanted) => match target {
            TomlTree::Float(have) => float_eq(have, wanted),
            _ => false,
        },
        TomlTree::Absent => false,
        TomlTree::TableArray(_) => false,
        _ => target == source,
    }
}

/// Whether the items of `wanted` from `from` on each find an item of `have` that
/// contains them: in order, each claims the first such item that is not `taken`.
pub open spec fn toml_claims(
    have: Seq<TomlTree>,
    taken: Set<int>,
    wanted: Seq<TomlTree>,
    from: nat,
) -> bool
    decreases wanted, wanted.len() - from,
{
    from >= wanted.len() || exists|i: int|
        {
            &&& 0 <= i < have.len() && !taken.contains(i)
            &&& toml_contains(#[trigger] have[i], wanted[from as int])
            &&& forall|j: int|
                0 <= j < i && !taken.contains(j) ==> !toml_contains(
                    #[trigger] have[j],
                    wanted[from as int],
                )
            &&& toml_claims(have, taken.insert(i), wanted, from + 1)
        }
}

/// Whether `i` is the first item of `have` that contains `wanted`.
pub open spec fn toml_is_first_holder(have: Seq<TomlTree>, wanted: TomlTree, i: int) -> bool {
    &&& 0 <= i < have.len()
    &&& toml_contains(have[i], wanted)
    &&& forall|j: int| 0 <= j < i ==> !toml_contains(#[trigger] have[j], wanted)
}

/// `have` after each item of `wanted` from `from` on has in turn taken out the
/// first item that contains it, where there is one.
pub open spec fn toml_without_items(
    have: Seq<TomlTree>,
    wanted: Seq<TomlTree>,
    from: nat,
) -> Seq<TomlTree>
    decreases wanted.len() - from,
{
    if from >= wanted.len() {
        have
    } else if exists|i: int| toml_is_first_holder(have, wanted[from as int], i) {
        let i = choose|i: int| toml_is_first_holder(have, wanted[from as int], i);
        toml_without_items(have.remove(i), wanted, from + 1)
    } else {
        toml_without_items(have, wanted, from + 1)
    }
}

/// `source` laid over `target`: tables are joined key by key in the notation of
/// `target`, anything else of `source` takes the place of what `target` had. What
/// comes new into an inline table is written inline.
pub open spec fn toml_merged(target: TomlTree, source: TomlTree) -> TomlTree
    decreases source, 1nat,
{
    if target.is_table_like() && source.is_table_like() {
        target.with_table(merged_table(target, source))
    } else {
        source
    }
}

/// The entries of the table `target` with those of the table `source` laid over.
pub open spec fn merged_table(target: TomlTree, source: TomlTree) -> Map<Seq<char>, TomlTree>
    decreases source, 0nat,
{
    let old = target.table();
    match source {
        TomlTree::Table(new) => Map::new(
            |key: Seq<char>| old.contains_key(key) || new.contains_key(key),
            |key: Seq<char>|
                if !new.contains_key(key) {
                    old[key]
                } else if old.contains_key(key) {
                    toml_merged(old[key], new[key])
                } else {
                    newcomer(target, new[key])
                },
        ),
        TomlTree::Inline(new) => Map::new(
            |key: Seq<char>| old.contains_key(key) || new.contains_key(key),
            |key: Seq<char>|
                if !new.contains_key(key) {
                    old[key]
                } else if old.contains_key(key) {
                    toml_merged(old[key], new[key])
                } else {
                    newcomer(target, new[key])
                },
        ),
        _ => old,
    }
}

/// An item as it comes new into the table `target`.
pub open spec fn newcomer(target: TomlTree, item: TomlTree) -> TomlTree {
    if target is Inline {
        item.as_value()
    } else {
        item
    }
}

/// What is left of an item when `source` is taken out of it; nothing, when all of
/// it goes.
pub open spec fn toml_remainder(target: TomlTree, source: TomlTree) -> Option<TomlTree>
    decreases source, 1nat,
{
    if target.is_table_like() && source.is_table_like() {
        let kept = kept_table(target, source);
        if kept == Map::<Seq<char>, TomlTree>::empty() {
            None
        } else {
            Some(target.with_table(kept))
        }
    } else if target is Array && source is Array {
        let kept = toml_without_items(target->Array_0, source->Array_0, 0);
        if kept.len() == 0 {
            None
        } else {
            Some(TomlTree::Array(kept))
        }
    } else if toml_contains(target, source) {
        None
    } else {
        Some(target)
    }
}

/// The entries of the table `target` that are left when the table `source` is taken
/// out of it. An empty table goes, whatever `source` has under its key.
pub open spec fn kept_table(target: TomlTree, source: TomlTree) -> Map<Seq<char>, TomlTree>
    decreases source, 0nat,
{
    let old = target.table();
    match source {
        TomlTree::Table(gone) => Map::new(
            |key: Seq<char>|
                old.contains_key(key) && (gone.contains_key(key) ==> !old[key].is_empty_table()
                    && toml_remainder(old[key], gone[key]) is Some),
            |key: Seq<char>|
                if gone.contains_key(key) {
                    toml_remainder(old[key], gone[key])->0
                } else {
                    old[key]
                },
        ),
        TomlTree::Inline(gone) => Map::new(
            |key: Seq<char>|
                old.contains_key(key) && (gone.contains_key(key) ==> !old[key].is_empty_table()
                    && toml_remainder(old[key], gone[key]) is Some),
            |key: Seq<char>|
                if gone.contains_key(key) {
                    toml_remainder(old[key], gone[key])->0
                } else {
                    old[key]
                },
        ),
        _ => old,
    }
}

/// The table `target` with the table `source` taken out.
pub open spec fn toml_removed(target: TomlTree, source: TomlTree) -> TomlTree {
    target.with_table(kept_table(target, source))
}

/// The next item of `wanted` claims the first free item that contains it.
proof fn lemma_toml_claims_step(
    have: Seq<TomlTree>,
    taken: Set<int>,
    wanted: Seq<TomlTree>,
    from: nat,
    i: int,
)
    requires
        from < wanted.len(),
        0 <= i < have.len() && !taken.contains(i),
        toml_contains(have[i], wanted[from as int]),
        forall|j: int|
            0 <= j < i && !taken.contains(j) ==> !toml_contains(
                #[trigger] have[j],
                wanted[from as int],
            ),
    ensures
        toml_claims(have, taken, wanted, from) == toml_claims(
            have,
            taken.insert(i),
            wanted,
            from + 1,
        ),
{
}

/// What containment says of two tables, whatever their notation.
proof fn lemma_contains_table(target: TomlTree, source: TomlTree)
    requires
        target.is_table_like(),
        source.is_table_like(),
    ensures
        toml_contains(target, source) <==> forall|key: Seq<char>| #[trigger]
            source.table().contains_key(key) ==> target.table().contains_key(key) && toml_contains(
                target.table()[key],
                source.table()[key],
            ),
{
    match source {
        TomlTree::Table(wanted) => {
            assert(source.table() == wanted);
        },
        TomlTree::Inline(wanted) => {
            assert(source.table() == wanted);
        },
        _ => {},
    }
}

/// An entry of a table is smaller than the table.
pub proof fn lemma_entry_is_smaller(t: TomlTree, key: Seq<char>)
    requires
        t.table().contains_key(key),
    ensures
        decreases_to!(t => t.table()[key]),
{
    match t {
        TomlTree::Table(map) => {
            assert(decreases_to!(t => t->Table_0[key]));
        },
        TomlTree::Inline(map) => {
            assert(decreases_to!(t => t->Inline_0[key]));
        },
        _ => {},
    }
}

/// Whether the value `target` contains the value `source`.
pub(crate) fn toml_value_is_subset(
    target: &toml_edit::Value,
    source: &toml_edit::Value,
) -> (result: bool)
    requires
        value_tree(*target).is_value() && value_tree(*target).well_formed(),
        value_tree(*source).is_value() && value_tree(*source).well_formed(),
    ensures
        result == toml_contains(value_tree(*target), value_tree(*source)),
    decreases value_tree(*source), 0nat,
{
    if let Some(wanted) = value_text(source) {
        match value_text(target) {
            Some(have) => same_text(have, wanted),
            None => false,
        }
    } else if let Some(wanted) = value_integer(source) {
        match value_integer(target) {
            Some(have) => have == wanted,
            None => false,
        }
    } else if let Some(wanted) = value_float_bits(source) {
        match value_float_bits(target) {
            Some(have) => floats_equal(have, wanted),
            None => false,
        }
    } else if let Some(wanted) = value_bool(source) {
        match value_bool(target) {
            Some(have) => have == wanted,
            None => false,
        }
    } else if let Some(wanted) = value_datetime(source) {
        match value_datetime(target) {
            Some(have) => have == wanted,
            None => false,
        }
    } else if let Some(wanted) = value_array(source) {
        match value_array(target) {
            Some(have) => {
                assert(decreases_to!(value_tree(*source) => value_tree(*source)->Array_0));
                toml_array_contains_subset(have, wanted)
            },
            None => false,
        }
    } else if let Some(wanted) = value_inline(source) {
        let have = match value_inline(target) {
            Some(have) => have,
            None => {
                return false;
            },
        };
        proof {
            lemma_contains_table(value_tree(*target), value_tree(*source));
            assert(value_tree(*source).table() == inline_entries(*wanted));
            assert(value_tree(*target).table() == inline_entries(*have));
        }
        let keys = inline_keys(wanted);
        let mut n: usize = 0;
        while n < keys.len()
            invariant
                n <= keys.len(),
                value_tree(*source) == TomlTree::Inline(inline_entries(*wanted)),
                value_tree(*target) == TomlTree::Inline(inline_entries(*have)),
                value_tree(*source).well_formed(),
                value_tree(*target).well_formed(),
                toml_contains(value_tree(*target), value_tree(*source)) <==> forall|key: Seq<char>|
                    #[trigger]
                    inline_entries(*wanted).contains_key(key) ==> inline_entries(
                        *have,
                    ).contains_key(key) && toml_contains(
                        inline_entries(*have)[key],
                        inline_entries(*wanted)[key],
                    ),
                forall|i: int|
                    0 <= i < keys@.len() ==> inline_entries(*wanted).contains_key(
                        #[trigger] keys@[i]@,
                    ),
                forall|i: int|
                    0 <= i < n ==> inline_entries(*have).contains_key(#[trigger] keys@[i]@)
                        && toml_contains(
                        inline_entries(*have)[keys@[i]@],
                        inline_entries(*wanted)[keys@[i]@],
                    ),
            decreases keys.len() - n,
        {
            let key = keys[n].as_str();
            assert(inline_entries(*wanted).contains_key(key@));
            let contained = match (inline_get(have, key), inline_get(wanted, key)) {
                (Some(have_value), Some(wanted_value)) => {
                    proof {
                        lemma_well_formed_table(value_tree(*target));
                        lemma_well_formed_table(value_tree(*source));
                        lemma_entry_is_smaller(value_tree(*source), key@);
                    }
                    toml_value_is_subset(have_value, wanted_value)
                },
                _ => false,
            };
            if !contained {
                assert(!toml_contains(value_tree(*target), value_tree(*source)));
                return false;
            }
            n += 1;
        }
        true
    } else {
        false
    }
}

/// Whether two binary64 numbers compare equal, by their bit patterns.
fn floats_equal(a: u64, b: u64) -> (result: bool)
    ensures
        result == float_eq(a, b),
{
    let zero: u64 = 0;
    let minus_zero: u64 = 0x8000_0000_0000_0000;
    let infinity: u64 = 0x7ff0_0000_0000_0000;
    let magnitude: u64 = if a >= minus_zero {
        a - minus_zero
    } else {
        a
    };
    if magnitude > infinity {
        return false;
    }
    a == b || ((a == zero || a == minus_zero) && (b == zero || b == minus_zero))
}

/// Whether the items of `source` can be claimed one by one from `target`.
pub(crate) fn toml_array_contains_subset(
    target: &toml_edit::Array,
    source: &toml_edit::Array,
) -> (result: bool)
    requires
        TomlTree::Array(array_items(*target)).well_formed(),
        TomlTree::Array(array_items(*source)).well_formed(),
    ensures
        result == toml_claims(array_items(*target), Set::empty(), array_items(*source), 0),
    decreases array_items(*source), 1nat,
{
    let ghost have = array_items(*target);
    let ghost wanted = array_items(*source);
    proof {
        lemma_well_formed_array(have);
        lemma_well_formed_array(wanted);
    }
    let target_items = array_values(target);
    let source_items = array_values(source);
    let mut matched: Vec<bool> = Vec::new();
    while matched.len() < target_items.len()
        invariant
            matched@.len() <= target_items@.len(),
            forall|i: int| 0 <= i < matched@.len() ==> !#[trigger] matched@[i],
        decreases target_items@.len() - matched@.len(),
    {
        matched.push(false);
    }
    let ghost mut taken: Set<int> = Set::empty();
    let mut n: usize = 0;
    while n < source_items.len()
        invariant
            n <= source_items.len(),
            have == value_trees(target_items@) && have == array_items(*target),
            wanted == value_trees(source_items@) && wanted == array_items(*source),
            forall|k: int|
                0 <= k < have.len() ==> (#[trigger] have[k]).is_value() && have[k].well_formed(),
            forall|k: int|
                0 <= k < wanted.len() ==> (#[trigger] wanted[k]).is_value() && wanted[k].well_formed(),
            matched@.len() == target_items@.len(),
            forall|i: int| 0 <= i < matched@.len() ==> (#[trigger] matched@[i] <==> taken.contains(i)),
            toml_claims(have, Set::empty(), wanted, 0) == toml_claims(have, taken, wanted, n as nat),
        decreases source_items.len() - n,
    {
        assert(value_tree(*source_items@[n as int]) == wanted[n as int]);
        let mut found: Option<usize> = None;
        let mut i: usize = 0;
        while i < target_items.len() && found.is_none()
            invariant
                i <= target_items.len(),
                n < source_items.len(),
                have == value_trees(target_items@),
                wanted == value_trees(source_items@),
                wanted == array_items(*source),
                forall|k: int|
                    0 <= k < have.len() ==> (#[trigger] have[k]).is_value() && have[k].well_formed(),
                forall|k: int|
                    0 <= k < wanted.len() ==> (#[trigger] wanted[k]).is_value() && wanted[k].well_formed(),
                value_tree(*source_items@[n as int]) == wanted[n as int],
                matched@.len() == target_items@.len(),
                forall|k: int|
                    0 <= k < matched@.len() ==> (#[trigger] matched@[k] <==> taken.contains(k)),
                found is None ==> forall|j: int|
                    0 <= j < i && !taken.contains(j) ==> !toml_contains(
                        #[trigger] have[j],
                        wanted[n as int],
                    ),
                found matches Some(f) ==> {
                    &&& 0 <= f < have.len() && !taken.contains(f as int)
                    &&& toml_contains(have[f as int], wanted[n as int])
                    &&& forall|j: int|
                        0 <= j < f && !taken.contains(j) ==> !toml_contains(
                            #[trigger] have[j],
                            wanted[n as int],
                        )
                },
            decreases target_items.len() - i,
        {
            assert(value_tree(*target_items@[i as int]) == have[i as int]);
            assert(decreases_to!(wanted => wanted[n as int]));
            if !matched[i] && toml_value_is_subset(target_items[i], source_items[n]) {
                found = Some(i);
            }
            i += 1;
        }
        match found {
            Some(f) => {
                matched.set(f, true);
                proof {
                    lemma_toml_claims_step(have, taken, wanted, n as nat, f as int);
                    taken = taken.insert(f as int);
                }
            },
            None => {
                return false;
            },
        }
        n += 1;
    }
    true
}

/// Whether the item `target` contains the item `source`.
pub(crate) fn toml_item_is_subset(
    target: &toml_edit::Item,
    source: &toml_edit::Item,
) -> (result: bool)
    requires
        item_tree(*target).well_formed(),
        item_tree(*source).well_formed(),
    ensures
        result == toml_contains(item_tree(*target), item_tree(*source)),
    decreases item_tree(*source),
{
    if is_table_like(source) {
        if !is_table_like(target) {
            return false;
        }
        proof {
            lemma_well_formed_table(item_tree(*target));
            lemma_well_formed_table(item_tree(*source));
            lemma_contains_table(item_tree(*target), item_tree(*source));
        }
        let keys = item_keys(source);
        let mut n: usize = 0;
        while n < keys.len()
            invariant
                n <= keys.len(),
                item_tree(*source).is_table_like(),
                item_tree(*target).is_table_like(),
                item_tree(*source).well_formed() && item_tree(*source).occupied(),
                item_tree(*target).well_formed() && item_tree(*target).occupied(),
                toml_contains(item_tree(*target), item_tree(*source)) <==> forall|key: Seq<char>|
                    #[trigger]
                    item_tree(*source).table().contains_key(key) ==> item_tree(
                        *target,
                    ).table().contains_key(key) && toml_contains(
                        item_tree(*target).table()[key],
                        item_tree(*source).table()[key],
                    ),
                forall|i: int|
                    0 <= i < keys@.len() ==> item_tree(*source).table().contains_key(
                        #[trigger] keys@[i]@,
                    ),
                forall|i: int|
                    0 <= i < n ==> item_tree(*target).table().contains_key(#[trigger] keys@[i]@)
                        && toml_contains(
                        item_tree(*target).table()[keys@[i]@],
                        item_tree(*source).table()[keys@[i]@],
                    ),
            decreases keys.len() - n,
        {
            let key = keys[n].as_str();
            assert(item_tree(*source).table().contains_key(key@));
            let contained = match (item_get(target, key), item_get(source, key)) {
                (Some(target_item), Some(source_item)) => {
                    proof {
                        lemma_well_formed_table(item_tree(*target));
                        lemma_well_formed_table(item_tree(*source));
                        lemma_entry_is_smaller(item_tree(*source), key@);
                    }
                    toml_item_is_subset(target_item, source_item)
                },
                _ => false,
            };
            if !contained {
                assert(!toml_contains(item_tree(*target), item_tree(*source)));
                return false;
            }
            n += 1;
        }
        return true;
    }
    match (item_value(target), item_value(source)) {
        (Some(target_value), Some(source_value)) => toml_value_is_subset(
            target_value,
            source_value,
        ),
        _ => false,
    }
}

/// Takes out of `target`, for each item of `source` in turn, the first item that
/// contains it.
pub(crate) fn toml_remove_array_items(target: &mut toml_edit::Array, source: &toml_edit::Array)
    requires
        TomlTree::Array(array_items(*old(target))).well_formed(),
        TomlTree::Array(array_items(*source)).well_formed(),
        array_layout(*old(target)) is Array,
    ensures
        array_items(*final(target)) == toml_without_items(
            array_items(*old(target)),
            array_items(*source),
            0,
        ),
        array_layout(*final(target)) == array_layout(*old(target)).with_items(
            left_items(
                array_layout(*old(target)).items(),
                array_items(*old(target)),
                array_items(*source),
                0,
            ),
        ),
        TomlTree::Array(array_items(*final(target))).well_formed(),
{
    let ghost wanted = array_items(*source);
    proof {
        lemma_well_formed_array(wanted);
    }
    let source_items = array_values(source);
    let mut n: usize = 0;
    while n < source_items.len()
        invariant
            n <= source_items.len(),
            wanted == value_trees(source_items@),
            forall|k: int|
                0 <= k < wanted.len() ==> (#[trigger] wanted[k]).is_value()
                    && wanted[k].well_formed(),
            TomlTree::Array(array_items(*target)).well_formed(),
            toml_without_items(array_items(*old(target)), wanted, 0) == toml_without_items(
                array_items(*target),
                wanted,
                n as nat,
            ),
            array_layout(*old(target)) is Array,
            array_layout(*target) == array_layout(*old(target)).with_items(
                array_layout(*target).items(),
            ),
            left_items(array_layout(*old(target)).items(), array_items(*old(target)), wanted, 0)
                == left_items(
                array_layout(*target).items(),
                array_items(*target),
                wanted,
                n as nat,
            ),
        decreases source_items.len() - n,
    {
        let ghost have = array_items(*target);
        proof {
            lemma_well_formed_array(have);
        }
        let found = first_holder(target, source_items[n]);
        match found {
            Some(f) => {
                array_remove(target, f);
                proof {
                    let first = choose|i: int| toml_is_first_holder(have, wanted[n as int], i);
                    lemma_toml_one_first_holder(have, wanted[n as int], f as int, first);
                    lemma_array_well_formed(array_items(*target));
                }
            },
            None => {},
        }
        n += 1;
    }
}

/// The first item of `target` that contains `wanted`.
fn first_holder(target: &toml_edit::Array, wanted: &toml_edit::Value) -> (found: Option<usize>)
    requires
        TomlTree::Array(array_items(*target)).well_formed(),
        value_tree(*wanted).is_value() && value_tree(*wanted).well_formed(),
    ensures
        found matches Some(f) ==> toml_is_first_holder(
            array_items(*target),
            value_tree(*wanted),
            f as int,
        ),
        found is None ==> forall|i: int|
            !toml_is_first_holder(array_items(*target), value_tree(*wanted), i),
{
    let ghost have = array_items(*target);
    proof {
        lemma_well_formed_array(have);
    }
    let items = array_values(target);
    let mut i: usize = 0;
    while i < items.len()
        invariant
            i <= items.len(),
            have == value_trees(items@) && have == array_items(*target),
            value_tree(*wanted).is_value() && value_tree(*wanted).well_formed(),
            forall|k: int|
                0 <= k < have.len() ==> (#[trigger] have[k]).is_value() && have[k].well_formed(),
            forall|j: int| 0 <= j < i ==> !toml_contains(#[trigger] have[j], value_tree(*wanted)),
        decreases items.len() - i,
    {
        assert(value_tree(*items@[i as int]) == have[i as int]);
        if toml_value_is_subset(items[i], wanted) {
            return Some(i);
        }
        i += 1;
    }
    None
}

/// Only one item is the first that contains `wanted`.
proof fn lemma_toml_one_first_holder(have: Seq<TomlTree>, wanted: TomlTree, i: int, j: int)
    requires
        toml_is_first_holder(have, wanted, i),
        toml_is_first_holder(have, wanted, j),
    ensures
        i == j,
{
}

/// An array of well-formed values is well formed.
proof fn lemma_array_well_formed(items: Seq<TomlTree>)
    requires
        forall|i: int|
            0 <= i < items.len() ==> (#[trigger] items[i]).is_value() && items[i].well_formed(),
    ensures
        TomlTree::Array(items).well_formed(),
{
    let t = TomlTree::Array(items);
    assert(t is Array);
    assert(t->Array_0 == items);
}

/// Lays the item `source` over the item `target`.
pub(crate) fn merge_toml_item(target: &mut toml_edit::Item, source: &toml_edit::Item)
    requires
        item_tree(*old(target)).well_formed(),
        item_tree(*source).well_formed(),
    ensures
        item_tree(*final(target)) == toml_merged(item_tree(*old(target)), item_tree(*source)),
        item_layout(*final(target)) == merged_layout(
            item_layout(*old(target)),
            item_layout(*source),
        ),
    decreases item_tree(*source), 1nat,
{
    if is_table_like(source) && is_table_like(target) {
        merge_toml_table_like(target, source);
    } else {
        *target = item_copy(source);
    }
}

/// Lays the table `source` over the table `target`.
pub(crate) fn merge_toml_table_like(target: &mut toml_edit::Item, source: &toml_edit::Item)
    requires
        item_tree(*old(target)).well_formed() && item_tree(*old(target)).is_table_like(),
        item_tree(*source).well_formed() && item_tree(*source).is_table_like(),
        item_layout(*old(target)).is_table_like() && item_layout(*source).is_table_like(),
    ensures
        item_tree(*final(target)) == toml_merged(item_tree(*old(target)), item_tree(*source)),
        item_layout(*final(target)) == merged_layout(
            item_layout(*old(target)),
            item_layout(*source),
        ),
    decreases item_tree(*source), 0nat,
{
    let ghost layout = item_layout(*target);
    let ghost new_layout = item_layout(*source);
    let ghost whole = item_tree(*target);
    let ghost before = item_tree(*target).table();
    let ghost new = item_tree(*source).table();
    let ghost mut done: Set<Seq<char>> = Set::empty();
    proof {
        lemma_well_formed_table(item_tree(*target));
        lemma_well_formed_table(item_tree(*source));
    }
    let keys = item_keys(source);
    let mut n: usize = 0;
    while n < keys.len()
        invariant
            n <= keys.len(),
            whole == item_tree(*old(target)),
            before == whole.table(),
            new == item_tree(*source).table(),
            whole.is_table_like(),
            item_tree(*target).is_table_like(),
            whole is Inline <==> item_tree(*target) is Inline,
            item_tree(*target).occupied() && item_tree(*source).occupied(),
            forall|key: Seq<char>| #[trigger]
                before.contains_key(key) ==> before[key].well_formed(),
            forall|key: Seq<char>| #[trigger] new.contains_key(key) ==> new[key].well_formed(),
            forall|i: int| 0 <= i < keys@.len() ==> new.contains_key(#[trigger] keys@[i]@),
            forall|i: int, j: int|
                0 <= i < j < keys@.len() ==> (#[trigger] keys@[i])@ != (#[trigger] keys@[j])@,
            forall|i: int| 0 <= i < n ==> done.contains(#[trigger] keys@[i]@),
            forall|i: int| n <= i < keys@.len() ==> !done.contains(#[trigger] keys@[i]@),
            forall|key: Seq<char>| #[trigger]
                item_tree(*target).table().contains_key(key) <==> before.contains_key(key)
                    || done.contains(key),
            forall|key: Seq<char>| #[trigger] done.contains(key) ==> new.contains_key(key),
            forall|key: Seq<char>|
                done.contains(key) ==> #[trigger] item_tree(*target).table()[key] == (
                if before.contains_key(key) {
                    toml_merged(before[key], new[key])
                } else {
                    newcomer(whole, new[key])
                }),
            forall|key: Seq<char>|
                before.contains_key(key) && !done.contains(key) ==> #[trigger] item_tree(
                    *target,
                ).table()[key] == before[key],
            layout == item_layout(*old(target)) && new_layout == item_layout(*source),
            layout.is_table_like(),
            keys@.len() == new_layout.entries().len(),
            forall|i: int|
                0 <= i < keys@.len() ==> (#[trigger] keys@[i])@ == new_layout.entries()[i].key,
            item_layout(*target) == layout.with_entries(
                merged_entries(layout, new_layout, n as nat),
            ),
        decreases keys.len() - n,
    {
        let key = keys[n].as_str();
        assert(new.contains_key(key@));
        proof {
            let entries = new_layout.entries();
            assert forall|i: int, j: int| 0 <= i < j < entries.len() implies (
            #[trigger] entries[i]).key != (#[trigger] entries[j]).key by {
                assert(keys@[i]@ != keys@[j]@);
            }
            lemma_entry_by_place(entries, n as int);
        }
        if let Some(source_item) = item_get(source, key) {
            match item_get_mut(target, key) {
                Some(target_item) => {
                    proof {
                        lemma_entry_is_smaller(item_tree(*source), key@);
                        lemma_merged_is_present(before[key@], new[key@]);
                    }
                    merge_toml_item(target_item, source_item);
                },
                None => {
                    item_insert(target, key, item_copy(source_item));
                },
            }
        }
        proof {
            done = done.insert(key@);
        }
        n += 1;
    }
    proof {
        assert forall|key: Seq<char>| new.contains_key(key) implies done.contains(key) by {
            let i = choose|i: int| 0 <= i < keys@.len() && #[trigger] keys@[i]@ == key;
            assert(done.contains(keys@[i]@));
        }
        assert(item_tree(*target).table() =~= merged_table(whole, item_tree(*source)));
    }
}

/// The entry under the key of an entry is that entry, where no two have the same key.
proof fn lemma_entry_by_place(entries: Seq<EntryLayout>, n: int)
    requires
        0 <= n < entries.len(),
        forall|i: int, j: int|
            0 <= i < j < entries.len() ==> (#[trigger] entries[i]).key != (
            #[trigger] entries[j]).key,
    ensures
        entry_at(entries, entries[n].key) == entries[n].layout,
{
    let i = choose|i: int| 0 <= i < entries.len() && (#[trigger] entries[i]).key == entries[n].key;
    assert(i == n);
}

/// Laying a well-formed item over another leaves an item.
proof fn lemma_merged_is_present(target: TomlTree, source: TomlTree)
    requires
        source.well_formed(),
    ensures
        !(toml_merged(target, source) is Absent),
{
}

/// Takes the item `source` out of the item `target`, which becomes vacant when
/// nothing of it is left.
pub(crate) fn remove_toml_item(target: &mut toml_edit::Item, source: &toml_edit::Item)
    requires
        item_tree(*old(target)).well_formed(),
        item_tree(*source).well_formed(),
    ensures
        item_tree(*final(target)) == match toml_remainder(
            item_tree(*old(target)),
            item_tree(*source),
        ) {
            Some(left) => left,
            None => TomlTree::Absent,
        },
        toml_remainder(item_tree(*old(target)), item_tree(*source)) is Some ==> item_layout(
            *final(target),
        ) == left_layout(item_layout(*old(target)), item_tree(*old(target)), item_tree(*source)),
    decreases item_tree(*source), 1nat,
{
    let ghost before = item_tree(*target);
    if is_table_like(source) && is_table_like(target) {
        remove_toml_table_like(target, source);
        if item_is_empty(target) {
            *target = absent_item();
        }
        return;
    }
    if let Some(source_value) = item_value(source) {
        let mut remove_item = false;
        if let Some(source_arr) = value_array(source_value) {
            if let Some(target_arr) = item_array_mut(target) {
                toml_remove_array_items(target_arr, source_arr);
                remove_item = array_is_empty(target_arr);
            }
        } else if let Some(target_value) = item_value(target) {
            remove_item = toml_value_is_subset(target_value, source_value);
        }
        if remove_item {
            *target = absent_item();
        }
    }
}

/// Takes the table `source` out of the table `target`.
pub(crate) fn remove_toml_table_like(target: &mut toml_edit::Item, source: &toml_edit::Item)
    requires
        item_tree(*old(target)).well_formed() && item_tree(*old(target)).is_table_like(),
        item_tree(*source).well_formed() && item_tree(*source).is_table_like(),
        item_layout(*old(target)).is_table_like(),
    ensures
        item_tree(*final(target)) == toml_removed(item_tree(*old(target)), item_tree(*source)),
        item_tree(*final(target)).well_formed(),
        item_layout(*final(target)) == left_layout(
            item_layout(*old(target)),
            item_tree(*old(target)),
            item_tree(*source),
        ),
    decreases item_tree(*source), 0nat,
{
    let ghost layout = item_layout(*target);
    let ghost whole = item_tree(*target);
    let ghost before = item_tree(*target).table();
    let ghost gone = item_tree(*source).table();
    let ghost mut done: Set<Seq<char>> = Set::empty();
    proof {
        lemma_well_formed_table(item_tree(*target));
        lemma_well_formed_table(item_tree(*source));
        lemma_nothing_left_out(layout.entries(), whole, item_tree(*source));
    }
    let keys = item_keys(source);
    let mut n: usize = 0;
    while n < keys.len()
        invariant
            n <= keys.len(),
            whole == item_tree(*old(target)),
            before == whole.table(),
            gone == item_tree(*source).table(),
            whole.is_table_like(),
            item_tree(*target).is_table_like(),
            whole is Inline <==> item_tree(*target) is Inline,
            item_tree(*target).occupied() && item_tree(*source).occupied(),
            forall|key: Seq<char>| #[trigger]
                before.contains_key(key) ==> before[key].well_formed(),
            forall|key: Seq<char>| #[trigger] gone.contains_key(key) ==> gone[key].well_formed(),
            forall|i: int| 0 <= i < keys@.len() ==> gone.contains_key(#[trigger] keys@[i]@),
            forall|i: int, j: int|
                0 <= i < j < keys@.len() ==> (#[trigger] keys@[i])@ != (#[trigger] keys@[j])@,
            forall|i: int| 0 <= i < n ==> done.contains(#[trigger] keys@[i]@),
            forall|i: int| n <= i < keys@.len() ==> !done.contains(#[trigger] keys@[i]@),
            forall|key: Seq<char>| #[trigger] done.contains(key) ==> gone.contains_key(key),
            forall|key: Seq<char>| #[trigger]
                item_tree(*target).table().contains_key(key) <==> before.contains_key(key) && (
                done.contains(key) ==> !before[key].is_empty_table() && toml_remainder(
                    before[key],
                    gone[key],
                ) is Some),
            forall|key: Seq<char>| #[trigger]
                item_tree(*target).table().contains_key(key) ==> item_tree(*target).table()[key]
                    == (if done.contains(key) {
                    toml_remainder(before[key], gone[key])->0
                } else {
                    before[key]
                }),
            layout == item_layout(*old(target)),
            layout.is_table_like(),
            item_layout(*target) == layout.with_entries(
                left_so_far(layout.entries(), whole, item_tree(*source), done),
            ),
        decreases keys.len() - n,
    {
        let key = keys[n].as_str();
        assert(gone.contains_key(key@));
        let ghost now = left_so_far(layout.entries(), whole, item_tree(*source), done);
        assert(item_layout(*target).entries() == now);
        proof {
            lemma_kept_entry(whole, item_tree(*source), key@);
        }
        let ghost mut changed: Layout = Layout::Vacant;
        let mut remove_key = false;
        if let Some(source_item) = item_get(source, key) {
            if let Some(target_item) = item_get_mut(target, key) {
                proof {
                    lemma_entry_is_smaller(item_tree(*source), key@);
                    lemma_remainder_well_formed(before[key@], gone[key@]);
                    lemma_left_is_empty(before[key@], gone[key@]);
                }
                remove_toml_item(target_item, source_item);
                proof {
                    changed = item_layout(*target_item);
                }
                remove_key = is_absent(target_item) || (is_table_like(target_item)
                    && item_is_empty(target_item));
            }
        }
        if remove_key {
            item_remove(target, key);
        }
        proof {
            if !has_entry(now, key@) {
                lemma_key_missing(layout.entries(), whole, item_tree(*source), done, key@);
            } else if remove_key {
                lemma_key_goes(
                    layout.entries(),
                    whole,
                    item_tree(*source),
                    done,
                    key@,
                    changed,
                );
            } else {
                lemma_key_stays(layout.entries(), whole, item_tree(*source), done, key@);
            }
            done = done.insert(key@);
        }
        n += 1;
    }
    proof {
        assert forall|key: Seq<char>| gone.contains_key(key) implies done.contains(key) by {
            let i = choose|i: int| 0 <= i < keys@.len() && #[trigger] keys@[i]@ == key;
            assert(done.contains(keys@[i]@));
        }
        assert(item_tree(*target).table() =~= kept_table(whole, item_tree(*source)));
        lemma_kept_well_formed(whole, item_tree(*source));
        lemma_all_left_out(layout.entries(), whole, item_tree(*source), done);
    }
}

/// What is left of an item is an empty table only if the item was one.
proof fn lemma_left_is_empty(target: TomlTree, source: TomlTree)
    ensures
        toml_remainder(target, source) matches Some(left) ==> left.is_empty_table()
            == target.is_empty_table(),
{
    if target.is_table_like() && source.is_table_like() {
        let kept = kept_table(target, source);
        assert(target.with_table(kept).table() == kept);
        if target.is_empty_table() {
            assert(kept =~= Map::<Seq<char>, TomlTree>::empty());
        }
    }
}

/// What is left of a well-formed item is well formed, and a value if the item was.
proof fn lemma_remainder_well_formed(target: TomlTree, source: TomlTree)
    requires
        target.well_formed(),
    ensures
        toml_remainder(target, source) matches Some(left) ==> {
            &&& left.well_formed()
            &&& left.is_value() == target.is_value()
        },
    decreases source, 1nat,
{
    if target.is_table_like() && source.is_table_like() {
        lemma_kept_well_formed(target, source);
    } else if target is Array && source is Array {
        let have = target->Array_0;
        lemma_well_formed_array(have);
        lemma_without_items_well_formed(have, source->Array_0, 0);
        lemma_array_well_formed(toml_without_items(have, source->Array_0, 0));
    }
}

/// What is left of a well-formed table is well formed.
proof fn lemma_kept_well_formed(target: TomlTree, source: TomlTree)
    requires
        target.well_formed(),
        target.is_table_like(),
        source.is_table_like(),
    ensures
        toml_removed(target, source).well_formed(),
    decreases source, 0nat,
{
    let kept = kept_table(target, source);
    let result = target.with_table(kept);
    lemma_well_formed_table(target);
    assert forall|key: Seq<char>| #[trigger] kept.contains_key(key) implies {
        &&& kept[key].well_formed()
        &&& target is Inline ==> kept[key].is_value()
    } by {
        assert(target.table().contains_key(key));
        if source.table().contains_key(key) {
            lemma_entry_is_smaller(source, key);
            lemma_remainder_well_formed(target.table()[key], source.table()[key]);
        }
    }
    match target {
        TomlTree::Table(_) => {
            assert(result->Table_0 == kept);
        },
        TomlTree::Inline(_) => {
            assert(result->Inline_0 == kept);
        },
        _ => {},
    }
}

/// Whether these are well-formed values.
spec fn all_values(items: Seq<TomlTree>) -> bool {
    forall|i: int|
        0 <= i < items.len() ==> (#[trigger] items[i]).is_value() && items[i].well_formed()
}

proof fn lemma_without_items_well_formed(have: Seq<TomlTree>, wanted: Seq<TomlTree>, from: nat)
    requires
        all_values(have),
    ensures
        all_values(toml_without_items(have, wanted, from)),
    decreases wanted.len() - from,
{
    if from < wanted.len() {
        if exists|i: int| toml_is_first_holder(have, wanted[from as int], i) {
            let i = choose|i: int| toml_is_first_holder(have, wanted[from as int], i);
            assert(all_values(have.remove(i)));
            lemma_without_items_well_formed(have.remove(i), wanted, from + 1);
        } else {
            lemma_without_items_well_formed(have, wanted, from + 1);
        }
    }
}

/// What it says of a table's entries that they can be found again.
pub proof fn lemma_comparable_table(t: TomlTree)
    requires
        t.comparable(),
    ensures
        forall|key: Seq<char>| #[trigger]
            t.table().contains_key(key) ==> t.table()[key].comparable(),
{
    match t {
        TomlTree::Table(map) => {
            assert(t.table() == t->Table_0);
        },
        TomlTree::Inline(map) => {
            assert(t.table() == t->Inline_0);
        },
        _ => {},
    }
}

/// Law: an item contains itself, and so does its inline notation.
pub proof fn law_toml_contains_itself(t: TomlTree)
    requires
        t.comparable(),
    ensures
        toml_contains(t, t),
        toml_contains(t.as_value(), t),
    decreases t,
{
    match t {
        TomlTree::Array(items) => {
            assert(t->Array_0 == items);
            assert forall|i: int| 0 <= i < items.len() implies toml_contains(
                #[trigger] items[i],
                items[i],
            ) by {
                law_toml_contains_itself(items[i]);
            }
            assert(Set::<int>::empty() =~= Set::new(|i: int| 0 <= i < 0));
            lemma_toml_claims_itself(items, 0);
        },
        _ => {
            if t.is_table_like() {
                lemma_comparable_table(t);
                assert forall|key: Seq<char>| #[trigger] t.table().contains_key(key) implies {
                    &&& toml_contains(t.table()[key], t.table()[key])
                    &&& toml_contains(t.table()[key].as_value(), t.table()[key])
                } by {
                    lemma_entry_is_smaller(t, key);
                    law_toml_contains_itself(t.table()[key]);
                }
                lemma_contains_table(t, t);
                lemma_contains_table(t.as_value(), t);
            }
        },
    }
}

proof fn lemma_toml_claims_itself(items: Seq<TomlTree>, from: nat)
    requires
        from <= items.len(),
        forall|i: int| 0 <= i < items.len() ==> toml_contains(#[trigger] items[i], items[i]),
    ensures
        toml_claims(items, Set::new(|i: int| 0 <= i < from), items, from),
    decreases items.len() - from,
{
    if from < items.len() {
        let taken = Set::new(|i: int| 0 <= i < from);
        lemma_toml_claims_itself(items, from + 1);
        assert(taken.insert(from as int) =~= Set::new(|i: int| 0 <= i < from + 1));
        lemma_toml_claims_step(items, taken, items, from, from as int);
    }
}

/// The entries of two tables joined, one by one.
pub proof fn lemma_merged_entry(target: TomlTree, source: TomlTree, key: Seq<char>)
    requires
        target.is_table_like(),
        source.is_table_like(),
    ensures
        toml_merged(target, source).is_table_like(),
        toml_merged(target, source) is Inline <==> target is Inline,
        toml_merged(target, source).table() == merged_table(target, source),
        merged_table(target, source).contains_key(key) <==> target.table().contains_key(key)
            || source.table().contains_key(key),
        merged_table(target, source).contains_key(key) ==> merged_table(target, source)[key] == (
        if !source.table().contains_key(key) {
            target.table()[key]
        } else if target.table().contains_key(key) {
            toml_merged(target.table()[key], source.table()[key])
        } else {
            newcomer(target, source.table()[key])
        }),
{
    match source {
        TomlTree::Table(new) => {
            assert(source.table() == new);
        },
        TomlTree::Inline(new) => {
            assert(source.table() == new);
        },
        _ => {},
    }
}

/// Law: what was laid over an item is contained in the result.
pub proof fn law_toml_merged_contains_source(target: TomlTree, source: TomlTree)
    requires
        source.comparable(),
    ensures
        toml_contains(toml_merged(target, source), source),
    decreases source,
{
    if target.is_table_like() && source.is_table_like() {
        let result = toml_merged(target, source);
        lemma_comparable_table(source);
        assert forall|key: Seq<char>| #[trigger] source.table().contains_key(key) implies {
            &&& result.table().contains_key(key)
            &&& toml_contains(result.table()[key], source.table()[key])
        } by {
            lemma_merged_entry(target, source, key);
            lemma_entry_is_smaller(source, key);
            if target.table().contains_key(key) {
                law_toml_merged_contains_source(target.table()[key], source.table()[key]);
            } else {
                law_toml_contains_itself(source.table()[key]);
            }
        }
        lemma_merged_entry(target, source, Seq::empty());
        lemma_contains_table(result, source);
    } else {
        law_toml_contains_itself(source);
    }
}

/// Whether no array of tables of `source` has to be written inline to be laid over
/// `target`.
pub open spec fn keeps_notation(target: TomlTree, source: TomlTree) -> bool
    decreases source,
{
    match source {
        TomlTree::Table(new) => target.is_table_like() ==> forall|key: Seq<char>| #[trigger]
            new.contains_key(key) ==> if target.table().contains_key(key) {
                keeps_notation(target.table()[key], new[key])
            } else {
                target is Inline ==> !new[key].has_table_array()
            },
        TomlTree::Inline(new) => target.is_table_like() ==> forall|key: Seq<char>| #[trigger]
            new.contains_key(key) ==> if target.table().contains_key(key) {
                keeps_notation(target.table()[key], new[key])
            } else {
                target is Inline ==> !new[key].has_table_array()
            },
        _ => true,
    }
}

/// Law: laying the same item over another twice is the same as doing it once.
pub proof fn law_toml_merged_is_idempotent(target: TomlTree, source: TomlTree)
    requires
        keeps_notation(target, source),
    ensures
        toml_merged(toml_merged(target, source), source) == toml_merged(target, source),
    decreases source,
{
    if target.is_table_like() && source.is_table_like() {
        let once = toml_merged(target, source);
        lemma_merged_entry(target, source, Seq::empty());
        assert forall|key: Seq<char>| #[trigger] source.table().contains_key(key) implies toml_merged(
            once.table()[key],
            source.table()[key],
        ) == once.table()[key] by {
            lemma_merged_entry(target, source, key);
            lemma_entry_is_smaller(source, key);
            if target.table().contains_key(key) {
                match source {
                    TomlTree::Table(new) => {
                        assert(new.contains_key(key));
                    },
                    TomlTree::Inline(new) => {
                        assert(new.contains_key(key));
                    },
                    _ => {},
                }
                law_toml_merged_is_idempotent(target.table()[key], source.table()[key]);
            } else {
                match source {
                    TomlTree::Table(new) => {
                        assert(new.contains_key(key));
                    },
                    TomlTree::Inline(new) => {
                        assert(new.contains_key(key));
                    },
                    _ => {},
                }
                lemma_merged_with_itself(source.table()[key]);
            }
        }
        assert forall|key: Seq<char>| #[trigger]
            merged_table(once, source).contains_key(key) <==> once.table().contains_key(key) by {
            lemma_merged_entry(target, source, key);
            lemma_merged_entry(once, source, key);
        }
        assert forall|key: Seq<char>| #[trigger] once.table().contains_key(key) implies merged_table(
            once,
            source,
        )[key] == once.table()[key] by {
            lemma_merged_entry(target, source, key);
            lemma_merged_entry(once, source, key);
        }
        assert(merged_table(once, source) =~= once.table());
    } else if source.is_table_like() {
        lemma_merged_with_itself(source);
    }
}

/// Laying an item over itself, or over its inline notation, changes nothing.
proof fn lemma_merged_with_itself(t: TomlTree)
    ensures
        toml_merged(t, t) == t,
        !t.has_table_array() ==> toml_merged(t.as_value(), t) == t.as_value(),
    decreases t,
{
    if t.is_table_like() {
        let inline = t.as_value();
        assert forall|key: Seq<char>| #[trigger] t.table().contains_key(key) implies {
            &&& merged_table(t, t)[key] == t.table()[key]
            &&& !t.has_table_array() ==> merged_table(inline, t)[key] == inline.table()[key]
        } by {
            lemma_entry_is_smaller(t, key);
            lemma_merged_entry(t, t, key);
            lemma_merged_entry(inline, t, key);
            lemma_merged_with_itself(t.table()[key]);
            match t {
                TomlTree::Table(map) => {
                    assert(map.contains_key(key));
                },
                TomlTree::Inline(map) => {
                    assert(map.contains_key(key));
                },
                _ => {},
            }
        }
        assert forall|key: Seq<char>|
            merged_table(t, t).contains_key(key) == #[trigger] t.table().contains_key(key)
                && merged_table(inline, t).contains_key(key) == inline.table().contains_key(key)
                && inline.table().contains_key(key) == t.table().contains_key(key) by {
            lemma_merged_entry(t, t, key);
            lemma_merged_entry(inline, t, key);
        }
        assert(merged_table(t, t) =~= t.table());
        if !t.has_table_array() {
            assert(merged_table(inline, t) =~= inline.table());
        }
    }
}

/// The entries of a table that are left, one by one.
proof fn lemma_kept_entry(target: TomlTree, source: TomlTree, key: Seq<char>)
    requires
        target.is_table_like(),
        source.is_table_like(),
    ensures
        kept_table(target, source).contains_key(key) <==> target.table().contains_key(key) && (
        source.table().contains_key(key) ==> !target.table()[key].is_empty_table()
            && toml_remainder(target.table()[key], source.table()[key]) is Some),
        kept_table(target, source).contains_key(key) ==> kept_table(target, source)[key] == (
        if source.table().contains_key(key) {
            toml_remainder(target.table()[key], source.table()[key])->0
        } else {
            target.table()[key]
        }),
{
    match source {
        TomlTree::Table(gone) => {
            assert(source.table() == gone);
        },
        TomlTree::Inline(gone) => {
            assert(source.table() == gone);
        },
        _ => {},
    }
}

/// Law: nothing is left of an item, nor of its inline notation, when it is taken out.
pub proof fn law_toml_nothing_left_of_itself(t: TomlTree)
    requires
        t.comparable(),
    ensures
        toml_remainder(t, t) is None,
        toml_remainder(t.as_value(), t) is None,
    decreases t,
{
    match t {
        TomlTree::Array(items) => {
            assert(t->Array_0 == items);
            assert forall|i: int| 0 <= i < items.len() implies toml_contains(
                #[trigger] items[i],
                items[i],
            ) by {
                law_toml_contains_itself(items[i]);
            }
            assert(items.skip(0) =~= items);
            lemma_toml_items_take_out_themselves(items, 0);
        },
        _ => {
            if t.is_table_like() {
                let inline = t.as_value();
                lemma_comparable_table(t);
                assert forall|key: Seq<char>|
                    !(#[trigger] kept_table(t, t).contains_key(key)) && !kept_table(
                        inline,
                        t,
                    ).contains_key(key) by {
                    lemma_kept_entry(t, t, key);
                    lemma_kept_entry(inline, t, key);
                    if t.table().contains_key(key) {
                        lemma_entry_is_smaller(t, key);
                        law_toml_nothing_left_of_itself(t.table()[key]);
                    }
                }
                assert forall|key: Seq<char>| !(#[trigger] kept_table(inline, t).contains_key(key)) by {
                    assert(!kept_table(t, t).contains_key(key));
                }
                assert(kept_table(t, t) =~= Map::<Seq<char>, TomlTree>::empty());
                assert(kept_table(inline, t) =~= Map::<Seq<char>, TomlTree>::empty());
            } else {
                law_toml_contains_itself(t);
            }
        },
    }
}

proof fn lemma_toml_items_take_out_themselves(items: Seq<TomlTree>, from: nat)
    requires
        from <= items.len(),
        forall|i: int| 0 <= i < items.len() ==> toml_contains(#[trigger] items[i], items[i]),
    ensures
        toml_without_items(items.skip(from as int), items, from).len() == 0,
    decreases items.len() - from,
{
    if from < items.len() {
        let have = items.skip(from as int);
        assert(have[0] == items[from as int]);
        assert(toml_is_first_holder(have, items[from as int], 0));
        let first = choose|i: int| toml_is_first_holder(have, items[from as int], i);
        lemma_toml_one_first_holder(have, items[from as int], 0, first);
        assert(have.remove(0) =~= items.skip((from + 1) as int));
        lemma_toml_items_take_out_themselves(items, from + 1);
    }
}

/// Whether two tables share no value: a key of both leads to two tables that share
/// none either, and the one in `target` has entries.
pub open spec fn toml_disjoint(target: TomlTree, source: TomlTree) -> bool
    decreases source,
{
    match source {
        TomlTree::Table(new) => target.is_table_like() && forall|key: Seq<char>|
            target.table().contains_key(key) && #[trigger] new.contains_key(key) ==> {
                &&& target.table()[key].table() != Map::<Seq<char>, TomlTree>::empty()
                &&& toml_disjoint(target.table()[key], new[key])
            },
        TomlTree::Inline(new) => target.is_table_like() && forall|key: Seq<char>|
            target.table().contains_key(key) && #[trigger] new.contains_key(key) ==> {
                &&& target.table()[key].table() != Map::<Seq<char>, TomlTree>::empty()
                &&& toml_disjoint(target.table()[key], new[key])
            },
        _ => false,
    }
}

/// What it says of two tables, whatever their notation, that they share no value.
pub proof fn lemma_disjoint_entry(target: TomlTree, source: TomlTree, key: Seq<char>)
    requires
        toml_disjoint(target, source),
        target.table().contains_key(key),
        source.table().contains_key(key),
    ensures
        toml_disjoint(target.table()[key], source.table()[key]),
        target.table()[key].is_table_like() && source.table()[key].is_table_like(),
{
    reveal_with_fuel(toml_disjoint, 2);
    match source {
        TomlTree::Table(new) => {
            assert(new.contains_key(key));
        },
        TomlTree::Inline(new) => {
            assert(new.contains_key(key));
        },
        _ => {},
    }
}

/// Law: what was laid over a table that shares no value with it is taken out again
/// without a trace.
pub proof fn law_toml_removed_undoes_merged(target: TomlTree, source: TomlTree)
    requires
        toml_disjoint(target, source),
        source.comparable(),
    ensures
        toml_removed(toml_merged(target, source), source) == target,
    decreases source,
{
    let both = toml_merged(target, source);
    let old = target.table();
    let new = source.table();
    lemma_comparable_table(source);
    lemma_merged_entry(target, source, Seq::empty());
    assert forall|key: Seq<char>|
        kept_table(both, source).contains_key(key) == #[trigger] old.contains_key(key) && (
        old.contains_key(key) ==> kept_table(both, source)[key] == old[key]) by {
        lemma_merged_entry(target, source, key);
        lemma_kept_entry(both, source, key);
        if new.contains_key(key) {
            lemma_entry_is_smaller(source, key);
            if old.contains_key(key) {
                match source {
                    TomlTree::Table(map) => {
                        assert(map.contains_key(key));
                    },
                    TomlTree::Inline(map) => {
                        assert(map.contains_key(key));
                    },
                    _ => {},
                }
                assert(toml_disjoint(old[key], new[key]));
                law_toml_removed_undoes_merged(old[key], new[key]);
                lemma_merged_entry(old[key], new[key], Seq::empty());
                let inner = both.table()[key];
                assert(inner.with_table(kept_table(inner, new[key])) == old[key]);
                assert(kept_table(inner, new[key]) == old[key].table());
                lemma_left_is_empty(inner, new[key]);
                assert(!inner.is_empty_table());
            } else {
                law_toml_nothing_left_of_itself(new[key]);
            }
        }
    }
    assert(kept_table(both, source) =~= old);
}

/// Law: laying a table over another, or taking it out, touches no other key.
pub proof fn law_toml_other_keys_untouched(target: TomlTree, source: TomlTree, key: Seq<char>)
    requires
        target.is_table_like(),
        source.is_table_like(),
        !source.table().contains_key(key),
    ensures
        toml_merged(target, source).table().contains_key(key) == target.table().contains_key(key),
        toml_removed(target, source).table().contains_key(key) == target.table().contains_key(key),
        target.table().contains_key(key) ==> {
            &&& toml_merged(target, source).table()[key] == target.table()[key]
            &&& toml_removed(target, source).table()[key] == target.table()[key]
        },
{
    lemma_merged_entry(target, source, key);
    lemma_kept_entry(target, source, key);
}

/// Law: a text, an integer, a truth value or a point in time is contained in its equal and in
/// nothing else.
pub proof fn law_toml_contained_scalar(target: TomlTree, source: TomlTree)
    requires
        source is Text || source is Integer || source is Bool || source is Datetime,
    ensures
        toml_contains(target, source) <==> target == source,
{
}

/// Law: a float is contained in the floats of the same number, the two zeros being one number,
/// and what is no number is contained in nothing.
pub proof fn law_toml_contained_float(target: TomlTree, bits: u64)
    ensures
        toml_contains(target, TomlTree::Float(bits)) <==> {
            &&& target matches TomlTree::Float(have) && (have == bits || have as int + bits as int
                == 0x8000_0000_0000_0000 && (have == 0 || bits == 0))
            &&& bits as int % 0x8000_0000_0000_0000 <= 0x7ff0_0000_0000_0000
        },
{
}

/// Law: a table is contained in those tables, of either notation, that have each of its keys,
/// with an item that contains its own; an array of tables is contained in nothing.
pub proof fn law_toml_contained_table(target: TomlTree, source: TomlTree)
    ensures
        source is Table || source is Inline ==> (toml_contains(target, source) <==> (target is Table
            || target is Inline) && forall|key: Seq<char>| #[trigger]
            source.table().contains_key(key) ==> target.table().contains_key(key) && toml_contains(
                target.table()[key],
                source.table()[key],
            )),
        source is TableArray ==> !toml_contains(target, source),
        source is Array && !(target is Array) ==> !toml_contains(target, source),
{
    if source.is_table_like() && target.is_table_like() {
        lemma_contains_table(target, source);
    }
}

/// Law: each item of an array that another contains is contained in an item of the other, no
/// two of them in the same.
pub proof fn law_toml_contained_array_has_places(have: Seq<TomlTree>, wanted: Seq<TomlTree>) -> (places:
    Seq<int>)
    requires
        toml_contains(TomlTree::Array(have), TomlTree::Array(wanted)),
    ensures
        places.len() == wanted.len(),
        places.no_duplicates(),
        forall|i: int|
            0 <= i < wanted.len() ==> 0 <= #[trigger] places[i] < have.len() && toml_contains(
                have[places[i]],
                wanted[i],
            ),
{
    let places = lemma_toml_claimed_places(have, Set::empty(), wanted, 0);
    assert forall|i: int| 0 <= i < wanted.len() implies 0 <= #[trigger] places[i] < have.len()
        && toml_contains(have[places[i]], wanted[i]) by {
        assert(wanted[i] == wanted[0 + i]);
    }
    places
}

proof fn lemma_toml_claimed_places(
    have: Seq<TomlTree>,
    taken: Set<int>,
    wanted: Seq<TomlTree>,
    from: nat,
) -> (places: Seq<int>)
    requires
        from <= wanted.len(),
        toml_claims(have, taken, wanted, from),
    ensures
        places.len() == wanted.len() - from,
        places.no_duplicates(),
        forall|i: int|
            0 <= i < places.len() ==> {
                &&& 0 <= #[trigger] places[i] < have.len()
                &&& !taken.contains(places[i])
                &&& toml_contains(have[places[i]], wanted[from + i])
            },
    decreases wanted.len() - from,
{
    if from == wanted.len() {
        Seq::empty()
    } else {
        let first = choose|i: int|
            {
                &&& 0 <= i < have.len() && !taken.contains(i)
                &&& toml_contains(#[trigger] have[i], wanted[from as int])
                &&& forall|j: int|
                    0 <= j < i && !taken.contains(j) ==> !toml_contains(
                        #[trigger] have[j],
                        wanted[from as int],
                    )
                &&& toml_claims(have, taken.insert(i), wanted, from + 1)
            };
        let rest = lemma_toml_claimed_places(have, taken.insert(first), wanted, from + 1);
        let places = seq![first] + rest;
        assert forall|i: int| 0 <= i < places.len() implies {
            &&& 0 <= #[trigger] places[i] < have.len()
            &&& !taken.contains(places[i])
            &&& toml_contains(have[places[i]], wanted[from + i])
        } by {
            if i > 0 {
                assert(places[i] == rest[i - 1]);
                assert(wanted[from + i] == wanted[from + 1 + (i - 1)]);
            }
        }
        assert forall|i: int, j: int|
            0 <= i < places.len() && 0 <= j < places.len() && i != j implies places[i]
            != places[j] by {
            if i > 0 {
                assert(places[i] == rest[i - 1]);
            }
            if j > 0 {
                assert(places[j] == rest[j - 1]);
            }
        }
        places
    }
}

/// Law: an array contains each choice of its items, in the order in which they stand there.
pub proof fn law_toml_array_contains_its_items(have: Seq<TomlTree>, places: Seq<int>)
    requires
        TomlTree::Array(have).comparable(),
        forall|i: int| 0 <= i < places.len() ==> 0 <= #[trigger] places[i] < have.len(),
        forall|i: int, j: int| 0 <= i < j < places.len() ==> places[i] < places[j],
    ensures
        toml_contains(TomlTree::Array(have), TomlTree::Array(places.map_values(|p: int| have[p]))),
{
    let whole = TomlTree::Array(have);
    assert(whole is Array && whole->Array_0 == have);
    assert forall|i: int| 0 <= i < have.len() implies toml_contains(#[trigger] have[i], have[i]) by {
        law_toml_contains_itself(have[i]);
    }
    lemma_toml_claims_places(have, Set::empty(), places, 0);
}

proof fn lemma_toml_claims_places(have: Seq<TomlTree>, taken: Set<int>, places: Seq<int>, from: nat)
    requires
        forall|i: int| 0 <= i < have.len() ==> toml_contains(#[trigger] have[i], have[i]),
        forall|i: int| 0 <= i < places.len() ==> 0 <= #[trigger] places[i] < have.len(),
        forall|i: int, j: int| 0 <= i < j < places.len() ==> places[i] < places[j],
        forall|t: int, k: int|
            #[trigger] taken.contains(t) && from <= k < places.len() ==> t < #[trigger] places[k],
    ensures
        toml_claims(have, taken, places.map_values(|p: int| have[p]), from),
    decreases places.len() - from,
{
    if from < places.len() {
        let wanted = places.map_values(|p: int| have[p]);
        let place = places[from as int];
        assert(wanted[from as int] == have[place]);
        assert(toml_contains(have[place], have[place]));
        assert(!taken.contains(place));
        let first = lemma_toml_first_free_holder(have, taken, have[place], 0, place);
        assert forall|t: int, k: int|
            #[trigger] taken.insert(first).contains(t) && from + 1 <= k < places.len() implies t
            < #[trigger] places[k] by {
            if t == first {
                assert(places[from as int] < places[k]);
            }
        }
        lemma_toml_claims_places(have, taken.insert(first), places, from + 1);
        lemma_toml_claims_step(have, taken, wanted, from, first);
    }
}

proof fn lemma_toml_first_free_holder(
    have: Seq<TomlTree>,
    taken: Set<int>,
    wanted: TomlTree,
    from: int,
    place: int,
) -> (first: int)
    requires
        0 <= from <= place < have.len(),
        !taken.contains(place),
        toml_contains(have[place], wanted),
        forall|j: int|
            0 <= j < from && !taken.contains(j) ==> !toml_contains(#[trigger] have[j], wanted),
    ensures
        0 <= first <= place,
        !taken.contains(first),
        toml_contains(have[first], wanted),
        forall|j: int|
            0 <= j < first && !taken.contains(j) ==> !toml_contains(#[trigger] have[j], wanted),
    decreases place - from,
{
    if !taken.contains(from) && toml_contains(have[from], wanted) {
        from
    } else {
        lemma_toml_first_free_holder(have, taken, wanted, from + 1, place)
    }
}

/// Law: of an array, an item takes out the first one that contains it, and nothing where there
/// is none.
pub proof fn law_toml_one_item_taken_out(have: Seq<TomlTree>, wanted: TomlTree, place: int)
    requires
        0 <= place <= have.len(),
        forall|j: int| 0 <= j < place ==> !toml_contains(#[trigger] have[j], wanted),
        place < have.len() ==> toml_contains(have[place], wanted),
    ensures
        toml_without_items(have, seq![wanted], 0) == (if place < have.len() {
            have.remove(place)
        } else {
            have
        }),
{
    reveal_with_fuel(toml_without_items, 2);
    assert(seq![wanted][0] == wanted);
    if place < have.len() {
        assert(toml_is_first_holder(have, wanted, place));
        let first = choose|i: int| toml_is_first_holder(have, wanted, i);
        lemma_toml_one_first_holder(have, wanted, place, first);
    }
}

/// Law: the items of an array that is taken out of another go one after the other.
pub proof fn law_toml_items_taken_out_in_turn(
    have: Seq<TomlTree>,
    first: Seq<TomlTree>,
    rest: Seq<TomlTree>,
)
    ensures
        toml_without_items(have, first + rest, 0) == toml_without_items(
            toml_without_items(have, first, 0),
            rest,
            0,
        ),
{
    lemma_toml_items_in_turn(have, first, rest, 0);
}

proof fn lemma_toml_items_in_turn(
    have: Seq<TomlTree>,
    first: Seq<TomlTree>,
    rest: Seq<TomlTree>,
    from: nat,
)
    requires
        from <= first.len(),
    ensures
        toml_without_items(have, first + rest, from) == toml_without_items(
            toml_without_items(have, first, from),
            rest,
            0,
        ),
    decreases first.len() - from,
{
    let both = first + rest;
    if from < first.len() {
        assert(both[from as int] == first[from as int]);
        if exists|i: int| toml_is_first_holder(have, first[from as int], i) {
            let i = choose|i: int| toml_is_first_holder(have, first[from as int], i);
            lemma_toml_items_in_turn(have.remove(i), first, rest, from + 1);
        } else {
            lemma_toml_items_in_turn(have, first, rest, from + 1);
        }
    } else {
        lemma_toml_items_of_rest(have, first, rest, 0);
    }
}

proof fn lemma_toml_items_of_rest(
    have: Seq<TomlTree>,
    first: Seq<TomlTree>,
    rest: Seq<TomlTree>,
    from: nat,
)
    requires
        from <= rest.len(),
    ensures
        toml_without_items(have, first + rest, (first.len() + from) as nat) == toml_without_items(
            have,
            rest,
            from,
        ),
    decreases rest.len() - from,
{
    let both = first + rest;
    if from < rest.len() {
        assert(both[(first.len() + from) as int] == rest[from as int]);
        if exists|i: int| toml_is_first_holder(have, rest[from as int], i) {
            let i = choose|i: int| toml_is_first_holder(have, rest[from as int], i);
            lemma_toml_items_of_rest(have.remove(i), first, rest, from + 1);
        } else {
            lemma_toml_items_of_rest(have, first, rest, from + 1);
        }
    }
}

/// Law: under each key, the result of laying one table over another has what the upper one has
/// there, joined with the lower one's where both are tables, and the lower one's where the
/// upper one has nothing. The notation stays that of the lower one. What is no table gives way
/// as a whole.
pub proof fn law_toml_merged_by_key(target: TomlTree, source: TomlTree, key: Seq<char>)
    ensures
        target.is_table_like() && source.is_table_like() ==> {
            let had = target.table();
            let new = source.table();
            let both = toml_merged(target, source);
            &&& both is Table <==> target is Table
            &&& both is Inline <==> target is Inline
            &&& both.table().contains_key(key) <==> had.contains_key(key) || new.contains_key(key)
            &&& had.contains_key(key) && !new.contains_key(key) ==> both.table()[key] == had[key]
            &&& had.contains_key(key) && new.contains_key(key) ==> {
                &&& !(had[key] is Table || had[key] is Inline) ==> both.table()[key] == new[key]
                &&& !(new[key] is Table || new[key] is Inline) ==> both.table()[key] == new[key]
                &&& had[key].is_table_like() && new[key].is_table_like() ==> both.table()[key]
                    == toml_merged(had[key], new[key])
            }
            &&& !had.contains_key(key) && new.contains_key(key) ==> {
                &&& target is Table ==> both.table()[key] == new[key]
                &&& target is Inline ==> both.table()[key] == new[key].as_value()
            }
        },
        !(target.is_table_like() && source.is_table_like()) ==> toml_merged(target, source)
            == source,
{
    if target.is_table_like() && source.is_table_like() {
        lemma_merged_entry(target, source, key);
    }
}

/// Law: an item written as a value is the same item: a table has the same keys, with the same
/// items written as values, an array of tables the same tables in the same order, and what is
/// a value already stays as it is.
pub proof fn law_as_value(t: TomlTree, key: Seq<char>)
    ensures
        t is Table ==> {
            &&& t.as_value() is Inline
            &&& t.as_value().table().contains_key(key) <==> t.table().contains_key(key)
            &&& t.table().contains_key(key) ==> t.as_value().table()[key]
                == t.table()[key].as_value()
        },
        t matches TomlTree::TableArray(items) ==> {
            &&& t.as_value() matches TomlTree::Array(values) && values.len() == items.len()
            &&& forall|i: int|
                0 <= i < items.len() ==> t.as_value()->Array_0[i] == (
                #[trigger] items[i]).as_value()
        },
        t.is_value() ==> t.as_value() == t,
{
    match t {
        TomlTree::Table(map) => {
            assert(t is Table && t->Table_0 == map);
        },
        TomlTree::TableArray(items) => {
            assert(t is TableArray && t->TableArray_0 == items);
        },
        _ => {},
    }
}

/// Law: taking one table out of another leaves, under each key of both, what is left of the
/// item there: of a table or an array what the other's does not take out of it, if anything is
/// left, and any other item as it is, unless it contains the other's.
pub proof fn law_toml_removed_by_key(target: TomlTree, source: TomlTree, key: Seq<char>)
    requires
        target.is_table_like(),
        source.is_table_like(),
        target.table().contains_key(key),
        source.table().contains_key(key),
    ensures
        toml_removed(target, source) is Table <==> target is Table,
        toml_removed(target, source) is Inline <==> target is Inline,
        ({
            let had = target.table()[key];
            let gone = source.table()[key];
            let left = toml_removed(target, source).table();
            if had.is_table_like() && gone.is_table_like() {
                if toml_removed(had, gone).table() == Map::<Seq<char>, TomlTree>::empty() {
                    !left.contains_key(key)
                } else {
                    left.contains_key(key) && left[key] == toml_removed(had, gone)
                }
            } else if had is Array && gone is Array {
                let items = toml_without_items(had->Array_0, gone->Array_0, 0);
                if items.len() == 0 {
                    !left.contains_key(key)
                } else {
                    left.contains_key(key) && left[key] == TomlTree::Array(items)
                }
            } else {
                if toml_contains(had, gone) || had.is_table_like() && had.table() == Map::<
                    Seq<char>,
                    TomlTree,
                >::empty() {
                    !left.contains_key(key)
                } else {
                    left.contains_key(key) && left[key] == had
                }
            }
        }),
{
    let had = target.table()[key];
    let gone = source.table()[key];
    lemma_kept_entry(target, source, key);
    if had.is_table_like() && gone.is_table_like() {
        assert(toml_removed(had, gone).table() == kept_table(had, gone));
        if had.is_empty_table() {
            assert forall|inner: Seq<char>| !kept_table(had, gone).contains_key(inner) by {
                lemma_kept_entry(had, gone, inner);
            }
            assert(kept_table(had, gone) =~= Map::<Seq<char>, TomlTree>::empty());
        }
    }
}

/// Law: taking a snippet out of a table keeps every value that is not the snippet's: one that
/// is neither table nor array and does not contain what the snippet has under its key stays as
/// it was. A text, an integer, a truth value or a point in time stays unless the snippet has
/// the very same. Nothing is added.
pub proof fn law_toml_removed_keeps_other_values(
    target: TomlTree,
    source: TomlTree,
    key: Seq<char>,
)
    requires
        target.is_table_like(),
        source.is_table_like(),
    ensures
        ({
            let had = target.table();
            let gone = source.table();
            let left = toml_removed(target, source).table();
            &&& left.contains_key(key) ==> had.contains_key(key)
            &&& had.contains_key(key) && gone.contains_key(key) && !(had[key] is Table
                || had[key] is Inline || had[key] is Array) && !toml_contains(had[key], gone[key])
                ==> left.contains_key(key) && left[key] == had[key]
            &&& had.contains_key(key) && (had[key] is Text || had[key] is Integer || had[key] is Bool
                || had[key] is Datetime) ==> {
                &&& left.contains_key(key) <==> !(gone.contains_key(key) && gone[key] == had[key])
                &&& left.contains_key(key) ==> left[key] == had[key]
            }
        }),
{
    lemma_kept_entry(target, source, key);
    if target.table().contains_key(key) && source.table().contains_key(key) {
        let had = target.table()[key];
        let gone = source.table()[key];
        law_toml_removed_by_key(target, source, key);
        if had is Text || had is Integer || had is Bool || had is Datetime {
            assert(toml_contains(had, gone) <==> had == gone);
        }
    }
}

/// Law: an item that is neither table nor array, and that does not contain what is taken out of it,
/// stays as it is. A text, an integer, a truth value or a point in time goes only where the very
/// same is taken out.
pub(crate) proof fn law_other_item_stays(target: &mut toml_edit::Item, source: &toml_edit::Item)
    requires
        call_ensures(remove_toml_item, (target, source), ()),
    ensures
        ({
            let had = item_tree(*old(target));
            let gone = item_tree(*source);
            let left = item_tree(*final(target));
            &&& !(had is Table || had is Inline || had is Array) && !toml_contains(had, gone)
                ==> left == had
            &&& had is Text || had is Integer || had is Bool || had is Datetime ==> left == (
            if had == gone {
                TomlTree::Absent
            } else {
                had
            })
        }),
{
    let had = item_tree(*old(target));
    let gone = item_tree(*source);
    if had is Text || had is Integer || had is Bool || had is Datetime {
        assert(toml_contains(had, gone) <==> had == gone);
    }
}

/// Law: after one table was taken out of another, each entry that it does not have is there, and so
/// is each text, integer, truth value and point in time that is not its own. After it was laid over,
/// each entry that it does not have is there, and so is each of its own that is no table.
pub(crate) proof fn law_other_entries_stay(
    target: &mut toml_edit::Item,
    merged: &mut toml_edit::Item,
    source: &toml_edit::Item,
    key: Seq<char>,
)
    requires
        call_ensures(remove_toml_table_like, (target, source), ()),
        call_ensures(merge_toml_table_like, (merged, source), ()),
        item_tree(*old(target)).is_table_like(),
        item_tree(*old(merged)).is_table_like(),
        item_tree(*source).is_table_like(),
    ensures
        ({
            let had = item_tree(*old(target)).table();
            let gone = item_tree(*source).table();
            let left = item_tree(*final(target)).table();
            &&& had.contains_key(key) && !gone.contains_key(key) ==> left.contains_key(key)
                && left[key] == had[key]
            &&& had.contains_key(key) && (had[key] is Text || had[key] is Integer || had[key] is Bool
                || had[key] is Datetime) ==> {
                &&& left.contains_key(key) <==> !(gone.contains_key(key) && gone[key] == had[key])
                &&& left.contains_key(key) ==> left[key] == had[key]
            }
        }),
        ({
            let had = item_tree(*old(merged)).table();
            let new = item_tree(*source).table();
            let both = item_tree(*final(merged)).table();
            &&& had.contains_key(key) && !new.contains_key(key) ==> both.contains_key(key)
                && both[key] == had[key]
            &&& had.contains_key(key) && new.contains_key(key) && !new[key].is_table_like()
                ==> both.contains_key(key) && both[key] == new[key]
            &&& new.contains_key(key) ==> both.contains_key(key)
        }),
{
    let source_tree = item_tree(*source);
    law_toml_removed_keeps_other_values(item_tree(*old(target)), source_tree, key);
    law_toml_merged_by_key(item_tree(*old(merged)), source_tree, key);
    if !source_tree.table().contains_key(key) {
        law_toml_other_keys_untouched(item_tree(*old(target)), source_tree, key);
    }
}

} // verus!
