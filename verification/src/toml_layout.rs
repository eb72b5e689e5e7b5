//! What laying one TOML document over another, or taking it out again, does to the way the
//! document is written: comments, spacing, headers and the order of keys.

use vstd::prelude::*;

verus! {

use crate::toml_doc::{
    at_most_one, entry_at, has_entry, newcomer_layout, with_entry, without_entry, EntryLayout, KeyForm, Layout,
    TomlTree,
};
use crate::toml_merge::{
    kept_table, law_toml_removed_undoes_merged, lemma_comparable_table, lemma_disjoint_entry,
    lemma_entry_is_smaller, lemma_merged_entry, toml_disjoint, toml_is_first_holder, toml_merged,
    toml_removed,
};

/// How an item is written after `source` was laid over it. A table is written as before,
/// with its entries in their order, and those that are new behind them; anything else is
/// written as in `source`.
pub open spec fn merged_layout(target: Layout, source: Layout) -> Layout
    decreases source, source.entries().len() + 1,
{
    if target.is_table_like() && source.is_table_like() {
        target.with_entries(merged_entries(target, source, source.entries().len()))
    } else {
        source
    }
}

/// The entries of a table after the first `n` entries of the table `source` were laid over
/// them: one that is there stays in its place, its key written as before; one that is not
/// comes last.
pub open spec fn merged_entries(target: Layout, source: Layout, n: nat) -> Seq<EntryLayout>
    decreases source, n,
{
    if n == 0 || n > source.entries().len() {
        target.entries()
    } else {
        proof {
            lemma_layout_entry_is_smaller(source, n - 1);
        }
        let before = merged_entries(target, source, (n - 1) as nat);
        let new = source.entries()[n - 1];
        if has_entry(before, new.key) {
            with_entry(before, new.key, merged_layout(entry_at(before, new.key), new.layout))
        } else {
            before.push(
                EntryLayout {
                    key: new.key,
                    form: KeyForm::usual(),
                    layout: newcomer_layout(target, new.layout),
                },
            )
        }
    }
}

/// How an item that says `target` is written after `source` was taken out of it: what stays
/// is written as before, in its order.
pub open spec fn left_layout(layout: Layout, target: TomlTree, source: TomlTree) -> Layout
    decreases source, layout.entries().len() + 1,
{
    if target.is_table_like() && source.is_table_like() {
        layout.with_entries(left_entries(layout.entries(), target, source))
    } else if target is Array && source is Array {
        layout.with_items(left_items(layout.items(), target->Array_0, source->Array_0, 0))
    } else {
        layout
    }
}

/// The entries of a table that says `target` which stay after the table `source` was taken
/// out of it.
pub open spec fn left_entries(
    entries: Seq<EntryLayout>,
    target: TomlTree,
    source: TomlTree,
) -> Seq<EntryLayout>
    decreases source, entries.len(),
{
    if entries.len() == 0 {
        entries
    } else {
        let before = left_entries(entries.drop_last(), target, source);
        let last = entries.last();
        if !source.table().contains_key(last.key) {
            before.push(last)
        } else if kept_table(target, source).contains_key(last.key) {
            proof {
                lemma_entry_is_smaller(source, last.key);
            }
            before.push(
                EntryLayout {
                    layout: left_layout(
                        last.layout,
                        target.table()[last.key],
                        source.table()[last.key],
                    ),
                    ..last
                },
            )
        } else {
            before
        }
    }
}

/// The items of an array that stay after each item of `wanted` from `from` on has in turn
/// taken out the first one that contains it.
pub open spec fn left_items(
    items: Seq<Layout>,
    have: Seq<TomlTree>,
    wanted: Seq<TomlTree>,
    from: nat,
) -> Seq<Layout>
    decreases wanted.len() - from,
{
    if from >= wanted.len() {
        items
    } else if exists|i: int| toml_is_first_holder(have, wanted[from as int], i) {
        let i = choose|i: int| toml_is_first_holder(have, wanted[from as int], i);
        left_items(items.remove(i), have.remove(i), wanted, from + 1)
    } else {
        left_items(items, have, wanted, from + 1)
    }
}

/// An entry of a table is written smaller than the table.
pub proof fn lemma_layout_entry_is_smaller(layout: Layout, i: int)
    requires
        0 <= i < layout.entries().len(),
    ensures
        decreases_to!(layout => layout.entries()[i].layout),
{
    match layout {
        Layout::Table { entries, .. } => {
            assert(decreases_to!(layout => layout->Table_entries));
            assert(decreases_to!(entries => entries[i]));
            assert(decreases_to!(entries[i] => entries[i].layout));
        },
        Layout::Inline { entries, .. } => {
            assert(decreases_to!(layout => layout->Inline_entries));
            assert(decreases_to!(entries => entries[i]));
            assert(decreases_to!(entries[i] => entries[i].layout));
        },
        _ => {},
    }
}

/// [`left_entries`], when only the keys in `done` have been gone through.
pub open spec fn left_so_far(
    entries: Seq<EntryLayout>,
    target: TomlTree,
    source: TomlTree,
    done: Set<Seq<char>>,
) -> Seq<EntryLayout>
    decreases entries.len(),
{
    if entries.len() == 0 {
        entries
    } else {
        let before = left_so_far(entries.drop_last(), target, source, done);
        let last = entries.last();
        if !done.contains(last.key) {
            before.push(last)
        } else if kept_table(target, source).contains_key(last.key) {
            before.push(
                EntryLayout {
                    layout: left_layout(
                        last.layout,
                        target.table()[last.key],
                        source.table()[last.key],
                    ),
                    ..last
                },
            )
        } else {
            before
        }
    }
}

/// Nothing is taken out before the first key is gone through.
pub proof fn lemma_nothing_left_out(
    entries: Seq<EntryLayout>,
    target: TomlTree,
    source: TomlTree,
)
    ensures
        left_so_far(entries, target, source, Set::empty()) == entries,
    decreases entries.len(),
{
    if entries.len() > 0 {
        lemma_nothing_left_out(entries.drop_last(), target, source);
        assert(entries.drop_last().push(entries.last()) =~= entries);
    }
}

/// All is taken out when every key has been gone through.
pub proof fn lemma_all_left_out(
    entries: Seq<EntryLayout>,
    target: TomlTree,
    source: TomlTree,
    done: Set<Seq<char>>,
)
    requires
        forall|key: Seq<char>| #[trigger] done.contains(key) <==> source.table().contains_key(key),
    ensures
        left_so_far(entries, target, source, done) == left_entries(entries, target, source),
    decreases entries.len(),
{
    if entries.len() > 0 {
        lemma_all_left_out(entries.drop_last(), target, source, done);
    }
}

/// An entry whose key has not been gone through is there as it was.
proof fn lemma_still_there(
    entries: Seq<EntryLayout>,
    target: TomlTree,
    source: TomlTree,
    done: Set<Seq<char>>,
    i: int,
)
    requires
        0 <= i < entries.len(),
        !done.contains(entries[i].key),
    ensures
        left_so_far(entries, target, source, done).contains(entries[i]),
    decreases entries.len(),
{
    let now = left_so_far(entries, target, source, done);
    let before = left_so_far(entries.drop_last(), target, source, done);
    if i == entries.len() - 1 {
        assert(now[now.len() - 1] == entries[i]);
    } else {
        lemma_still_there(entries.drop_last(), target, source, done, i);
        let j = choose|j: int| 0 <= j < before.len() && before[j] == entries.drop_last()[i];
        assert(now[j] == entries[i]);
    }
}

/// Going through a key that stays.
pub proof fn lemma_key_stays(
    entries: Seq<EntryLayout>,
    target: TomlTree,
    source: TomlTree,
    done: Set<Seq<char>>,
    key: Seq<char>,
)
    requires
        !done.contains(key),
        kept_table(target, source).contains_key(key),
        at_most_one(left_so_far(entries, target, source, done), key),
    ensures
        left_so_far(entries, target, source, done.insert(key)) == with_entry(
            left_so_far(entries, target, source, done),
            key,
            left_layout(
                entry_at(left_so_far(entries, target, source, done), key),
                target.table()[key],
                source.table()[key],
            ),
        ),
{
    let now = left_so_far(entries, target, source, done);
    let layout = left_layout(entry_at(now, key), target.table()[key], source.table()[key]);
    assert forall|i: int| 0 <= i < entries.len() && (#[trigger] entries[i]).key == key implies
        left_layout(entries[i].layout, target.table()[key], source.table()[key]) == layout by {
        lemma_still_there(entries, target, source, done, i);
        let j = choose|j: int| 0 <= j < now.len() && now[j] == entries[i];
        assert(now[j].key == key);
        let k = choose|k: int| 0 <= k < now.len() && (#[trigger] now[k]).key == key;
        assert(j == k);
    }
    lemma_key_changed(entries, target, source, done, key, layout);
}

proof fn lemma_key_changed(
    entries: Seq<EntryLayout>,
    target: TomlTree,
    source: TomlTree,
    done: Set<Seq<char>>,
    key: Seq<char>,
    layout: Layout,
)
    requires
        !done.contains(key),
        kept_table(target, source).contains_key(key),
        forall|i: int|
            0 <= i < entries.len() && (#[trigger] entries[i]).key == key ==> left_layout(
                entries[i].layout,
                target.table()[key],
                source.table()[key],
            ) == layout,
    ensures
        left_so_far(entries, target, source, done.insert(key)) == with_entry(
            left_so_far(entries, target, source, done),
            key,
            layout,
        ),
    decreases entries.len(),
{
    let now = left_so_far(entries, target, source, done);
    let next = left_so_far(entries, target, source, done.insert(key));
    if entries.len() > 0 {
        let fewer = entries.drop_last();
        assert forall|i: int| 0 <= i < fewer.len() && (#[trigger] fewer[i]).key == key implies
            left_layout(fewer[i].layout, target.table()[key], source.table()[key]) == layout by {
            assert(entries[i].key == key);
        }
        lemma_key_changed(fewer, target, source, done, key, layout);
        assert(entries[entries.len() - 1] == entries.last());
        assert(with_entry(now, key, layout) =~= next);
    } else {
        assert(with_entry(now, key, layout) =~= next);
    }
}

/// Going through a key that goes.
pub proof fn lemma_key_goes(
    entries: Seq<EntryLayout>,
    target: TomlTree,
    source: TomlTree,
    done: Set<Seq<char>>,
    key: Seq<char>,
    layout: Layout,
)
    requires
        !done.contains(key),
        !kept_table(target, source).contains_key(key),
    ensures
        left_so_far(entries, target, source, done.insert(key)) == without_entry(
            with_entry(left_so_far(entries, target, source, done), key, layout),
            key,
        ),
    decreases entries.len(),
{
    let now = left_so_far(entries, target, source, done);
    if entries.len() > 0 {
        let before = left_so_far(entries.drop_last(), target, source, done);
        lemma_key_goes(entries.drop_last(), target, source, done, key, layout);
        if now != before {
            assert(now.drop_last() =~= before);
            let changed = with_entry(now, key, layout);
            assert(changed.drop_last() =~= with_entry(before, key, layout));
            assert(changed.len() > 0);
        }
    } else {
        assert(with_entry(now, key, layout) =~= now);
    }
}

/// Going through a key that is not there.
pub proof fn lemma_key_missing(
    entries: Seq<EntryLayout>,
    target: TomlTree,
    source: TomlTree,
    done: Set<Seq<char>>,
    key: Seq<char>,
)
    requires
        !done.contains(key),
        !has_entry(left_so_far(entries, target, source, done), key),
    ensures
        left_so_far(entries, target, source, done.insert(key)) == left_so_far(
            entries,
            target,
            source,
            done,
        ),
{
    let now = left_so_far(entries, target, source, done);
    assert forall|i: int| 0 <= i < entries.len() implies (#[trigger] entries[i]).key != key by {
        if entries[i].key == key {
            lemma_still_there(entries, target, source, done, i);
            let j = choose|j: int| 0 <= j < now.len() && now[j] == entries[i];
            assert(now[j].key == key);
        }
    }
    lemma_key_unused(entries, target, source, done, key);
}

proof fn lemma_key_unused(
    entries: Seq<EntryLayout>,
    target: TomlTree,
    source: TomlTree,
    done: Set<Seq<char>>,
    key: Seq<char>,
)
    requires
        forall|i: int| 0 <= i < entries.len() ==> (#[trigger] entries[i]).key != key,
    ensures
        left_so_far(entries, target, source, done.insert(key)) == left_so_far(
            entries,
            target,
            source,
            done,
        ),
    decreases entries.len(),
{
    if entries.len() > 0 {
        assert(entries[entries.len() - 1] == entries.last());
        lemma_key_unused(entries.drop_last(), target, source, done, key);
    }
}

/// Whether no two entries have the same key.
pub open spec fn distinct_keys(entries: Seq<EntryLayout>) -> bool {
    forall|i: int, j: int|
        0 <= i < j < entries.len() ==> (#[trigger] entries[i]).key != (#[trigger] entries[j]).key
}

/// Whether one of the first `n` entries has a key.
pub open spec fn among(entries: Seq<EntryLayout>, n: nat, key: Seq<char>) -> bool {
    exists|j: int| 0 <= j < n && (#[trigger] entries[j]).key == key
}

/// What laying the first `n` entries of a table over another does to its entries, one by
/// one.
proof fn lemma_merged_entries(target: Layout, source: Layout, n: nat)
    requires
        n <= source.entries().len(),
        distinct_keys(target.entries()),
        distinct_keys(source.entries()),
    ensures
        ({
            let old = target.entries();
            let new = source.entries();
            let after = merged_entries(target, source, n);
            &&& after.len() >= old.len()
            &&& forall|i: int|
                0 <= i < old.len() ==> (#[trigger] after[i]).key == old[i].key && after[i].form
                    == old[i].form
            &&& forall|i: int|
                0 <= i < old.len() && !among(new, n, old[i].key) ==> (#[trigger] after[i]).layout
                    == old[i].layout
            &&& forall|i: int, j: int|
                0 <= i < old.len() && 0 <= j < n && old[i].key == (#[trigger] new[j]).key ==> (
                #[trigger] after[i]).layout == merged_layout(old[i].layout, new[j].layout)
            &&& forall|i: int|
                old.len() <= i < after.len() ==> among(new, n, (#[trigger] after[i]).key)
                    && !has_entry(old, after[i].key) && after[i].form == KeyForm::usual()
        }),
    decreases n,
{
    if n > 0 {
        let old = target.entries();
        let new = source.entries();
        let m = (n - 1) as nat;
        lemma_merged_entries(target, source, m);
        let before = merged_entries(target, source, m);
        let after = merged_entries(target, source, n);
        let key = new[n - 1].key;
        assert(!among(new, m, key));
        assert(among(new, n, key));
        assert forall|k: Seq<char>| k != key implies among(new, n, k) == among(new, m, k) by {
            if among(new, n, k) {
                let j = choose|j: int| 0 <= j < n && (#[trigger] new[j]).key == k;
                assert(0 <= j < m && new[j].key == k);
            }
            if among(new, m, k) {
                let j = choose|j: int| 0 <= j < m && (#[trigger] new[j]).key == k;
                assert(0 <= j < n && new[j].key == k);
            }
        }
        if has_entry(before, key) {
            let place = choose|i: int| 0 <= i < before.len() && (#[trigger] before[i]).key == key;
            if place >= old.len() {
                assert(among(new, m, before[place].key));
            }
            assert(0 <= place < old.len());
            assert(old[place].key == key);
            assert(entry_at(before, key) == before[place].layout);
            assert(before[place].layout == old[place].layout);
            assert forall|i: int| 0 <= i < old.len() && i != place implies (
            #[trigger] old[i]).key != key by {
                if i < place {
                    assert(old[i].key != old[place].key);
                } else {
                    assert(old[place].key != old[i].key);
                }
            }
            assert forall|i: int| 0 <= i < before.len() && i != place implies (
            #[trigger] before[i]).key != key by {
                if i >= old.len() {
                    assert(among(new, m, before[i].key));
                } else {
                    assert(old[i].key != key);
                }
            }
            assert forall|i: int, j: int|
                0 <= i < old.len() && 0 <= j < n && old[i].key == (#[trigger] new[j]).key implies (
            #[trigger] after[i]).layout == merged_layout(old[i].layout, new[j].layout) by {
                assert(before[i].key == old[i].key);
                if i == place {
                    if j < n - 1 {
                        assert(new[j].key != new[n - 1].key);
                    }
                } else {
                    assert(old[i].key != key);
                    assert(j < m);
                    assert(before[i].layout == merged_layout(old[i].layout, new[j].layout));
                }
            }
            assert forall|i: int|
                0 <= i < old.len() && !among(new, n, old[i].key) implies (
            #[trigger] after[i]).layout == old[i].layout by {
                assert(old[i].key != key);
                assert(before[i].layout == old[i].layout);
            }
            assert forall|i: int| old.len() <= i < after.len() implies {
                &&& among(new, n, (#[trigger] after[i]).key)
                &&& !has_entry(old, after[i].key)
                &&& after[i].form == KeyForm::usual()
            } by {
                assert(before[i].key != key);
                assert(among(new, m, before[i].key));
            }
        } else {
            assert forall|i: int| 0 <= i < old.len() implies (#[trigger] old[i]).key != key by {
                assert(before[i].key == old[i].key);
            }
            assert forall|i: int, j: int|
                0 <= i < old.len() && 0 <= j < n && old[i].key == (#[trigger] new[j]).key implies (
            #[trigger] after[i]).layout == merged_layout(old[i].layout, new[j].layout) by {
                assert(old[i].key != key);
                assert(j < m);
                assert(before[i].layout == merged_layout(old[i].layout, new[j].layout));
                assert(after[i] == before[i]);
            }
            assert forall|i: int|
                0 <= i < old.len() && !among(new, n, old[i].key) implies (
            #[trigger] after[i]).layout == old[i].layout by {
                assert(old[i].key != key);
                assert(before[i].layout == old[i].layout);
            }
            assert forall|i: int| old.len() <= i < after.len() implies {
                &&& among(new, n, (#[trigger] after[i]).key)
                &&& !has_entry(old, after[i].key)
                &&& after[i].form == KeyForm::usual()
            } by {
                if i < before.len() {
                    assert(after[i] == before[i]);
                    assert(before[i].key != key);
                    assert(among(new, m, before[i].key));
                }
            }
        }
    } else {
        assert(forall|k: Seq<char>| !among(source.entries(), 0, k));
    }
}

/// Law: laying a table over another leaves everything around the other's entries as it was,
/// its header, or the lack of one, among it. Every entry stays in its place, with its key
/// and the comments in front of it; where the new table has nothing under that key, the rest
/// of the entry stays as well, and where it has something, the same holds within. New
/// entries come behind.
pub proof fn law_merging_keeps_layout(target: Layout, source: Layout, i: int)
    requires
        target.is_table_like() && source.is_table_like(),
        distinct_keys(target.entries()),
        distinct_keys(source.entries()),
        0 <= i < target.entries().len(),
    ensures
        ({
            let after = merged_layout(target, source);
            let old = target.entries()[i];
            &&& after.with_entries(target.entries()) == target
            &&& after.entries().len() >= target.entries().len()
            &&& after.entries()[i].key == old.key
            &&& after.entries()[i].form == old.form
            &&& after.entries()[i].layout == if has_entry(source.entries(), old.key) {
                merged_layout(old.layout, entry_at(source.entries(), old.key))
            } else {
                old.layout
            }
        }),
{
    let n = source.entries().len();
    let new = source.entries();
    let old = target.entries()[i];
    lemma_merged_entries(target, source, n);
    let after = merged_entries(target, source, n);
    assert(after[i].key == old.key);
    if has_entry(new, old.key) {
        let j = choose|j: int| 0 <= j < new.len() && (#[trigger] new[j]).key == old.key;
        assert(new[j].key == old.key);
    } else {
        assert(!among(new, n, old.key));
    }
}

/// Whether `after` is some of the entries of `before` in their order, each with its key and
/// the comments in front of it.
pub open spec fn is_thinned(before: Seq<EntryLayout>, after: Seq<EntryLayout>) -> bool
    decreases before.len(),
{
    if before.len() == 0 {
        after.len() == 0
    } else {
        ||| is_thinned(before.drop_last(), after)
        ||| {
            &&& after.len() > 0
            &&& after.last().key == before.last().key
            &&& after.last().form == before.last().form
            &&& is_thinned(before.drop_last(), after.drop_last())
        }
    }
}

/// Law: taking a table out of another leaves everything around the other's entries as it
/// was, and those that stay in their order, each with its key and the comments in front of
/// it.
pub proof fn law_taking_out_keeps_layout(layout: Layout, target: TomlTree, source: TomlTree)
    requires
        layout.is_table_like(),
        target.is_table_like() && source.is_table_like(),
    ensures
        left_layout(layout, target, source).with_entries(layout.entries()) == layout,
        is_thinned(layout.entries(), left_layout(layout, target, source).entries()),
{
    lemma_left_is_thinned(layout.entries(), target, source);
}

proof fn lemma_left_is_thinned(entries: Seq<EntryLayout>, target: TomlTree, source: TomlTree)
    ensures
        is_thinned(entries, left_entries(entries, target, source)),
    decreases entries.len(),
{
    if entries.len() > 0 {
        lemma_left_is_thinned(entries.drop_last(), target, source);
        let before = left_entries(entries.drop_last(), target, source);
        let after = left_entries(entries, target, source);
        if after != before {
            assert(after.drop_last() =~= before);
        }
    }
}

/// Whether these are the entries of a table that has `map`: one for each key.
pub open spec fn entries_fit(entries: Seq<EntryLayout>, map: Map<Seq<char>, TomlTree>) -> bool {
    &&& distinct_keys(entries)
    &&& forall|key: Seq<char>| #[trigger] map.contains_key(key) <==> has_entry(entries, key)
}

/// Law: a table that shares no value with another is written as before, once it has been laid
/// over that one and taken out again.
pub proof fn law_layout_comes_back(
    layout: Layout,
    target: TomlTree,
    new_layout: Layout,
    source: TomlTree,
)
    requires
        layout.fits(target),
        new_layout.fits(source),
        target.is_table_like() && source.is_table_like(),
        toml_disjoint(target, source),
        source.comparable(),
    ensures
        left_layout(
            merged_layout(layout, new_layout),
            toml_merged(target, source),
            source,
        ) == layout,
    decreases source,
{
    let old = layout.entries();
    let new = new_layout.entries();
    let n = new.len();
    let both = toml_merged(target, source);
    let merged = merged_entries(layout, new_layout, n);
    lemma_fits(layout, target);
    lemma_fits(new_layout, source);
    lemma_merged_entries(layout, new_layout, n);
    lemma_merged_entry(target, source, Seq::empty());
    law_toml_removed_undoes_merged(target, source);
    let kept = kept_table(both, source);
    assert(kept == target.table()) by {
        assert(both.with_table(kept).table() == kept);
    }
    assert forall|i: int| 0 <= i < old.len() implies left_entry(merged[i], both, source) == Some(
        #[trigger] old[i],
    ) by {
        let key = old[i].key;
        assert(merged[i].key == key);
        assert(has_entry(old, key));
        assert(target.table().contains_key(key));
        if source.table().contains_key(key) {
            assert(has_entry(new, key));
            let j = choose|j: int| 0 <= j < new.len() && (#[trigger] new[j]).key == key;
            assert(merged[i].layout == merged_layout(old[i].layout, new[j].layout));
            lemma_merged_entry(target, source, key);
            lemma_entry_is_smaller(source, key);
            lemma_disjoint_entry(target, source, key);
            lemma_comparable_table(source);
            assert(old[i].layout.fits(target.table()[key]));
            assert(new[j].layout.fits(source.table()[key]));
            law_layout_comes_back(
                old[i].layout,
                target.table()[key],
                new[j].layout,
                source.table()[key],
            );
        } else {
            if among(new, n, key) {
                let j = choose|j: int| 0 <= j < n && (#[trigger] new[j]).key == key;
                assert(has_entry(new, key));
            }
            assert(merged[i].layout == old[i].layout);
        }
    }
    assert forall|i: int| old.len() <= i < merged.len() implies left_entry(
        #[trigger] merged[i],
        both,
        source,
    ) is None by {
        let key = merged[i].key;
        assert(among(new, n, key));
        assert(has_entry(new, key)) by {
            let j = choose|j: int| 0 <= j < n && (#[trigger] new[j]).key == key;
            assert(new[j].key == key);
        }
        assert(source.table().contains_key(key));
        assert(!has_entry(old, key));
        assert(!kept.contains_key(key));
    }
    lemma_left_one_by_one(merged, old, both, source);
    assert(layout.with_entries(old) == layout);
}

/// What is left of one entry of a table that says `target` after the table `source` was taken
/// out of it.
pub open spec fn left_entry(
    entry: EntryLayout,
    target: TomlTree,
    source: TomlTree,
) -> Option<EntryLayout> {
    if !source.table().contains_key(entry.key) {
        Some(entry)
    } else if kept_table(target, source).contains_key(entry.key) {
        Some(
            EntryLayout {
                layout: left_layout(
                    entry.layout,
                    target.table()[entry.key],
                    source.table()[entry.key],
                ),
                ..entry
            },
        )
    } else {
        None
    }
}

/// Entries of which the first become `left`, and the others go.
proof fn lemma_left_one_by_one(
    entries: Seq<EntryLayout>,
    left: Seq<EntryLayout>,
    target: TomlTree,
    source: TomlTree,
)
    requires
        left.len() <= entries.len(),
        forall|i: int|
            0 <= i < left.len() ==> left_entry(entries[i], target, source) == Some(
                #[trigger] left[i],
            ),
        forall|i: int|
            left.len() <= i < entries.len() ==> left_entry(
                #[trigger] entries[i],
                target,
                source,
            ) is None,
    ensures
        left_entries(entries, target, source) == left,
    decreases entries.len(),
{
    if entries.len() == 0 {
        assert(left =~= entries);
    } else {
        let fewer = entries.drop_last();
        if left.len() == entries.len() {
            let fewer_left = left.drop_last();
            assert forall|i: int| 0 <= i < fewer_left.len() implies left_entry(
                fewer[i],
                target,
                source,
            ) == Some(#[trigger] fewer_left[i]) by {
                assert(left[i] == fewer_left[i]);
            }
            lemma_left_one_by_one(fewer, fewer_left, target, source);
            assert(left_entry(entries.last(), target, source) == Some(left[left.len() - 1]));
            assert(fewer_left.push(left.last()) =~= left);
        } else {
            assert forall|i: int| 0 <= i < left.len() implies left_entry(
                fewer[i],
                target,
                source,
            ) == Some(#[trigger] left[i]) by {
                assert(fewer[i] == entries[i]);
            }
            assert forall|i: int| left.len() <= i < fewer.len() implies left_entry(
                #[trigger] fewer[i],
                target,
                source,
            ) is None by {
                assert(left_entry(entries[i], target, source) is None);
            }
            lemma_left_one_by_one(fewer, left, target, source);
            assert(left_entry(entries[entries.len() - 1], target, source) is None);
        }
    }
}

impl Layout {
    /// Whether this is how an item that says `content` can be written: a table in its
    /// notation, with one entry for each key.
    pub open spec fn fits(self, content: TomlTree) -> bool
        decreases content,
    {
        match content {
            TomlTree::Table(map) => {
                &&& self is Table
                &&& entries_fit(self.entries(), map)
                &&& forall|i: int|
                    0 <= i < self.entries().len() && map.contains_key(
                        (#[trigger] self.entries()[i]).key,
                    ) ==> self.entries()[i].layout.fits(map[self.entries()[i].key])
            },
            TomlTree::Inline(map) => {
                &&& self is Inline
                &&& entries_fit(self.entries(), map)
                &&& forall|i: int|
                    0 <= i < self.entries().len() && map.contains_key(
                        (#[trigger] self.entries()[i]).key,
                    ) ==> self.entries()[i].layout.fits(map[self.entries()[i].key])
            },
            TomlTree::Absent => self is Vacant,
            TomlTree::Array(items) => self is Array && self.items().len() == items.len(),
            TomlTree::TableArray(_) => self is TableArray,
            _ => self is Plain,
        }
    }
}

/// What it says of a table that it can be written so.
proof fn lemma_fits(layout: Layout, content: TomlTree)
    requires
        layout.fits(content),
        content.is_table_like(),
    ensures
        layout.is_table_like(),
        layout is Table <==> content is Table,
        entries_fit(layout.entries(), content.table()),
        forall|i: int|
            0 <= i < layout.entries().len() ==> (#[trigger] layout.entries()[i]).layout.fits(
                content.table()[layout.entries()[i].key],
            ),
{
    match content {
        TomlTree::Table(map) => {
            assert(content.table() == map);
        },
        TomlTree::Inline(map) => {
            assert(content.table() == map);
        },
        _ => {},
    }
    let entries = layout.entries();
    assert forall|i: int| 0 <= i < entries.len() implies (
    #[trigger] entries[i]).layout.fits(content.table()[entries[i].key]) by {
        assert(has_entry(entries, entries[i].key));
        assert(content.table().contains_key(entries[i].key));
    }
}

/// Law: taking a table out of another leaves each entry just as it is written that the other
/// says nothing of, and each that stays where one of the two has neither a table nor an array;
/// one that goes is not written any more.
pub proof fn law_entries_that_stay_are_untouched(
    layout: Layout,
    target: TomlTree,
    source: TomlTree,
    i: int,
)
    requires
        layout.is_table_like(),
        target.is_table_like() && source.is_table_like(),
        0 <= i < layout.entries().len(),
    ensures
        ({
            let entry = layout.entries()[i];
            let left = left_layout(layout, target, source).entries();
            &&& !source.table().contains_key(entry.key) ==> left.contains(entry)
            &&& source.table().contains_key(entry.key) && toml_removed(
                target,
                source,
            ).table().contains_key(entry.key) && !target.table()[entry.key].is_table_like()
                && !(target.table()[entry.key] is Array) ==> left.contains(entry)
            &&& source.table().contains_key(entry.key) && !toml_removed(
                target,
                source,
            ).table().contains_key(entry.key) ==> !has_entry(left, entry.key)
        }),
{
    let entry = layout.entries()[i];
    let key = entry.key;
    let left = left_entries(layout.entries(), target, source);
    assert(toml_removed(target, source).table() == kept_table(target, source));
    if source.table().contains_key(key) && !kept_table(target, source).contains_key(key) {
        lemma_gone_is_not_written(layout.entries(), target, source, key);
    } else if !source.table().contains_key(key) || !target.table()[key].is_table_like() && !(
    target.table()[key] is Array) {
        lemma_stays_as_written(layout.entries(), target, source, i);
    }
}

proof fn lemma_gone_is_not_written(
    entries: Seq<EntryLayout>,
    target: TomlTree,
    source: TomlTree,
    key: Seq<char>,
)
    requires
        source.table().contains_key(key),
        !kept_table(target, source).contains_key(key),
    ensures
        !has_entry(left_entries(entries, target, source), key),
    decreases entries.len(),
{
    if entries.len() > 0 {
        lemma_gone_is_not_written(entries.drop_last(), target, source, key);
        let before = left_entries(entries.drop_last(), target, source);
        let after = left_entries(entries, target, source);
        assert forall|i: int| 0 <= i < after.len() implies (#[trigger] after[i]).key != key by {
            if i < before.len() {
                assert(after[i] == before[i]);
            }
        }
    }
}

proof fn lemma_stays_as_written(
    entries: Seq<EntryLayout>,
    target: TomlTree,
    source: TomlTree,
    i: int,
)
    requires
        0 <= i < entries.len(),
        ({
            let key = entries[i].key;
            ||| !source.table().contains_key(key)
            ||| kept_table(target, source).contains_key(key) && !target.table()[key].is_table_like()
                && !(target.table()[key] is Array)
        }),
    ensures
        left_entries(entries, target, source).contains(entries[i]),
    decreases entries.len(),
{
    let before = left_entries(entries.drop_last(), target, source);
    let after = left_entries(entries, target, source);
    if i == entries.len() - 1 {
        let key = entries[i].key;
        if source.table().contains_key(key) {
            assert(left_layout(entries[i].layout, target.table()[key], source.table()[key])
                == entries[i].layout);
        }
        assert(after.last() == entries[i]);
        assert(after[after.len() - 1] == entries[i]);
    } else {
        assert(entries.drop_last()[i] == entries[i]);
        lemma_stays_as_written(entries.drop_last(), target, source, i);
        let j = choose|j: int| 0 <= j < before.len() && before[j] == entries[i];
        assert(after[j] == entries[i]);
    }
}

/// Law: once a table was laid over another, each of its entries is written there.
pub proof fn law_merging_writes_all_entries(target: Layout, source: Layout, j: int)
    requires
        target.is_table_like() && source.is_table_like(),
        0 <= j < source.entries().len(),
    ensures
        has_entry(merged_layout(target, source).entries(), source.entries()[j].key),
{
    lemma_laid_over_is_written(target, source, source.entries().len(), j);
}

proof fn lemma_laid_over_is_written(target: Layout, source: Layout, n: nat, j: int)
    requires
        0 <= j < n <= source.entries().len(),
    ensures
        has_entry(merged_entries(target, source, n), source.entries()[j].key),
    decreases n,
{
    let m = (n - 1) as nat;
    let before = merged_entries(target, source, m);
    let after = merged_entries(target, source, n);
    let key = source.entries()[j].key;
    if j < m {
        lemma_laid_over_is_written(target, source, m, j);
    }
    if has_entry(before, key) {
        let i = choose|i: int| 0 <= i < before.len() && (#[trigger] before[i]).key == key;
        assert(after[i].key == key);
    } else {
        assert(after[after.len() - 1].key == key);
    }
}

} // verus!
