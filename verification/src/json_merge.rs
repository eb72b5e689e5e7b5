//! Laying one JSON document over another, finding it there, and taking it out again.

use vstd::prelude::*;

use crate::json::{
    as_array, as_array_mut, as_object, as_object_mut, copy, equal, map_get, map_get_mut, map_insert,
    map_is_empty, map_keys, map_remove, JsonMap,
};

verus! {

use crate::json::{entries, json_eq, tree, trees, JsonTree};

/// Whether `target` contains `source`: an object contains another that has a part
/// of its entries, each contained in its own; an array contains another whose
/// items can be claimed one by one; anything else contains its equals.
pub open spec fn contains(target: JsonTree, source: JsonTree) -> bool
    decreases source, 0nat,
{
    match source {
        JsonTree::Object(wanted) => match target {
            JsonTree::Object(have) => forall|key: Seq<char>| #[trigger]
                wanted.contains_key(key) ==> have.contains_key(key) && contains(
                    have[key],
                    wanted[key],
                ),
            _ => false,
        },
        JsonTree::Array(wanted) => match target {
            JsonTree::Array(have) => claims(have, Set::empty(), wanted, 0),
            _ => false,
        },
        _ => json_eq(target, source),
    }
}

/// Whether the items of `wanted` from `from` on each find an item of `have` that
/// contains them: in order, each claims the first such item that is not `taken`.
pub open spec fn claims(have: Seq<JsonTree>, taken: Set<int>, wanted: Seq<JsonTree>, from: nat) -> bool
    decreases wanted, wanted.len() - from,
{
    from >= wanted.len() || exists|i: int|
        {
            &&& 0 <= i < have.len() && !taken.contains(i)
            &&& contains(#[trigger] have[i], wanted[from as int])
            &&& forall|j: int|
                0 <= j < i && !taken.contains(j) ==> !contains(
                    #[trigger] have[j],
                    wanted[from as int],
                )
            &&& claims(have, taken.insert(i), wanted, from + 1)
        }
}

/// Whether `i` is the first item of `have` that contains `wanted`.
pub open spec fn is_first_holder(have: Seq<JsonTree>, wanted: JsonTree, i: int) -> bool {
    &&& 0 <= i < have.len()
    &&& contains(have[i], wanted)
    &&& forall|j: int| 0 <= j < i ==> !contains(#[trigger] have[j], wanted)
}

/// `have` after each item of `wanted` from `from` on has in turn taken out the
/// first item that contains it, where there is one.
pub open spec fn without_items(have: Seq<JsonTree>, wanted: Seq<JsonTree>, from: nat) -> Seq<JsonTree>
    decreases wanted.len() - from,
{
    if from >= wanted.len() {
        have
    } else if exists|i: int| is_first_holder(have, wanted[from as int], i) {
        let i = choose|i: int| is_first_holder(have, wanted[from as int], i);
        without_items(have.remove(i), wanted, from + 1)
    } else {
        without_items(have, wanted, from + 1)
    }
}

/// `source` laid over `target`: objects are joined key by key, anything else of
/// `source` takes the place of what `target` had.
pub open spec fn merged(target: JsonTree, source: JsonTree) -> JsonTree
    decreases source,
{
    match (target, source) {
        (JsonTree::Object(old), JsonTree::Object(new)) => JsonTree::Object(
            Map::new(
                |key: Seq<char>| old.contains_key(key) || new.contains_key(key),
                |key: Seq<char>|
                    if new.contains_key(key) {
                        if old.contains_key(key) {
                            merged(old[key], new[key])
                        } else {
                            new[key]
                        }
                    } else {
                        old[key]
                    },
            ),
        ),
        _ => source,
    }
}

/// The entries of an object that are left when an object `source` is taken out of it.
pub open spec fn kept_entries(old: Map<Seq<char>, JsonTree>, source: JsonTree) -> Map<
    Seq<char>,
    JsonTree,
>
    decreases source, 0nat,
{
    match source {
        JsonTree::Object(gone) => Map::new(
            |key: Seq<char>|
                old.contains_key(key) && (gone.contains_key(key) ==> remainder(
                    old[key],
                    gone[key],
                ) is Some),
            |key: Seq<char>|
                if gone.contains_key(key) {
                    remainder(old[key], gone[key])->0
                } else {
                    old[key]
                },
        ),
        _ => old,
    }
}

/// What is left of a value when `source` is taken out of it; nothing, when all of
/// it goes.
pub open spec fn remainder(target: JsonTree, source: JsonTree) -> Option<JsonTree>
    decreases source, 1nat,
{
    match (target, source) {
        (JsonTree::Object(old), JsonTree::Object(_)) => {
            let kept = kept_entries(old, source);
            if kept == Map::<Seq<char>, JsonTree>::empty() {
                None
            } else {
                Some(JsonTree::Object(kept))
            }
        },
        (JsonTree::Array(old), JsonTree::Array(gone)) => {
            let kept = without_items(old, gone, 0);
            if kept.len() == 0 {
                None
            } else {
                Some(JsonTree::Array(kept))
            }
        },
        _ => if contains(target, source) {
            None
        } else {
            Some(target)
        },
    }
}

/// `target` with `source` taken out: from an object, an object's entries; from
/// anything else, or for anything else, nothing.
pub open spec fn removed(target: JsonTree, source: JsonTree) -> JsonTree {
    if target is Object && source is Object {
        match remainder(target, source) {
            Some(left) => left,
            None => JsonTree::empty_object(),
        }
    } else {
        target
    }
}

/// The next item of `wanted` claims the first free item that contains it.
proof fn lemma_claims_step(
    have: Seq<JsonTree>,
    taken: Set<int>,
    wanted: Seq<JsonTree>,
    from: nat,
    i: int,
)
    requires
        from < wanted.len(),
        0 <= i < have.len() && !taken.contains(i),
        contains(have[i], wanted[from as int]),
        forall|j: int|
            0 <= j < i && !taken.contains(j) ==> !contains(#[trigger] have[j], wanted[from as int]),
    ensures
        claims(have, taken, wanted, from) == claims(have, taken.insert(i), wanted, from + 1),
{
}

/// What taking an object out of another leaves, entry by entry.
proof fn lemma_removed_entries(old: Map<Seq<char>, JsonTree>, gone: Map<Seq<char>, JsonTree>)
    ensures
        removed(JsonTree::Object(old), JsonTree::Object(gone)) == JsonTree::Object(
            kept_entries(old, JsonTree::Object(gone)),
        ),
{
}

/// Whether `target` contains `source`.
pub fn json_is_subset(target: &serde_json::Value, source: &serde_json::Value) -> (result: bool)
    ensures
        result == contains(tree(*target), tree(*source)),
    decreases tree(*source), 0nat,
{
    if let Some(wanted) = as_object(source) {
        let have = match as_object(target) {
            Some(have) => have,
            None => {
                return false;
            },
        };
        let keys = map_keys(wanted);
        let mut n: usize = 0;
        while n < keys.len()
            invariant
                n <= keys.len(),
                tree(*source) == JsonTree::Object(entries(*wanted)),
                tree(*target) == JsonTree::Object(entries(*have)),
                forall|i: int|
                    0 <= i < keys@.len() ==> entries(*wanted).contains_key(#[trigger] keys@[i]@),
                forall|i: int|
                    0 <= i < n ==> entries(*have).contains_key(#[trigger] keys@[i]@) && contains(
                        entries(*have)[keys@[i]@],
                        entries(*wanted)[keys@[i]@],
                    ),
            decreases keys.len() - n,
        {
            let key = keys[n].as_str();
            assert(entries(*wanted).contains_key(key@));
            let contained = match (map_get(have, key), map_get(wanted, key)) {
                (Some(have_value), Some(wanted_value)) => {
                    assert(decreases_to!(tree(*source) => tree(*source)->Object_0[key@]));
                    json_is_subset(have_value, wanted_value)
                },
                _ => false,
            };
            if !contained {
                assert(!contains(tree(*target), tree(*source)));
                return false;
            }
            n += 1;
        }
        true
    } else if let Some(wanted) = as_array(source) {
        match as_array(target) {
            Some(have) => {
                assert(decreases_to!(tree(*source) => tree(*source)->Array_0));
                json_array_contains_subset(have, wanted)
            },
            None => false,
        }
    } else {
        equal(target, source)
    }
}

/// Whether the items of `source_arr` can be claimed one by one from `target_arr`.
pub fn json_array_contains_subset(
    target_arr: &Vec<serde_json::Value>,
    source_arr: &Vec<serde_json::Value>,
) -> (result: bool)
    ensures
        result == claims(trees(target_arr@), Set::empty(), trees(source_arr@), 0),
    decreases trees(source_arr@), 1nat,
{
    let ghost have = trees(target_arr@);
    let ghost wanted = trees(source_arr@);
    let mut matched: Vec<bool> = Vec::new();
    while matched.len() < target_arr.len()
        invariant
            matched@.len() <= target_arr@.len(),
            forall|i: int| 0 <= i < matched@.len() ==> !#[trigger] matched@[i],
        decreases target_arr@.len() - matched@.len(),
    {
        matched.push(false);
    }
    let ghost mut taken: Set<int> = Set::empty();
    let mut n: usize = 0;
    while n < source_arr.len()
        invariant
            n <= source_arr.len(),
            have == trees(target_arr@),
            wanted == trees(source_arr@),
            matched@.len() == target_arr@.len(),
            forall|i: int| 0 <= i < matched@.len() ==> (#[trigger] matched@[i] <==> taken.contains(i)),
            claims(have, Set::empty(), wanted, 0) == claims(have, taken, wanted, n as nat),
        decreases source_arr.len() - n,
    {
        assert(tree(source_arr@[n as int]) == wanted[n as int]);
        let mut found: Option<usize> = None;
        let mut i: usize = 0;
        while i < target_arr.len() && found.is_none()
            invariant
                i <= target_arr.len(),
                n < source_arr.len(),
                have == trees(target_arr@),
                wanted == trees(source_arr@),
                tree(source_arr@[n as int]) == wanted[n as int],
                matched@.len() == target_arr@.len(),
                forall|k: int|
                    0 <= k < matched@.len() ==> (#[trigger] matched@[k] <==> taken.contains(k)),
                found is None ==> forall|j: int|
                    0 <= j < i && !taken.contains(j) ==> !contains(
                        #[trigger] have[j],
                        wanted[n as int],
                    ),
                found matches Some(f) ==> {
                    &&& 0 <= f < have.len() && !taken.contains(f as int)
                    &&& contains(have[f as int], wanted[n as int])
                    &&& forall|j: int|
                        0 <= j < f && !taken.contains(j) ==> !contains(
                            #[trigger] have[j],
                            wanted[n as int],
                        )
                },
            decreases target_arr.len() - i,
        {
            assert(tree(target_arr@[i as int]) == have[i as int]);
            assert(decreases_to!(wanted => wanted[n as int]));
            if !matched[i] && json_is_subset(&target_arr[i], &source_arr[n]) {
                found = Some(i);
            }
            i += 1;
        }
        match found {
            Some(f) => {
                matched.set(f, true);
                proof {
                    lemma_claims_step(have, taken, wanted, n as nat, f as int);
                    taken = taken.insert(f as int);
                }
            },
            None => {
                return false;
            },
        }
        n += 1;
    }
    true
}

/// Takes out of `target_arr`, for each item of `source_arr` in turn, the first item
/// that contains it.
pub fn json_remove_array_items(
    target_arr: &mut Vec<serde_json::Value>,
    source_arr: &Vec<serde_json::Value>,
)
    ensures
        trees(final(target_arr)@) == without_items(
            trees(old(target_arr)@),
            trees(source_arr@),
            0,
        ),
{
    let ghost wanted = trees(source_arr@);
    let mut n: usize = 0;
    while n < source_arr.len()
        invariant
            n <= source_arr.len(),
            wanted == trees(source_arr@),
            without_items(trees(old(target_arr)@), wanted, 0) == without_items(
                trees(target_arr@),
                wanted,
                n as nat,
            ),
        decreases source_arr.len() - n,
    {
        let ghost have = trees(target_arr@);
        let mut found: Option<usize> = None;
        let mut i: usize = 0;
        while i < target_arr.len() && found.is_none()
            invariant
                i <= target_arr.len(),
                n < source_arr.len(),
                wanted == trees(source_arr@),
                have == trees(target_arr@),
                found is None ==> forall|j: int|
                    0 <= j < i ==> !contains(#[trigger] have[j], wanted[n as int]),
                found matches Some(f) ==> is_first_holder(have, wanted[n as int], f as int),
            decreases target_arr.len() - i,
        {
            if json_is_subset(&target_arr[i], &source_arr[n]) {
                found = Some(i);
            }
            i += 1;
        }
        match found {
            Some(f) => {
                target_arr.remove(f);
                proof {
                    let first = choose|i: int| is_first_holder(have, wanted[n as int], i);
                    lemma_one_first_holder(have, wanted[n as int], f as int, first);
                    assert(trees(target_arr@) =~= have.remove(f as int));
                }
            },
            None => {
                assert(forall|i: int| !is_first_holder(have, wanted[n as int], i));
            },
        }
        n += 1;
    }
}

/// Only one item is the first that contains `wanted`.
proof fn lemma_one_first_holder(have: Seq<JsonTree>, wanted: JsonTree, i: int, j: int)
    requires
        is_first_holder(have, wanted, i),
        is_first_holder(have, wanted, j),
    ensures
        i == j,
{
}

/// Lays `source` over `target`.
pub fn json_deep_merge(target: &mut serde_json::Value, source: &serde_json::Value)
    ensures
        tree(*final(target)) == merged(tree(*old(target)), tree(*source)),
    decreases tree(*source), 1nat,
{
    if let Some(source_map) = as_object(source) {
        if let Some(target_map) = as_object_mut(target) {
            json_merge_entries(target_map, source_map);
            return;
        }
    }
    *target = copy(source);
}

fn json_merge_entries(target_map: &mut JsonMap, source_map: &JsonMap)
    ensures
        JsonTree::Object(entries(*final(target_map))) == merged(
            JsonTree::Object(entries(*old(target_map))),
            JsonTree::Object(entries(*source_map)),
        ),
    decreases JsonTree::Object(entries(*source_map)), 0nat,
{
    let ghost before = entries(*target_map);
    let ghost source = JsonTree::Object(entries(*source_map));
    let ghost new = entries(*source_map);
    let ghost mut done: Set<Seq<char>> = Set::empty();
    let keys = map_keys(source_map);
    let mut n: usize = 0;
    while n < keys.len()
        invariant
            n <= keys.len(),
            before == entries(*old(target_map)),
            new == entries(*source_map),
            source == JsonTree::Object(new),
            forall|i: int| 0 <= i < keys@.len() ==> new.contains_key(#[trigger] keys@[i]@),
            forall|i: int, j: int|
                0 <= i < j < keys@.len() ==> (#[trigger] keys@[i])@ != (#[trigger] keys@[j])@,
            forall|i: int| 0 <= i < n ==> done.contains(#[trigger] keys@[i]@),
            forall|i: int| n <= i < keys@.len() ==> !done.contains(#[trigger] keys@[i]@),
            forall|key: Seq<char>| #[trigger]
                entries(*target_map).contains_key(key) <==> before.contains_key(key)
                    || done.contains(key),
            forall|key: Seq<char>| #[trigger] done.contains(key) ==> new.contains_key(key),
            forall|key: Seq<char>|
                done.contains(key) ==> #[trigger] entries(*target_map)[key] == (
                if before.contains_key(key) {
                    merged(before[key], new[key])
                } else {
                    new[key]
                }),
            forall|key: Seq<char>|
                before.contains_key(key) && !done.contains(key) ==> #[trigger] entries(
                    *target_map,
                )[key] == before[key],
        decreases keys.len() - n,
    {
        let key = keys[n].as_str();
        assert(new.contains_key(key@));
        if let Some(source_value) = map_get(source_map, key) {
            match map_get_mut(target_map, key) {
                Some(target_value) => {
                    assert(decreases_to!(source => source->Object_0[key@]));
                    json_deep_merge(target_value, source_value);
                },
                None => {
                    map_insert(target_map, key.to_owned(), copy(source_value));
                },
            }
        }
        proof {
            done = done.insert(key@);
        }
        n += 1;
    }
    proof {
        assert forall|key: Seq<char>| new.contains_key(key) implies done.contains(key) by {
            let i = choose|i: int| 0 <= i < keys@.len() && #[trigger] keys@[i]@ == key;
            assert(done.contains(keys@[i]@));
        }
        assert(entries(*target_map) =~= merged(
            JsonTree::Object(before),
            JsonTree::Object(new),
        )->Object_0);
    }
}

/// Takes `source` out of `target`.
pub fn json_deep_remove(target: &mut serde_json::Value, source: &serde_json::Value)
    ensures
        tree(*final(target)) == removed(tree(*old(target)), tree(*source)),
    decreases tree(*source), 1nat,
{
    if let Some(source_map) = as_object(source) {
        if let Some(target_map) = as_object_mut(target) {
            json_remove_entries(target_map, source_map);
        }
    }
}

fn json_remove_entries(target_map: &mut JsonMap, source_map: &JsonMap)
    ensures
        JsonTree::Object(entries(*final(target_map))) == removed(
            JsonTree::Object(entries(*old(target_map))),
            JsonTree::Object(entries(*source_map)),
        ),
    decreases JsonTree::Object(entries(*source_map)), 0nat,
{
    let ghost before = entries(*target_map);
    let ghost source = JsonTree::Object(entries(*source_map));
    let ghost gone = entries(*source_map);
    let ghost mut done: Set<Seq<char>> = Set::empty();
    let keys = map_keys(source_map);
    let mut n: usize = 0;
    while n < keys.len()
        invariant
            n <= keys.len(),
            before == entries(*old(target_map)),
            gone == entries(*source_map),
            source == JsonTree::Object(gone),
            forall|i: int| 0 <= i < keys@.len() ==> gone.contains_key(#[trigger] keys@[i]@),
            forall|i: int, j: int|
                0 <= i < j < keys@.len() ==> (#[trigger] keys@[i])@ != (#[trigger] keys@[j])@,
            forall|i: int| 0 <= i < n ==> done.contains(#[trigger] keys@[i]@),
            forall|i: int| n <= i < keys@.len() ==> !done.contains(#[trigger] keys@[i]@),
            forall|key: Seq<char>| #[trigger] done.contains(key) ==> gone.contains_key(key),
            forall|key: Seq<char>| #[trigger]
                entries(*target_map).contains_key(key) <==> before.contains_key(key) && (
                done.contains(key) ==> remainder(before[key], gone[key]) is Some),
            forall|key: Seq<char>| #[trigger]
                entries(*target_map).contains_key(key) ==> entries(*target_map)[key] == (
                if done.contains(key) {
                    remainder(before[key], gone[key])->0
                } else {
                    before[key]
                }),
        decreases keys.len() - n,
    {
        let key = keys[n].as_str();
        assert(gone.contains_key(key@));
        let mut remove_key = false;
        if let Some(source_value) = map_get(source_map, key) {
            if let Some(target_value) = map_get_mut(target_map, key) {
                assert(decreases_to!(source => source->Object_0[key@]));
                remove_key = json_remove_value(target_value, source_value);
            }
        }
        if remove_key {
            map_remove(target_map, key);
        }
        proof {
            done = done.insert(key@);
        }
        n += 1;
    }
    proof {
        assert forall|key: Seq<char>| gone.contains_key(key) implies done.contains(key) by {
            let i = choose|i: int| 0 <= i < keys@.len() && #[trigger] keys@[i]@ == key;
            assert(done.contains(keys@[i]@));
        }
        lemma_removed_entries(before, gone);
        assert(entries(*target_map) =~= kept_entries(before, source));
    }
}

/// Takes `source` out of one entry's value; says whether nothing of it is left.
fn json_remove_value(target: &mut serde_json::Value, source: &serde_json::Value) -> (emptied: bool)
    ensures
        emptied == (remainder(tree(*old(target)), tree(*source)) is None),
        !emptied ==> tree(*final(target)) == remainder(tree(*old(target)), tree(*source))->0,
    decreases tree(*source), 1nat,
{
    if let Some(source_map) = as_object(source) {
        if let Some(target_map) = as_object_mut(target) {
            proof {
                lemma_removed_entries(entries(*target_map), entries(*source_map));
            }
            json_remove_entries(target_map, source_map);
            return map_is_empty(target_map);
        }
    } else if let Some(source_arr) = as_array(source) {
        if let Some(target_arr) = as_array_mut(target) {
            json_remove_array_items(target_arr, source_arr);
            return target_arr.is_empty();
        }
    }
    json_is_subset(target, source)
}

/// Law: a document contains itself.
pub proof fn law_contains_itself(t: JsonTree)
    requires
        t.nan_free(),
    ensures
        contains(t, t),
    decreases t,
{
    match t {
        JsonTree::Object(map) => {
            assert forall|key: Seq<char>| #[trigger] map.contains_key(key) implies contains(
                map[key],
                map[key],
            ) by {
                assert(map[key].nan_free());
                law_contains_itself(map[key]);
            }
        },
        JsonTree::Array(items) => {
            assert forall|i: int| 0 <= i < items.len() implies contains(
                #[trigger] items[i],
                items[i],
            ) by {
                law_contains_itself(items[i]);
            }
            assert(Set::<int>::empty() =~= Set::new(|i: int| 0 <= i < 0));
            lemma_claims_itself(items, 0);
        },
        _ => {},
    }
}

/// With the items before `from` taken, the rest of an array claim themselves.
proof fn lemma_claims_itself(items: Seq<JsonTree>, from: nat)
    requires
        from <= items.len(),
        forall|i: int| 0 <= i < items.len() ==> contains(#[trigger] items[i], items[i]),
    ensures
        claims(items, Set::new(|i: int| 0 <= i < from), items, from),
    decreases items.len() - from,
{
    if from < items.len() {
        let taken = Set::new(|i: int| 0 <= i < from);
        lemma_claims_itself(items, from + 1);
        assert(taken.insert(from as int) =~= Set::new(|i: int| 0 <= i < from + 1));
        lemma_claims_step(items, taken, items, from, from as int);
    }
}

/// Law: what was laid over a document is contained in the result.
pub proof fn law_merged_contains_source(target: JsonTree, source: JsonTree)
    requires
        source.nan_free(),
    ensures
        contains(merged(target, source), source),
    decreases source,
{
    match (target, source) {
        (JsonTree::Object(old), JsonTree::Object(new)) => {
            let result = merged(target, source)->Object_0;
            assert forall|key: Seq<char>| #[trigger] new.contains_key(key) implies contains(
                result[key],
                new[key],
            ) by {
                assert(new[key].nan_free());
                if old.contains_key(key) {
                    law_merged_contains_source(old[key], new[key]);
                } else {
                    law_contains_itself(new[key]);
                }
            }
        },
        _ => {
            law_contains_itself(source);
        },
    }
}

/// Law: laying a document over itself changes nothing.
pub proof fn law_merged_with_itself(t: JsonTree)
    ensures
        merged(t, t) == t,
    decreases t,
{
    if let JsonTree::Object(map) = t {
        assert forall|key: Seq<char>| map.contains_key(key) implies merged(
            map[key],
            #[trigger] map[key],
        ) == map[key] by {
            law_merged_with_itself(map[key]);
        }
        assert(merged(t, t)->Object_0 =~= map);
    }
}

/// Law: laying the same document over another twice is the same as doing it once.
pub proof fn law_merged_is_idempotent(target: JsonTree, source: JsonTree)
    ensures
        merged(merged(target, source), source) == merged(target, source),
    decreases source,
{
    match (target, source) {
        (JsonTree::Object(old), JsonTree::Object(new)) => {
            let once = merged(target, source)->Object_0;
            assert forall|key: Seq<char>| new.contains_key(key) implies merged(
                once[key],
                #[trigger] new[key],
            ) == once[key] by {
                if old.contains_key(key) {
                    law_merged_is_idempotent(old[key], new[key]);
                } else {
                    law_merged_with_itself(new[key]);
                }
            }
            assert(merged(merged(target, source), source)->Object_0 =~= once);
        },
        _ => {
            law_merged_with_itself(source);
        },
    }
}

/// Law: nothing is left of a document when it is taken out of itself.
pub proof fn law_nothing_left_of_itself(t: JsonTree)
    requires
        t.nan_free(),
    ensures
        remainder(t, t) is None,
    decreases t,
{
    match t {
        JsonTree::Object(map) => {
            assert forall|key: Seq<char>| map.contains_key(key) implies remainder(
                map[key],
                #[trigger] map[key],
            ) is None by {
                law_nothing_left_of_itself(map[key]);
            }
            assert(kept_entries(map, t) =~= Map::<Seq<char>, JsonTree>::empty());
        },
        JsonTree::Array(items) => {
            assert forall|i: int| 0 <= i < items.len() implies contains(
                #[trigger] items[i],
                items[i],
            ) by {
                law_contains_itself(items[i]);
            }
            assert(items.skip(0) =~= items);
            lemma_items_take_out_themselves(items, 0);
        },
        _ => {
            law_contains_itself(t);
        },
    }
}

proof fn lemma_items_take_out_themselves(items: Seq<JsonTree>, from: nat)
    requires
        from <= items.len(),
        forall|i: int| 0 <= i < items.len() ==> contains(#[trigger] items[i], items[i]),
    ensures
        without_items(items.skip(from as int), items, from).len() == 0,
    decreases items.len() - from,
{
    if from < items.len() {
        let have = items.skip(from as int);
        assert(have[0] == items[from as int]);
        assert(is_first_holder(have, items[from as int], 0));
        let first = choose|i: int| is_first_holder(have, items[from as int], i);
        lemma_one_first_holder(have, items[from as int], 0, first);
        assert(have.remove(0) =~= items.skip((from + 1) as int));
        lemma_items_take_out_themselves(items, from + 1);
    }
}

/// Whether two objects share no value: a key of both leads to two objects that
/// share none either, and the one in `target` has entries.
pub open spec fn disjoint(target: JsonTree, source: JsonTree) -> bool
    decreases source,
{
    match (target, source) {
        (JsonTree::Object(old), JsonTree::Object(new)) => forall|key: Seq<char>|
            old.contains_key(key) && #[trigger] new.contains_key(key) ==> {
                &&& old[key] != JsonTree::empty_object()
                &&& disjoint(old[key], new[key])
            },
        _ => false,
    }
}

/// Law: what was laid over a document that shares no value with it is taken out
/// again without a trace.
pub proof fn law_removed_undoes_merged(target: JsonTree, source: JsonTree)
    requires
        disjoint(target, source),
        source.nan_free(),
    ensures
        removed(merged(target, source), source) == target,
    decreases source,
{
    let old = target->Object_0;
    let new = source->Object_0;
    let both = merged(target, source)->Object_0;
    assert forall|key: Seq<char>| #[trigger] new.contains_key(key) implies {
        if old.contains_key(key) {
            remainder(both[key], new[key]) == Some(old[key])
        } else {
            remainder(both[key], new[key]) is None
        }
    } by {
        assert(new[key].nan_free());
        if old.contains_key(key) {
            assert(disjoint(old[key], new[key]));
            law_removed_undoes_merged(old[key], new[key]);
            assert(both[key] == merged(old[key], new[key]));
            assert(old[key] is Object && new[key] is Object && both[key] is Object);
            assert(removed(both[key], new[key]) == old[key]);
        } else {
            law_nothing_left_of_itself(new[key]);
        }
    }
    assert(kept_entries(both, source) =~= old);
}

/// Law: laying an object over another, or taking it out, touches no other key.
pub proof fn law_other_keys_untouched(target: JsonTree, source: JsonTree, key: Seq<char>)
    requires
        target is Object,
        source is Object,
        source.get(key) is None,
    ensures
        merged(target, source).get(key) == target.get(key),
        removed(target, source).get(key) == target.get(key),
{
}

/// Law: what is neither an object nor an array nor a float is contained in its equal and in
/// nothing else.
pub proof fn law_contained_scalar(target: JsonTree, source: JsonTree)
    requires
        source is Null || source is Bool || source is Natural || source is Negative
            || source is Text,
    ensures
        contains(target, source) <==> target == source,
{
}

/// Law: a float is contained in the floats of the same number, the two zeros being one number,
/// and what is no number is contained in nothing.
pub proof fn law_contained_float(target: JsonTree, bits: u64)
    ensures
        contains(target, JsonTree::Float(bits)) <==> {
            &&& target matches JsonTree::Float(have) && (have == bits || have as int + bits as int
                == 0x8000_0000_0000_0000 && (have == 0 || bits == 0))
            &&& bits as int % 0x8000_0000_0000_0000 <= 0x7ff0_0000_0000_0000
        },
{
}

/// Law: an object is contained in those objects that have each of its keys, with a value that
/// contains its own.
pub proof fn law_contained_object(target: JsonTree, source: JsonTree)
    requires
        source is Object,
    ensures
        contains(target, source) <==> target is Object && forall|key: Seq<char>| #[trigger]
            source.get(key) is Some ==> target.get(key) is Some && contains(
                target.get(key)->0,
                source.get(key)->0,
            ),
{
    let wanted = source->Object_0;
    if target is Object {
        let have = target->Object_0;
        assert forall|key: Seq<char>| #[trigger] wanted.contains_key(key) implies source.get(
            key,
        ) == Some(wanted[key]) by {}
        if forall|key: Seq<char>| #[trigger]
            source.get(key) is Some ==> target.get(key) is Some && contains(
                target.get(key)->0,
                source.get(key)->0,
            ) {
            assert forall|key: Seq<char>| #[trigger] wanted.contains_key(key) implies
                have.contains_key(key) && contains(have[key], wanted[key]) by {
                assert(source.get(key) is Some);
            }
        }
    }
}

/// Law: each item of an array that another contains is contained in an item of the other, no
/// two of them in the same.
pub proof fn law_contained_array_has_places(have: Seq<JsonTree>, wanted: Seq<JsonTree>) -> (places:
    Seq<int>)
    requires
        contains(JsonTree::Array(have), JsonTree::Array(wanted)),
    ensures
        places.len() == wanted.len(),
        places.no_duplicates(),
        forall|i: int|
            0 <= i < wanted.len() ==> 0 <= #[trigger] places[i] < have.len() && contains(
                have[places[i]],
                wanted[i],
            ),
{
    let places = lemma_claimed_places(have, Set::empty(), wanted, 0);
    assert forall|i: int| 0 <= i < wanted.len() implies 0 <= #[trigger] places[i] < have.len()
        && contains(have[places[i]], wanted[i]) by {
        assert(wanted[i] == wanted[0 + i]);
    }
    places
}

proof fn lemma_claimed_places(
    have: Seq<JsonTree>,
    taken: Set<int>,
    wanted: Seq<JsonTree>,
    from: nat,
) -> (places: Seq<int>)
    requires
        from <= wanted.len(),
        claims(have, taken, wanted, from),
    ensures
        places.len() == wanted.len() - from,
        places.no_duplicates(),
        forall|i: int|
            0 <= i < places.len() ==> {
                &&& 0 <= #[trigger] places[i] < have.len()
                &&& !taken.contains(places[i])
                &&& contains(have[places[i]], wanted[from + i])
            },
    decreases wanted.len() - from,
{
    if from == wanted.len() {
        Seq::empty()
    } else {
        let first = choose|i: int|
            {
                &&& 0 <= i < have.len() && !taken.contains(i)
                &&& contains(#[trigger] have[i], wanted[from as int])
                &&& forall|j: int|
                    0 <= j < i && !taken.contains(j) ==> !contains(
                        #[trigger] have[j],
                        wanted[from as int],
                    )
                &&& claims(have, taken.insert(i), wanted, from + 1)
            };
        let rest = lemma_claimed_places(have, taken.insert(first), wanted, from + 1);
        let places = seq![first] + rest;
        assert forall|i: int| 0 <= i < places.len() implies {
            &&& 0 <= #[trigger] places[i] < have.len()
            &&& !taken.contains(places[i])
            &&& contains(have[places[i]], wanted[from + i])
        } by {
            if i > 0 {
                assert(places[i] == rest[i - 1]);
                assert(wanted[from + i] == wanted[from + 1 + (i - 1)]);
            }
        }
        assert forall|i: int, j: int|
            0 <= i < places.len() && 0 <= j < places.len() && i != j implies places[i]
            != places[j] by {
            if i > 0 {
                assert(places[i] == rest[i - 1]);
            }
            if j > 0 {
                assert(places[j] == rest[j - 1]);
            }
        }
        places
    }
}

/// Law: an array contains each choice of its items, in the order in which they stand there.
pub proof fn law_array_contains_its_items(have: Seq<JsonTree>, places: Seq<int>)
    requires
        JsonTree::Array(have).nan_free(),
        forall|i: int| 0 <= i < places.len() ==> 0 <= #[trigger] places[i] < have.len(),
        forall|i: int, j: int| 0 <= i < j < places.len() ==> places[i] < places[j],
    ensures
        contains(JsonTree::Array(have), JsonTree::Array(places.map_values(|p: int| have[p]))),
{
    let whole = JsonTree::Array(have);
    assert(whole is Array && whole->Array_0 == have);
    assert forall|i: int| 0 <= i < have.len() implies contains(#[trigger] have[i], have[i]) by {
        law_contains_itself(have[i]);
    }
    lemma_claims_places(have, Set::empty(), places, 0);
}

proof fn lemma_claims_places(have: Seq<JsonTree>, taken: Set<int>, places: Seq<int>, from: nat)
    requires
        forall|i: int| 0 <= i < have.len() ==> contains(#[trigger] have[i], have[i]),
        forall|i: int| 0 <= i < places.len() ==> 0 <= #[trigger] places[i] < have.len(),
        forall|i: int, j: int| 0 <= i < j < places.len() ==> places[i] < places[j],
        forall|t: int, k: int|
            #[trigger] taken.contains(t) && from <= k < places.len() ==> t < #[trigger] places[k],
    ensures
        claims(have, taken, places.map_values(|p: int| have[p]), from),
    decreases places.len() - from,
{
    if from < places.len() {
        let wanted = places.map_values(|p: int| have[p]);
        let place = places[from as int];
        assert(wanted[from as int] == have[place]);
        assert(contains(have[place], have[place]));
        assert(!taken.contains(place));
        let first = lemma_first_free_holder(have, taken, have[place], 0, place);
        assert forall|t: int, k: int|
            #[trigger] taken.insert(first).contains(t) && from + 1 <= k < places.len() implies t
            < #[trigger] places[k] by {
            if t == first {
                assert(places[from as int] < places[k]);
            }
        }
        lemma_claims_places(have, taken.insert(first), places, from + 1);
        lemma_claims_step(have, taken, wanted, from, first);
    }
}

proof fn lemma_first_free_holder(
    have: Seq<JsonTree>,
    taken: Set<int>,
    wanted: JsonTree,
    from: int,
    place: int,
) -> (first: int)
    requires
        0 <= from <= place < have.len(),
        !taken.contains(place),
        contains(have[place], wanted),
        forall|j: int|
            0 <= j < from && !taken.contains(j) ==> !contains(#[trigger] have[j], wanted),
    ensures
        0 <= first <= place,
        !taken.contains(first),
        contains(have[first], wanted),
        forall|j: int|
            0 <= j < first && !taken.contains(j) ==> !contains(#[trigger] have[j], wanted),
    decreases place - from,
{
    if !taken.contains(from) && contains(have[from], wanted) {
        from
    } else {
        lemma_first_free_holder(have, taken, wanted, from + 1, place)
    }
}

/// Law: of an array, an item takes out the first one that contains it, and nothing where there
/// is none.
pub proof fn law_one_item_taken_out(have: Seq<JsonTree>, wanted: JsonTree, place: int)
    requires
        0 <= place <= have.len(),
        forall|j: int| 0 <= j < place ==> !contains(#[trigger] have[j], wanted),
        place < have.len() ==> contains(have[place], wanted),
    ensures
        without_items(have, seq![wanted], 0) == (if place < have.len() {
            have.remove(place)
        } else {
            have
        }),
{
    reveal_with_fuel(without_items, 2);
    assert(seq![wanted][0] == wanted);
    if place < have.len() {
        assert(is_first_holder(have, wanted, place));
        let first = choose|i: int| is_first_holder(have, wanted, i);
        lemma_one_first_holder(have, wanted, place, first);
    }
}

/// Law: the items of an array that is taken out of another go one after the other.
pub proof fn law_items_taken_out_in_turn(
    have: Seq<JsonTree>,
    first: Seq<JsonTree>,
    rest: Seq<JsonTree>,
)
    ensures
        without_items(have, first + rest, 0) == without_items(
            without_items(have, first, 0),
            rest,
            0,
        ),
{
    lemma_items_in_turn(have, first, rest, 0);
}

proof fn lemma_items_in_turn(
    have: Seq<JsonTree>,
    first: Seq<JsonTree>,
    rest: Seq<JsonTree>,
    from: nat,
)
    requires
        from <= first.len(),
    ensures
        without_items(have, first + rest, from) == without_items(
            without_items(have, first, from),
            rest,
            0,
        ),
    decreases first.len() - from,
{
    let both = first + rest;
    if from < first.len() {
        assert(both[from as int] == first[from as int]);
        if exists|i: int| is_first_holder(have, first[from as int], i) {
            let i = choose|i: int| is_first_holder(have, first[from as int], i);
            lemma_items_in_turn(have.remove(i), first, rest, from + 1);
        } else {
            lemma_items_in_turn(have, first, rest, from + 1);
        }
    } else {
        lemma_items_of_rest(have, first, rest, 0);
    }
}

proof fn lemma_items_of_rest(
    have: Seq<JsonTree>,
    first: Seq<JsonTree>,
    rest: Seq<JsonTree>,
    from: nat,
)
    requires
        from <= rest.len(),
    ensures
        without_items(have, first + rest, (first.len() + from) as nat) == without_items(
            have,
            rest,
            from,
        ),
    decreases rest.len() - from,
{
    let both = first + rest;
    if from < rest.len() {
        assert(both[(first.len() + from) as int] == rest[from as int]);
        if exists|i: int| is_first_holder(have, rest[from as int], i) {
            let i = choose|i: int| is_first_holder(have, rest[from as int], i);
            lemma_items_of_rest(have.remove(i), first, rest, from + 1);
        } else {
            lemma_items_of_rest(have, first, rest, from + 1);
        }
    }
}

/// Law: under each key, the result of laying one object over another has what the upper one
/// has there, joined with the lower one's where both are objects, and the lower one's where
/// the upper one has nothing. What is no object gives way as a whole.
pub proof fn law_merged_by_key(target: JsonTree, source: JsonTree, key: Seq<char>)
    ensures
        target is Object && source is Object ==> {
            &&& merged(target, source) is Object
            &&& source.get(key) is None ==> merged(target, source).get(key) == target.get(key)
            &&& source.get(key) is Some && target.object_at(key) is None ==> merged(
                target,
                source,
            ).get(key) == source.get(key)
            &&& source.get(key) is Some && source.object_at(key) is None ==> merged(
                target,
                source,
            ).get(key) == source.get(key)
            &&& source.object_at(key) is Some && target.object_at(key) is Some ==> merged(
                target,
                source,
            ).get(key) == Some(merged(target.object_at(key)->0, source.object_at(key)->0))
        },
        !(target is Object && source is Object) ==> merged(target, source) == source,
{
    reveal_with_fuel(merged, 2);
}

/// Law: taking one object out of another leaves, under each key of both, what is left of the
/// value there: of an object or an array what the other's does not take out of it, if anything
/// is left, and any other value as it is, unless it contains the other's.
pub proof fn law_removed_by_key(target: JsonTree, source: JsonTree, key: Seq<char>)
    requires
        target.get(key) is Some,
        source.get(key) is Some,
    ensures
        removed(target, source) is Object,
        ({
            let had = target.get(key)->0;
            let gone = source.get(key)->0;
            let left = removed(target, source).get(key);
            if had is Object && gone is Object {
                if removed(had, gone) == JsonTree::empty_object() {
                    left is None
                } else {
                    left == Some(removed(had, gone))
                }
            } else if had is Array && gone is Array {
                if without_items(had->Array_0, gone->Array_0, 0).len() == 0 {
                    left is None
                } else {
                    left == Some(JsonTree::Array(without_items(had->Array_0, gone->Array_0, 0)))
                }
            } else {
                if contains(had, gone) {
                    left is None
                } else {
                    left == Some(had)
                }
            }
        }),
{
    let had = target.get(key)->0;
    let gone = source.get(key)->0;
    if had is Object && gone is Object {
        assert(removed(had, gone) == JsonTree::Object(kept_entries(had->Object_0, gone)));
    }
}

/// Law: taking one object out of another keeps each text, number, truth value and null that
/// the other does not have under the same key, takes out those that it has, and adds nothing.
pub proof fn law_removed_keeps_other_values(target: JsonTree, source: JsonTree, key: Seq<char>)
    requires
        target is Object,
        source is Object,
    ensures
        target.get(key) is None ==> removed(target, source).get(key) is None,
        target.get(key) is Some && !(target.get(key)->0 is Object || target.get(key)->0 is Array
            || target.get(key)->0 is Float) ==> removed(target, source).get(key) == (
        if source.get(key) == target.get(key) {
            None
        } else {
            target.get(key)
        }),
{
    if target.get(key) is Some && source.get(key) is Some {
        let had = target.get(key)->0;
        let gone = source.get(key)->0;
        law_removed_by_key(target, source, key);
        if !(had is Object || had is Array || had is Float) {
            assert(contains(had, gone) <==> had == gone);
        }
    }
}

/// Law: nothing is taken out of what is no object, and nothing by what is none.
pub proof fn law_only_objects_are_taken_out(target: JsonTree, source: JsonTree)
    requires
        !(target is Object && source is Object),
    ensures
        removed(target, source) == target,
{
}

/// Law: after one object was laid over another, each of its fields that is no object is there, and
/// so is each field that it does not have.
pub proof fn law_merge_keeps_and_replaces(
    target: &mut serde_json::Value,
    source: &serde_json::Value,
    key: Seq<char>,
)
    requires
        call_ensures(json_deep_merge, (target, source), ()),
        tree(*old(target)) is Object,
        tree(*source) is Object,
    ensures
        tree(*source).get(key) is None ==> tree(*final(target)).get(key) == tree(*old(target)).get(
            key,
        ),
        tree(*source).get(key) is Some && !(tree(*source).get(key)->0 is Object) ==> tree(
            *final(target),
        ).get(key) == tree(*source).get(key),
        tree(*source).get(key) is Some && tree(*old(target)).object_at(key) is None ==> tree(
            *final(target),
        ).get(key) == tree(*source).get(key),
{
    law_merged_by_key(tree(*old(target)), tree(*source), key);
}

/// Law: after one object was taken out of another, each field that it does not have is there, and
/// so is each text, number, truth value and null that is not its own; those that are its own are
/// not.
pub proof fn law_remove_keeps_other_values(
    target: &mut serde_json::Value,
    source: &serde_json::Value,
    key: Seq<char>,
)
    requires
        call_ensures(json_deep_remove, (target, source), ()),
        tree(*old(target)) is Object,
        tree(*source) is Object,
    ensures
        tree(*source).get(key) is None ==> tree(*final(target)).get(key) == tree(*old(target)).get(
            key,
        ),
        tree(*old(target)).get(key) is Some && !(tree(*old(target)).get(key)->0 is Object || tree(
            *old(target),
        ).get(key)->0 is Array || tree(*old(target)).get(key)->0 is Float) ==> tree(
            *final(target),
        ).get(key) == (if tree(*source).get(key) == tree(*old(target)).get(key) {
            None
        } else {
            tree(*old(target)).get(key)
        }),
        tree(*old(target)).get(key) is None ==> tree(*final(target)).get(key) is None,
{
    law_removed_keeps_other_values(tree(*old(target)), tree(*source), key);
}

/// Law: a text, number, truth value or null is found in its equal alone, and an object only where
/// each of its fields is found under the same key.
pub proof fn law_subset_is_found(
    target: &serde_json::Value,
    source: &serde_json::Value,
    result: bool,
    key: Seq<char>,
)
    requires
        call_ensures(json_is_subset, (target, source), result),
    ensures
        tree(*source) is Null || tree(*source) is Bool || tree(*source) is Natural || tree(
            *source,
        ) is Negative || tree(*source) is Text ==> result == (tree(*target) == tree(*source)),
        tree(*source) is Object && result && tree(*source).get(key) is Some ==> tree(*target).get(
            key,
        ) is Some && contains(tree(*target).get(key)->0, tree(*source).get(key)->0),
        tree(*source) == tree(*target) && tree(*target).nan_free() ==> result,
{
    if tree(*source) is Object {
        law_contained_object(tree(*target), tree(*source));
    }
    if tree(*source) == tree(*target) && tree(*target).nan_free() {
        law_contains_itself(tree(*target));
    }
}

} // verus!
