//! JSON documents: `serde_json::Value`, seen as a tree.
//!
//! [`JsonTree`] is the mathematical value of a JSON document. The functions of
//! this file that are marked `external_body` hand each call to `serde_json` and
//! state what it does to that tree; everything else in the crate is proved from
//! those statements.

use vstd::prelude::*;

verus! {

#[verifier::external_type_specification]
#[verifier::external_body]
pub struct ExValue(serde_json::Value);

#[verifier::external_type_specification]
#[verifier::external_body]
#[verifier::reject_recursive_types(K)]
#[verifier::reject_recursive_types(V)]
pub struct ExMap<K, V>(serde_json::Map<K, V>);

/// A JSON object as `serde_json` stores it.
pub type JsonMap = serde_json::Map<String, serde_json::Value>;

/// The mathematical value of a JSON document.
///
/// A number is a natural number, a negative integer, or the bit pattern of an
/// IEEE 754 binary64 number, which are the three forms `serde_json` tells apart.
pub enum JsonTree {
    Null,
    Bool(bool),
    Natural(u64),
    Negative(i64),
    Float(u64),
    Text(Seq<char>),
    Array(Seq<JsonTree>),
    Object(Map<Seq<char>, JsonTree>),
}

/// What a `serde_json::Value` holds.
pub uninterp spec fn tree(value: serde_json::Value) -> JsonTree;

/// What a `serde_json::Map` holds.
pub uninterp spec fn entries(map: serde_json::Map<String, serde_json::Value>) -> Map<Seq<char>, JsonTree>;

/// What `serde_json::from_str` makes of a text: a document, or the words of the error.
pub uninterp spec fn parsed_json(text: Seq<char>) -> Result<JsonTree, Seq<char>>;

/// The text that `serde_json::to_string_pretty` writes for a document.
pub uninterp spec fn pretty_json(document: JsonTree) -> Seq<char>;

/// The trees of a sequence of values.
pub open spec fn trees(values: Seq<serde_json::Value>) -> Seq<JsonTree> {
    values.map_values(|value: serde_json::Value| tree(value))
}

impl JsonTree {
    /// The value under `key`, if this is an object that has the key.
    pub open spec fn get(self, key: Seq<char>) -> Option<JsonTree> {
        match self {
            JsonTree::Object(map) => if map.contains_key(key) {
                Some(map[key])
            } else {
                None
            },
            _ => None,
        }
    }

    /// This object with `key` bound to `value`; anything else unchanged.
    pub open spec fn set(self, key: Seq<char>, value: JsonTree) -> JsonTree {
        match self {
            JsonTree::Object(map) => JsonTree::Object(map.insert(key, value)),
            _ => self,
        }
    }

    /// This object without `key`; anything else unchanged.
    pub open spec fn unset(self, key: Seq<char>) -> JsonTree {
        match self {
            JsonTree::Object(map) => JsonTree::Object(map.remove(key)),
            _ => self,
        }
    }

    /// The characters of a string.
    pub open spec fn text(self) -> Option<Seq<char>> {
        match self {
            JsonTree::Text(chars) => Some(chars),
            _ => None,
        }
    }

    /// The string under `key`.
    pub open spec fn text_at(self, key: Seq<char>) -> Option<Seq<char>> {
        match self.get(key) {
            Some(value) => value.text(),
            None => None,
        }
    }

    /// The object under `key`.
    pub open spec fn object_at(self, key: Seq<char>) -> Option<JsonTree> {
        match self.get(key) {
            Some(value) => if value is Object {
                Some(value)
            } else {
                None
            },
            None => None,
        }
    }

    /// The natural number that this is.
    pub open spec fn natural(self) -> Option<u64> {
        match self {
            JsonTree::Natural(n) => Some(n),
            _ => None,
        }
    }

    /// An object without entries.
    pub open spec fn empty_object() -> JsonTree {
        JsonTree::Object(Map::empty())
    }

    /// Whether no float occurs in this document.
    pub open spec fn float_free(self) -> bool
        decreases self,
    {
        match self {
            JsonTree::Float(_) => false,
            JsonTree::Array(items) => forall|i: int|
                0 <= i < items.len() ==> (#[trigger] items[i]).float_free(),
            JsonTree::Object(map) => forall|key: Seq<char>|
                map.contains_key(key) ==> (#[trigger] map[key]).float_free(),
            _ => true,
        }
    }

    /// Whether every float in this document is a number.
    pub open spec fn nan_free(self) -> bool
        decreases self,
    {
        match self {
            JsonTree::Float(bits) => !is_float_nan(bits),
            JsonTree::Array(items) => forall|i: int|
                0 <= i < items.len() ==> (#[trigger] items[i]).nan_free(),
            JsonTree::Object(map) => forall|key: Seq<char>|
                map.contains_key(key) ==> (#[trigger] map[key]).nan_free(),
            _ => true,
        }
    }

    /// Whether no more than `levels` arrays and objects stand inside one another.
    pub open spec fn nests_within(self, levels: nat) -> bool
        decreases self,
    {
        match self {
            JsonTree::Array(items) => levels > 0 && forall|i: int|
                0 <= i < items.len() ==> (#[trigger] items[i]).nests_within((levels - 1) as nat),
            JsonTree::Object(map) => levels > 0 && forall|key: Seq<char>|
                map.contains_key(key) ==> (#[trigger] map[key]).nests_within((levels - 1) as nat),
            _ => true,
        }
    }
}

/// Whether a binary64 bit pattern is one of the two zeros.
pub open spec fn is_float_zero(bits: u64) -> bool {
    bits == 0 || bits == 0x8000_0000_0000_0000
}

/// Whether a binary64 bit pattern is no number.
pub open spec fn is_float_nan(bits: u64) -> bool {
    let magnitude = if bits >= 0x8000_0000_0000_0000 {
        bits - 0x8000_0000_0000_0000
    } else {
        bits as int
    };
    magnitude > 0x7ff0_0000_0000_0000
}

/// Whether two binary64 numbers compare equal.
pub open spec fn float_eq(a: u64, b: u64) -> bool {
    &&& !is_float_nan(a)
    &&& !is_float_nan(b)
    &&& a == b || is_float_zero(a) && is_float_zero(b)
}

/// Whether two documents compare equal: alike in everything, with floats
/// compared as numbers and the order of an object's keys left out of account.
pub open spec fn json_eq(a: JsonTree, b: JsonTree) -> bool
    decreases b,
{
    match (a, b) {
        (JsonTree::Float(x), JsonTree::Float(y)) => float_eq(x, y),
        (JsonTree::Array(x), JsonTree::Array(y)) => x.len() == y.len() && forall|i: int|
            0 <= i < y.len() ==> json_eq(x[i], #[trigger] y[i]),
        (JsonTree::Object(x), JsonTree::Object(y)) => {
            &&& forall|key: Seq<char>| #[trigger] x.contains_key(key) <==> y.contains_key(key)
            &&& forall|key: Seq<char>| y.contains_key(key) ==> json_eq(x[key], #[trigger] y[key])
        },
        (JsonTree::Array(_), _) => false,
        (JsonTree::Object(_), _) => false,
        (JsonTree::Float(_), _) => false,
        _ => a == b,
    }
}

/// Whether two documents are the same but for their floats, of which each has one where the
/// other has one.
pub open spec fn alike(a: JsonTree, b: JsonTree) -> bool
    decreases b,
{
    match (a, b) {
        (JsonTree::Float(_), JsonTree::Float(_)) => true,
        (JsonTree::Array(x), JsonTree::Array(y)) => x.len() == y.len() && forall|i: int|
            0 <= i < y.len() ==> alike(x[i], #[trigger] y[i]),
        (JsonTree::Object(x), JsonTree::Object(y)) => {
            &&& forall|key: Seq<char>| #[trigger] x.contains_key(key) <==> y.contains_key(key)
            &&& forall|key: Seq<char>| y.contains_key(key) ==> alike(x[key], #[trigger] y[key])
        },
        (JsonTree::Array(_), _) => false,
        (JsonTree::Object(_), _) => false,
        (JsonTree::Float(_), _) => false,
        _ => a == b,
    }
}

/// A document that is like one without floats is the same.
pub proof fn lemma_alike_without_floats(a: JsonTree, b: JsonTree)
    requires
        alike(a, b),
        b.float_free(),
    ensures
        a == b,
    decreases b,
{
    match (a, b) {
        (JsonTree::Array(x), JsonTree::Array(y)) => {
            assert(b is Array && b->Array_0 == y);
            assert forall|i: int| 0 <= i < y.len() implies x[i] == #[trigger] y[i] by {
                lemma_alike_without_floats(x[i], y[i]);
            }
            assert(x =~= y);
        },
        (JsonTree::Object(x), JsonTree::Object(y)) => {
            assert(b is Object && b->Object_0 == y);
            assert forall|key: Seq<char>| y.contains_key(key) implies x[key] == #[trigger] y[key] by {
                assert(decreases_to!(b => b->Object_0[key]));
                lemma_alike_without_floats(x[key], y[key]);
            }
            assert(x =~= y);
        },
        _ => {},
    }
}

/// What documents that are alike have under a key.
pub proof fn lemma_alike_entries(a: JsonTree, b: JsonTree, key: Seq<char>)
    requires
        alike(a, b),
    ensures
        a.get(key) is Some <==> b.get(key) is Some,
        a.get(key) is Some ==> alike(a.get(key)->0, b.get(key)->0),
        a.text_at(key) == b.text_at(key),
        a.object_at(key) is Some <==> b.object_at(key) is Some,
        a.object_at(key) is Some ==> alike(a.object_at(key)->0, b.object_at(key)->0),
{
    if let (JsonTree::Object(x), JsonTree::Object(y)) = (a, b) {
        assert(x.contains_key(key) <==> y.contains_key(key));
        if y.contains_key(key) {
            assert(alike(x[key], y[key]));
        }
    }
}

/// A document whose floats are numbers compares equal to itself.
pub proof fn lemma_equals_itself(t: JsonTree)
    requires
        t.nan_free(),
    ensures
        json_eq(t, t),
    decreases t,
{
    match t {
        JsonTree::Array(items) => {
            assert(t is Array && t->Array_0 == items);
            assert forall|i: int| 0 <= i < items.len() implies json_eq(
                items[i],
                #[trigger] items[i],
            ) by {
                lemma_equals_itself(items[i]);
            }
        },
        JsonTree::Object(map) => {
            assert(t is Object && t->Object_0 == map);
            assert forall|key: Seq<char>| map.contains_key(key) implies json_eq(
                map[key],
                #[trigger] map[key],
            ) by {
                assert(decreases_to!(t => t->Object_0[key]));
                lemma_equals_itself(map[key]);
            }
        },
        _ => {},
    }
}

/// Binding a key to what it is bound to changes nothing.
pub proof fn lemma_set_same(t: JsonTree, key: Seq<char>)
    requires
        t.get(key) is Some,
    ensures
        t.set(key, t.get(key)->0) == t,
{
    assert(t->Object_0.insert(key, t->Object_0[key]) =~= t->Object_0);
}

/// A document with a key bound to something that is not nested any deeper, or with keys
/// taken out, is free of floats, or not nested any deeper, if it was so before.
pub proof fn lemma_set_keeps(t: JsonTree, key: Seq<char>, value: JsonTree, levels: nat)
    ensures
        t.float_free() && value.float_free() ==> t.set(key, value).float_free(),
        t.nests_within((levels + 1) as nat) && value.nests_within(levels) ==> t.set(
            key,
            value,
        ).nests_within((levels + 1) as nat),
{
    if let JsonTree::Object(map) = t {
        assert(t is Object && t->Object_0 == map);
        let after = t.set(key, value);
        assert(after is Object && after->Object_0 == map.insert(key, value));
    }
}

/// Parsing: `serde_json::from_str`, read into a `Value`. Which texts it takes,
/// what they mean and how it words an error go by the name [`parsed_json`]. A float
/// that is read is a number, and the parser refuses what nests deeper than 127 levels.
#[verifier::external_body]
pub(crate) fn parse(text: &str) -> (result: Result<serde_json::Value, String>)
    ensures
        result is Ok <==> parsed_json(text@) is Ok,
        result matches Ok(value) ==> tree(value) == parsed_json(text@)->Ok_0,
        result matches Ok(value) ==> tree(value).nan_free() && tree(value).nests_within(127),
        result matches Err(words) ==> words@ == parsed_json(text@)->Err_0,
{
    serde_json::from_str(text).map_err(|e| e.to_string())
}

/// Printing: `serde_json::to_string_pretty` of a `Value`, which has a string for
/// every key and so cannot fail. The keys of an object are written in their own
/// order, so the text depends on the document alone; it goes by the name
/// [`pretty_json`]. A document whose nesting the parser allows is read back from its text,
/// but for its floats: each is read as a float, and not always as the same one.
#[verifier::external_body]
pub(crate) fn print_pretty(value: &serde_json::Value) -> (text: String)
    ensures
        text@ == pretty_json(tree(*value)),
        tree(*value).nests_within(127) ==> parsed_json(text@) is Ok && alike(
            parsed_json(text@)->Ok_0,
            tree(*value),
        ),
{
    serde_json::to_string_pretty(value).unwrap_or_default()
}

/// `Value::clone`: the copy holds the same document. No `Value` holds a float that is no
/// number.
#[verifier::external_body]
pub(crate) fn copy(value: &serde_json::Value) -> (result: serde_json::Value)
    ensures
        tree(result) == tree(*value),
        tree(result).nan_free(),
{
    value.clone()
}

/// `==` on two `Value`s.
#[verifier::external_body]
pub(crate) fn equal(a: &serde_json::Value, b: &serde_json::Value) -> (result: bool)
    ensures
        result == json_eq(tree(*a), tree(*b)),
{
    a == b
}

/// `Value::as_object`: the entries, if the value is an object.
#[verifier::external_body]
pub(crate) fn as_object(value: &serde_json::Value) -> (result: Option<&JsonMap>)
    ensures
        result is Some <==> tree(*value) is Object,
        result matches Some(map) ==> tree(*value) == JsonTree::Object(entries(*map)),
{
    value.as_object()
}

/// `Value::as_object_mut`: the entries for change, if the value is an object.
#[verifier::external_body]
pub(crate) fn as_object_mut(value: &mut serde_json::Value) -> (result: Option<&mut JsonMap>)
    ensures
        result is Some <==> tree(*old(value)) is Object,
        result is None ==> *final(value) == *old(value),
        result matches Some(map) ==> {
            &&& tree(*old(value)) == JsonTree::Object(entries(*map))
            &&& tree(*final(value)) == JsonTree::Object(entries(*final(map)))
        },
{
    value.as_object_mut()
}

/// `Value::as_array`: the items, if the value is an array.
#[verifier::external_body]
pub(crate) fn as_array(value: &serde_json::Value) -> (result: Option<&Vec<serde_json::Value>>)
    ensures
        result is Some <==> tree(*value) is Array,
        result matches Some(items) ==> tree(*value) == JsonTree::Array(trees(items@)),
{
    value.as_array()
}

/// `Value::as_array_mut`: the items for change, if the value is an array.
#[verifier::external_body]
pub(crate) fn as_array_mut(value: &mut serde_json::Value) -> (result: Option<
    &mut Vec<serde_json::Value>,
>)
    ensures
        result is Some <==> tree(*old(value)) is Array,
        result is None ==> *final(value) == *old(value),
        result matches Some(items) ==> {
            &&& tree(*old(value)) == JsonTree::Array(trees(items@))
            &&& tree(*final(value)) == JsonTree::Array(trees(final(items)@))
        },
{
    value.as_array_mut()
}

/// `Value::as_str`: the characters, if the value is a string.
#[verifier::external_body]
pub(crate) fn as_str(value: &serde_json::Value) -> (result: Option<&str>)
    ensures
        result is Some <==> tree(*value) is Text,
        result matches Some(chars) ==> tree(*value) == JsonTree::Text(chars@),
{
    value.as_str()
}

/// `Value::as_bool`: the truth value, if the value is one.
#[verifier::external_body]
pub(crate) fn as_bool(value: &serde_json::Value) -> (result: Option<bool>)
    ensures
        result is Some <==> tree(*value) is Bool,
        result matches Some(b) ==> tree(*value) == JsonTree::Bool(b),
{
    value.as_bool()
}

/// `Value::as_u64`: the number, if the value is a natural number.
#[verifier::external_body]
pub(crate) fn as_u64(value: &serde_json::Value) -> (result: Option<u64>)
    ensures
        result == tree(*value).natural(),
{
    value.as_u64()
}

/// `Value::as_f64`, handed out as its bit pattern. A float comes out as it is. An
/// integer becomes a binary64 number too; of that one only this is said: it is
/// zero, or its pattern is that of 1 or lies above it, as the patterns of all
/// larger numbers and of all negative ones do.
#[verifier::external_body]
pub(crate) fn as_float_bits(value: &serde_json::Value) -> (result: Option<u64>)
    ensures
        result is Some <==> tree(*value) is Float || tree(*value) is Natural
            || tree(*value) is Negative,
        tree(*value) matches JsonTree::Float(bits) ==> result == Some(bits),
        result matches Some(bits) ==> tree(*value) is Float || bits == 0 || bits
            >= 0x3ff0_0000_0000_0000,
{
    value.as_f64().map(|number| number.to_bits())
}

/// `Value::is_null`.
#[verifier::external_body]
pub(crate) fn is_null(value: &serde_json::Value) -> (result: bool)
    ensures
        result == (tree(*value) is Null),
{
    value.is_null()
}

/// `Value::String`: a string value of the given characters.
#[verifier::external_body]
pub(crate) fn string(chars: String) -> (result: serde_json::Value)
    ensures
        tree(result) == JsonTree::Text(chars@),
{
    serde_json::Value::String(chars)
}

/// `Value::from` of a `u64`: that natural number.
#[verifier::external_body]
pub(crate) fn number(n: u64) -> (result: serde_json::Value)
    ensures
        tree(result) == JsonTree::Natural(n),
{
    serde_json::Value::from(n)
}

/// `Value::Object`: an object value of the given entries.
#[verifier::external_body]
pub(crate) fn object(map: JsonMap) -> (result: serde_json::Value)
    ensures
        tree(result) == JsonTree::Object(entries(map)),
{
    serde_json::Value::Object(map)
}

/// `Map::new`: no entries.
#[verifier::external_body]
pub(crate) fn map_new() -> (result: JsonMap)
    ensures
        JsonTree::Object(entries(result)) == JsonTree::empty_object(),
{
    serde_json::Map::new()
}

/// `Map::get`.
#[verifier::external_body]
pub(crate) fn map_get<'a>(map: &'a JsonMap, key: &str) -> (result: Option<&'a serde_json::Value>)
    ensures
        result is Some <==> entries(*map).contains_key(key@),
        result matches Some(value) ==> tree(*value) == entries(*map)[key@],
{
    map.get(key)
}

/// `Map::get_mut`: what is written through the result becomes the entry.
#[verifier::external_body]
pub(crate) fn map_get_mut<'a>(map: &'a mut JsonMap, key: &str) -> (result: Option<
    &'a mut serde_json::Value,
>)
    ensures
        result is Some <==> entries(*old(map)).contains_key(key@),
        result is None ==> *final(map) == *old(map),
        result matches Some(value) ==> {
            &&& tree(*value) == entries(*old(map))[key@]
            &&& entries(*final(map)) == entries(*old(map)).insert(key@, tree(*final(value)))
        },
{
    map.get_mut(key)
}

/// `Map::insert`, whose old value is dropped.
#[verifier::external_body]
pub(crate) fn map_insert(map: &mut JsonMap, key: String, value: serde_json::Value)
    ensures
        entries(*final(map)) == entries(*old(map)).insert(key@, tree(value)),
{
    map.insert(key, value);
}

/// `Map::remove`, whose old value is dropped.
#[verifier::external_body]
pub(crate) fn map_remove(map: &mut JsonMap, key: &str)
    ensures
        entries(*final(map)) == entries(*old(map)).remove(key@),
{
    map.remove(key);
}

/// `Map::is_empty`.
#[verifier::external_body]
pub(crate) fn map_is_empty(map: &JsonMap) -> (result: bool)
    ensures
        result == (JsonTree::Object(entries(*map)) == JsonTree::empty_object()),
{
    map.is_empty()
}

/// `Map::keys`, collected: every key once, in no stated order.
#[verifier::external_body]
pub(crate) fn map_keys(map: &JsonMap) -> (result: Vec<String>)
    ensures
        forall|i: int| 0 <= i < result@.len() ==> entries(*map).contains_key(#[trigger] result@[i]@),
        forall|key: Seq<char>| #[trigger]
            entries(*map).contains_key(key) ==> exists|i: int|
                0 <= i < result@.len() && #[trigger] result@[i]@ == key,
        forall|i: int, j: int|
            0 <= i < j < result@.len() ==> (#[trigger] result@[i])@ != (#[trigger] result@[j])@,
{
    map.keys().cloned().collect()
}

/// What a JSON text says, or the words of the error.
pub fn read_json(text: &str) -> (result: Result<serde_json::Value, String>)
    ensures
        match result {
            Ok(value) => parsed_json(text@) == Ok::<JsonTree, Seq<char>>(tree(value)),
            Err(words) => parsed_json(text@) == Err::<JsonTree, Seq<char>>(words@),
        },
{
    parse(text)
}

/// The text of a JSON document.
pub fn json_text(value: &serde_json::Value) -> (text: String)
    ensures
        text@ == pretty_json(tree(*value)),
        tree(*value).nests_within(127) ==> parsed_json(text@) is Ok && alike(
            parsed_json(text@)->Ok_0,
            tree(*value),
        ),
{
    print_pretty(value)
}

/// The value under a key.
pub fn get<'a>(value: &'a serde_json::Value, key: &str) -> (result: Option<&'a serde_json::Value>)
    ensures
        result is Some <==> tree(*value).get(key@) is Some,
        result matches Some(entry) ==> tree(*value).get(key@) == Some(tree(*entry)),
{
    match as_object(value) {
        Some(map) => map_get(map, key),
        None => None,
    }
}

/// The string under a key.
pub fn get_text<'a>(value: &'a serde_json::Value, key: &str) -> (result: Option<&'a str>)
    ensures
        result is Some <==> tree(*value).text_at(key@) is Some,
        result matches Some(text) ==> tree(*value).text_at(key@) == Some(text@),
{
    match get(value, key) {
        Some(entry) => as_str(entry),
        None => None,
    }
}

/// The object under a key.
pub fn get_object<'a>(value: &'a serde_json::Value, key: &str) -> (result: Option<&'a JsonMap>)
    ensures
        result is Some <==> tree(*value).object_at(key@) is Some,
        result matches Some(map) ==> tree(*value).object_at(key@) == Some(
            JsonTree::Object(entries(*map)),
        ),
{
    match get(value, key) {
        Some(entry) => as_object(entry),
        None => None,
    }
}

/// The object under a key, for change.
pub fn get_object_mut<'a>(value: &'a mut serde_json::Value, key: &str) -> (result: Option<
    &'a mut JsonMap,
>)
    ensures
        result is Some <==> tree(*old(value)).object_at(key@) is Some,
        result is None ==> tree(*final(value)) == tree(*old(value)),
        result matches Some(map) ==> {
            &&& tree(*old(value)).object_at(key@) == Some(JsonTree::Object(entries(*map)))
            &&& tree(*final(value)) == tree(*old(value)).set(
                key@,
                JsonTree::Object(entries(*final(map))),
            )
        },
{
    let ghost before = tree(*value);
    match as_object_mut(value) {
        Some(map) => {
            proof {
                if before.get(key@) is Some {
                    lemma_set_same(before, key@);
                }
            }
            match map_get_mut(map, key) {
                Some(entry) => as_object_mut(entry),
                None => None,
            }
        },
        None => None,
    }
}

/// Binds a key of an object.
pub fn set_entry(value: &mut serde_json::Value, key: &str, entry: serde_json::Value)
    ensures
        tree(*final(value)) == tree(*old(value)).set(key@, tree(entry)),
{
    if let Some(map) = as_object_mut(value) {
        map_insert(map, key.to_owned(), entry);
    }
}

/// Takes a key out of an object.
pub fn unset_entry(value: &mut serde_json::Value, key: &str)
    ensures
        tree(*final(value)) == tree(*old(value)).unset(key@),
{
    if let Some(map) = as_object_mut(value) {
        map_remove(map, key);
    }
}

} // verus!
