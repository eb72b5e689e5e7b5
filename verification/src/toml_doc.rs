//! TOML documents: `toml_edit`'s types, seen as a tree.
//!
//! [`TomlTree`] is what a TOML item says. [`Layout`] is how it is written: comments,
//! spacing, notation, headers and the order of keys, all of which `toml_edit` keeps. The
//! functions of this file that are marked `external_body` hand each call to `toml_edit`
//! and state what it does to the two.

use vstd::prelude::*;

verus! {

use crate::json::is_float_nan;

#[verifier::external_type_specification]
#[verifier::external_body]
pub struct ExDocumentMut(toml_edit::DocumentMut);

#[verifier::external_type_specification]
#[verifier::external_body]
pub struct ExItem(toml_edit::Item);

#[verifier::external_type_specification]
#[verifier::external_body]
pub struct ExTomlValue(toml_edit::Value);

#[verifier::external_type_specification]
#[verifier::external_body]
pub struct ExArray(toml_edit::Array);

#[verifier::external_type_specification]
#[verifier::external_body]
pub struct ExInlineTable(toml_edit::InlineTable);

/// The mathematical value of a TOML item.
///
/// A float is the bit pattern of a binary64 number, a date and time the text that
/// it is written as. `Absent` is `Item::None`, the place of an entry that was
/// taken out.
pub enum TomlTree {
    Absent,
    Text(Seq<char>),
    Integer(i64),
    Float(u64),
    Bool(bool),
    Datetime(Seq<char>),
    Array(Seq<TomlTree>),
    Inline(Map<Seq<char>, TomlTree>),
    Table(Map<Seq<char>, TomlTree>),
    TableArray(Seq<TomlTree>),
}

/// What an item holds.
pub uninterp spec fn item_tree(item: toml_edit::Item) -> TomlTree;

/// What a value holds.
pub uninterp spec fn value_tree(value: toml_edit::Value) -> TomlTree;

/// The items of an array.
pub uninterp spec fn array_items(array: toml_edit::Array) -> Seq<TomlTree>;

/// The entries of an inline table.
pub uninterp spec fn inline_entries(table: toml_edit::InlineTable) -> Map<Seq<char>, TomlTree>;

/// What a document holds.
pub uninterp spec fn root(document: toml_edit::DocumentMut) -> TomlTree;

/// The text before and after something; the usual one, where none is given. Comments are
/// part of it.
pub struct Decor {
    pub before: Option<Seq<char>>,
    pub after: Option<Seq<char>>,
}

/// How a key is written: its own text, where it is not the usual one, what stands around
/// the whole key, and what stands around it between dots.
pub struct KeyForm {
    pub written: Option<Seq<char>>,
    pub leaf: Decor,
    pub dotted: Decor,
}

/// How an entry of a table is written.
pub struct EntryLayout {
    pub key: Seq<char>,
    pub form: KeyForm,
    pub layout: Layout,
}

/// How a TOML item is written.
pub enum Layout {
    /// Nothing is written.
    Vacant,
    /// A string, number, truth value or date: its own text, where it is not the usual one.
    Plain { decor: Decor, written: Option<Seq<char>> },
    /// An array, with the text behind its last item.
    Array { decor: Decor, trailing: Seq<char>, trailing_comma: bool, items: Seq<Layout> },
    /// An inline table, with the text after its brace, and whether dotted keys stand for it.
    Inline { decor: Decor, preamble: Seq<char>, dotted: bool, entries: Seq<EntryLayout> },
    /// A table: what stands around its header, whether it has none while it holds no value
    /// itself, whether dotted keys stand for it, and its place among the document's tables.
    Table {
        decor: Decor,
        implicit: bool,
        dotted: bool,
        position: Option<usize>,
        entries: Seq<EntryLayout>,
    },
    /// An array of tables.
    TableArray(Seq<Layout>),
}

/// How a document is written, with the text behind its last entry.
pub struct DocumentLayout {
    pub root: Layout,
    pub trailing: Seq<char>,
}

/// How an item is written.
pub uninterp spec fn item_layout(item: toml_edit::Item) -> Layout;

/// How an array is written.
pub uninterp spec fn array_layout(array: toml_edit::Array) -> Layout;

/// How a document is written.
pub uninterp spec fn document_layout(document: toml_edit::DocumentMut) -> DocumentLayout;

/// How the document that the parser of `toml_edit` makes of a text is written.
pub uninterp spec fn parsed_layout(text: Seq<char>) -> DocumentLayout;

/// How `Item::into_value` has a table, or an array of tables, written as a value.
pub uninterp spec fn inlined_layout(layout: Layout) -> Layout;

/// The text of a document that says `content` and is written like `layout`.
pub uninterp spec fn toml_text(content: TomlTree, layout: DocumentLayout) -> Seq<char>;

/// What the parser of `toml_edit` makes of a text: a document, or the words of the
/// error.
pub uninterp spec fn parsed_toml(text: Seq<char>) -> Result<TomlTree, Seq<char>>;

/// The trees of a sequence of values.
pub open spec fn value_trees(values: Seq<&toml_edit::Value>) -> Seq<TomlTree> {
    values.map_values(|value: &toml_edit::Value| value_tree(*value))
}

impl Decor {
    /// The usual text on both sides.
    pub open spec fn usual() -> Decor {
        Decor { before: None, after: None }
    }
}

impl KeyForm {
    /// The usual form of a key.
    pub open spec fn usual() -> KeyForm {
        KeyForm { written: None, leaf: Decor::usual(), dotted: Decor::usual() }
    }
}

impl Layout {
    /// Whether a table is written, in either notation.
    pub open spec fn is_table_like(self) -> bool {
        self is Table || self is Inline
    }

    /// Whether a value is written.
    pub open spec fn is_value(self) -> bool {
        self is Plain || self is Array || self is Inline
    }

    /// The entries of a table, in the order in which they stand there.
    pub open spec fn entries(self) -> Seq<EntryLayout> {
        match self {
            Layout::Table { entries, .. } => entries,
            Layout::Inline { entries, .. } => entries,
            _ => Seq::empty(),
        }
    }

    /// This table with other entries, everything around them as it is.
    pub open spec fn with_entries(self, entries: Seq<EntryLayout>) -> Layout {
        match self {
            Layout::Table { decor, implicit, dotted, position, .. } => Layout::Table {
                decor,
                implicit,
                dotted,
                position,
                entries,
            },
            Layout::Inline { decor, preamble, dotted, .. } => Layout::Inline {
                decor,
                preamble,
                dotted,
                entries,
            },
            _ => self,
        }
    }

    /// The items of an array.
    pub open spec fn items(self) -> Seq<Layout> {
        match self {
            Layout::Array { items, .. } => items,
            _ => Seq::empty(),
        }
    }

    /// This array with other items, everything around them as it is.
    pub open spec fn with_items(self, items: Seq<Layout>) -> Layout {
        match self {
            Layout::Array { decor, trailing, trailing_comma, .. } => Layout::Array {
                decor,
                trailing,
                trailing_comma,
                items,
            },
            _ => self,
        }
    }
}

impl DocumentLayout {
    /// How a new document is written.
    pub open spec fn blank() -> DocumentLayout {
        DocumentLayout {
            root: Layout::Table {
                decor: Decor::usual(),
                implicit: false,
                dotted: false,
                position: Some(0),
                entries: Seq::empty(),
            },
            trailing: Seq::empty(),
        }
    }
}

/// Whether entries have one under a key.
pub open spec fn has_entry(entries: Seq<EntryLayout>, key: Seq<char>) -> bool {
    exists|i: int| 0 <= i < entries.len() && (#[trigger] entries[i]).key == key
}

/// Whether no two entries have this key.
pub open spec fn at_most_one(entries: Seq<EntryLayout>, key: Seq<char>) -> bool {
    forall|i: int, j: int|
        0 <= i < entries.len() && 0 <= j < entries.len() && (#[trigger] entries[i]).key == key && (
        #[trigger] entries[j]).key == key ==> i == j
}

/// How the entry under a key is written.
pub open spec fn entry_at(entries: Seq<EntryLayout>, key: Seq<char>) -> Layout {
    let i = choose|i: int| 0 <= i < entries.len() && (#[trigger] entries[i]).key == key;
    entries[i].layout
}

/// Entries of which the one under a key is written otherwise; the key itself is written as
/// it was.
pub open spec fn with_entry(entries: Seq<EntryLayout>, key: Seq<char>, layout: Layout) -> Seq<
    EntryLayout,
> {
    entries.map_values(
        |entry: EntryLayout|
            if entry.key == key {
                EntryLayout { layout, ..entry }
            } else {
                entry
            },
    )
}

/// Entries without the one under a key, the others in their order.
pub open spec fn without_entry(entries: Seq<EntryLayout>, key: Seq<char>) -> Seq<EntryLayout>
    decreases entries.len(),
{
    if entries.len() == 0 {
        entries
    } else {
        let before = without_entry(entries.drop_last(), key);
        if entries.last().key == key {
            before
        } else {
            before.push(entries.last())
        }
    }
}

/// How an item is written that comes new into a table: as it was, or, as no value, written
/// inline into an inline table.
pub open spec fn newcomer_layout(table: Layout, layout: Layout) -> Layout {
    if table is Inline && !layout.is_value() {
        inlined_layout(layout)
    } else {
        layout
    }
}

impl TomlTree {
    /// Whether this is a value: anything that can stand in an array.
    pub open spec fn is_value(self) -> bool {
        !(self is Absent || self is Table || self is TableArray)
    }

    /// Whether this is a table, in either notation.
    pub open spec fn is_table_like(self) -> bool {
        self is Table || self is Inline
    }

    /// The entries of a table, in either notation.
    pub open spec fn table(self) -> Map<Seq<char>, TomlTree> {
        match self {
            TomlTree::Table(map) => map,
            TomlTree::Inline(map) => map,
            _ => Map::empty(),
        }
    }

    /// Whether this is a table without entries.
    pub open spec fn is_empty_table(self) -> bool {
        self.is_table_like() && self.table() == TomlTree::Absent.table()
    }

    /// This table with other entries, in the same notation.
    pub open spec fn with_table(self, map: Map<Seq<char>, TomlTree>) -> TomlTree {
        match self {
            TomlTree::Table(_) => TomlTree::Table(map),
            TomlTree::Inline(_) => TomlTree::Inline(map),
            _ => self,
        }
    }

    /// Whether no entry of this table is vacant.
    pub open spec fn occupied(self) -> bool {
        forall|key: Seq<char>| #[trigger]
            self.table().contains_key(key) ==> !(self.table()[key] is Absent)
    }

    /// Whether this is what a parser builds: nothing vacant in it, and only values
    /// in arrays and inline tables.
    pub open spec fn well_formed(self) -> bool
        decreases self,
    {
        match self {
            TomlTree::Absent => false,
            TomlTree::Array(items) => forall|i: int|
                0 <= i < items.len() ==> (#[trigger] items[i]).is_value() && items[i].well_formed(),
            TomlTree::Inline(map) => forall|key: Seq<char>| #[trigger]
                map.contains_key(key) ==> map[key].is_value() && map[key].well_formed(),
            TomlTree::Table(map) => forall|key: Seq<char>| #[trigger]
                map.contains_key(key) ==> map[key].well_formed(),
            TomlTree::TableArray(items) => forall|i: int|
                0 <= i < items.len() ==> (#[trigger] items[i]) is Table && items[i].well_formed(),
            _ => true,
        }
    }

    /// Whether everything in this item can be found again in a copy of it: no float
    /// that is no number, no array of tables, nothing vacant.
    pub open spec fn comparable(self) -> bool
        decreases self,
    {
        match self {
            TomlTree::Absent => false,
            TomlTree::TableArray(_) => false,
            TomlTree::Float(bits) => !is_float_nan(bits),
            TomlTree::Array(items) => forall|i: int|
                0 <= i < items.len() ==> (#[trigger] items[i]).comparable(),
            TomlTree::Inline(map) => forall|key: Seq<char>| #[trigger]
                map.contains_key(key) ==> map[key].comparable(),
            TomlTree::Table(map) => forall|key: Seq<char>| #[trigger]
                map.contains_key(key) ==> map[key].comparable(),
            _ => true,
        }
    }

    /// Whether an array of tables stands in this item or in one of its tables.
    pub open spec fn has_table_array(self) -> bool
        decreases self,
    {
        match self {
            TomlTree::TableArray(_) => true,
            TomlTree::Inline(map) => exists|key: Seq<char>| #[trigger]
                map.contains_key(key) && map[key].has_table_array(),
            TomlTree::Table(map) => exists|key: Seq<char>| #[trigger]
                map.contains_key(key) && map[key].has_table_array(),
            _ => false,
        }
    }

    /// This item as a value: tables and arrays of tables written inline.
    pub open spec fn as_value(self) -> TomlTree
        decreases self,
    {
        match self {
            TomlTree::Table(map) => TomlTree::Inline(
                Map::new(
                    |key: Seq<char>| map.contains_key(key),
                    |key: Seq<char>|
                        if map.contains_key(key) {
                            map[key].as_value()
                        } else {
                            TomlTree::Absent
                        },
                ),
            ),
            TomlTree::TableArray(items) => TomlTree::Array(
                Seq::new(
                    items.len(),
                    |i: int|
                        if 0 <= i < items.len() {
                            items[i].as_value()
                        } else {
                            TomlTree::Absent
                        },
                ),
            ),
            _ => self,
        }
    }
}

/// An empty table is well formed, and there is only one.
pub proof fn lemma_empty_table(t: TomlTree)
    requires
        t is Table,
        t.table() == TomlTree::Absent.table(),
    ensures
        t == TomlTree::Table(Map::empty()),
        t.well_formed(),
{
    assert(t->Table_0 =~= Map::<Seq<char>, TomlTree>::empty());
}

/// What well-formedness says of a table's entries, in either notation.
pub proof fn lemma_well_formed_table(t: TomlTree)
    requires
        t.well_formed(),
    ensures
        t.occupied(),
        forall|key: Seq<char>| #[trigger]
            t.table().contains_key(key) ==> t.table()[key].well_formed() && (t is Inline
                ==> t.table()[key].is_value()),
{
    assert forall|key: Seq<char>| #[trigger] t.table().contains_key(key) implies {
        &&& t.table()[key].well_formed()
        &&& !(t.table()[key] is Absent)
    } by {
        match t {
            TomlTree::Table(map) => {
                assert(t->Table_0.contains_key(key));
                assert(t->Table_0[key].well_formed());
            },
            TomlTree::Inline(map) => {
                assert(t->Inline_0.contains_key(key));
                assert(t->Inline_0[key].well_formed());
            },
            _ => {},
        }
    }
}

/// What well-formedness says of an array's items.
pub proof fn lemma_well_formed_array(items: Seq<TomlTree>)
    requires
        TomlTree::Array(items).well_formed(),
    ensures
        forall|i: int|
            0 <= i < items.len() ==> (#[trigger] items[i]).is_value() && items[i].well_formed(),
{
    let t = TomlTree::Array(items);
    assert(t is Array);
    assert(t->Array_0 == items);
}

/// Parsing: `str::parse` to a `DocumentMut`. Which texts it takes, what they mean
/// and how it words an error go by the name [`parsed_toml`], and how they are written by
/// the name [`parsed_layout`], which has one entry for each key of a table. The root is a
/// table, and what the parser puts in is well formed.
#[verifier::external_body]
pub(crate) fn parse_document(text: &str) -> (result: Result<toml_edit::DocumentMut, String>)
    ensures
        result is Ok <==> parsed_toml(text@) is Ok,
        result matches Ok(document) ==> root(document) == parsed_toml(text@)->Ok_0,
        result matches Ok(document) ==> root(document) is Table && root(document).well_formed(),
        result matches Ok(document) ==> document_layout(document) == parsed_layout(text@),
        result matches Ok(document) ==> document_layout(document).root.fits(root(document)),
        result matches Err(words) ==> words@ == parsed_toml(text@)->Err_0,
{
    text.parse::<toml_edit::DocumentMut>().map_err(|e| e.to_string())
}

/// `DocumentMut::new`: an empty table, written in the usual way.
#[verifier::external_body]
pub(crate) fn new_document() -> (result: toml_edit::DocumentMut)
    ensures
        root(result) is Table && root(result).table() == TomlTree::Absent.table(),
        document_layout(result) == DocumentLayout::blank(),
{
    toml_edit::DocumentMut::new()
}

/// `DocumentMut::to_string`, by the name [`toml_text`]: the text depends on what the
/// document says and on how it is written. The root must be a table. Whether the text of a
/// changed document parses to the same document again is left unsaid.
#[verifier::external_body]
pub(crate) fn print_document(document: &toml_edit::DocumentMut) -> (result: String)
    requires
        root(*document) is Table,
    ensures
        result@ == toml_text(root(*document), document_layout(*document)),
{
    document.to_string()
}

/// `DocumentMut::as_item`: the root.
#[verifier::external_body]
pub(crate) fn root_item(document: &toml_edit::DocumentMut) -> (result: &toml_edit::Item)
    ensures
        item_tree(*result) == root(*document),
        item_layout(*result) == document_layout(*document).root,
{
    document.as_item()
}

/// `DocumentMut::as_item_mut`: the root for change. The text behind the last entry stays.
#[verifier::external_body]
pub(crate) fn root_item_mut(document: &mut toml_edit::DocumentMut) -> (result: &mut toml_edit::Item)
    ensures
        item_tree(*result) == root(*old(document)),
        root(*final(document)) == item_tree(*final(result)),
        item_layout(*result) == document_layout(*old(document)).root,
        document_layout(*final(document)).root == item_layout(*final(result)),
        document_layout(*final(document)).trailing == document_layout(*old(document)).trailing,
{
    document.as_item_mut()
}

/// `Item::clone`: the copy holds the same, written in the same way.
#[verifier::external_body]
pub(crate) fn item_copy(item: &toml_edit::Item) -> (result: toml_edit::Item)
    ensures
        item_tree(result) == item_tree(*item),
        item_layout(result) == item_layout(*item),
{
    item.clone()
}

/// `Item::None`.
#[verifier::external_body]
pub(crate) fn absent_item() -> (result: toml_edit::Item)
    ensures
        item_tree(result) is Absent,
{
    toml_edit::Item::None
}

/// `Item::is_none`.
#[verifier::external_body]
pub(crate) fn is_absent(item: &toml_edit::Item) -> (result: bool)
    ensures
        result == (item_tree(*item) is Absent),
{
    item.is_none()
}

/// `Item::is_table_like`.
#[verifier::external_body]
pub(crate) fn is_table_like(item: &toml_edit::Item) -> (result: bool)
    ensures
        result == item_tree(*item).is_table_like(),
        result == item_layout(*item).is_table_like(),
{
    item.is_table_like()
}

/// `TableLike::iter` on either kind of table, its keys collected: every key once, in the
/// order in which the entries stand there. A vacant entry would be listed in one kind and not in the
/// other, so there is none.
#[verifier::external_body]
pub(crate) fn item_keys(item: &toml_edit::Item) -> (result: Vec<String>)
    requires
        item_tree(*item).occupied(),
    ensures
        forall|i: int|
            0 <= i < result@.len() ==> item_tree(*item).table().contains_key(
                #[trigger] result@[i]@,
            ),
        forall|key: Seq<char>| #[trigger]
            item_tree(*item).table().contains_key(key) ==> exists|i: int|
                0 <= i < result@.len() && #[trigger] result@[i]@ == key,
        forall|i: int, j: int|
            0 <= i < j < result@.len() ==> (#[trigger] result@[i])@ != (#[trigger] result@[j])@,
        result@.len() == item_layout(*item).entries().len(),
        forall|i: int|
            0 <= i < result@.len() ==> (#[trigger] result@[i])@ == item_layout(
                *item,
            ).entries()[i].key,
{
    match item.as_table_like() {
        Some(table) => table.iter().map(|(key, _)| key.to_string()).collect(),
        None => Vec::new(),
    }
}

/// `TableLike::get` on either kind of table.
#[verifier::external_body]
pub(crate) fn item_get<'a>(item: &'a toml_edit::Item, key: &str) -> (result: Option<
    &'a toml_edit::Item,
>)
    requires
        item_tree(*item).occupied(),
    ensures
        result is Some <==> item_tree(*item).table().contains_key(key@),
        result matches Some(entry) ==> item_tree(*entry) == item_tree(*item).table()[key@],
        result matches Some(entry) ==> item_layout(*entry) == entry_at(
            item_layout(*item).entries(),
            key@,
        ),
{
    item.as_table_like().and_then(|table| table.get(key))
}

/// `TableLike::get_mut` on either kind of table: what is written through the
/// result becomes the entry. The entry keeps its place and its key's form.
#[verifier::external_body]
pub(crate) fn item_get_mut<'a>(item: &'a mut toml_edit::Item, key: &str) -> (result: Option<
    &'a mut toml_edit::Item,
>)
    requires
        item_tree(*old(item)).occupied(),
    ensures
        result is Some <==> item_tree(*old(item)).table().contains_key(key@),
        result is Some <==> has_entry(item_layout(*old(item)).entries(), key@),
        result is None ==> *final(item) == *old(item),
        result matches Some(entry) ==> {
            &&& at_most_one(item_layout(*old(item)).entries(), key@)
            &&& item_layout(*entry) == entry_at(item_layout(*old(item)).entries(), key@)
            &&& item_layout(*final(item)) == item_layout(*old(item)).with_entries(
                with_entry(item_layout(*old(item)).entries(), key@, item_layout(*final(entry))),
            )
        },
        result matches Some(entry) ==> {
            &&& item_tree(*entry) == item_tree(*old(item)).table()[key@]
            &&& item_tree(*final(item)) == item_tree(*old(item)).with_table(
                item_tree(*old(item)).table().insert(key@, item_tree(*final(entry))),
            )
        },
{
    item.as_table_like_mut().and_then(|table| table.get_mut(key))
}

/// `TableLike::insert` on either kind of table, of a key that is not there: the new entry
/// comes last, its key in the usual form. An inline table takes the item as a value, and
/// does not take `Item::None`.
#[verifier::external_body]
pub(crate) fn item_insert(item: &mut toml_edit::Item, key: &str, entry: toml_edit::Item)
    requires
        item_tree(entry).well_formed(),
        !item_tree(*old(item)).table().contains_key(key@),
    ensures
        item_tree(*final(item)) == item_tree(*old(item)).with_table(
            item_tree(*old(item)).table().insert(
                key@,
                if item_tree(*old(item)) is Inline {
                    item_tree(entry).as_value()
                } else {
                    item_tree(entry)
                },
            ),
        ),
        item_layout(*final(item)) == item_layout(*old(item)).with_entries(
            item_layout(*old(item)).entries().push(
                (EntryLayout {
                    key: key@,
                    form: KeyForm::usual(),
                    layout: if item_layout(*old(item)) is Inline && !item_layout(entry).is_value() {
                        inlined_layout(item_layout(entry))
                    } else {
                        item_layout(entry)
                    },
                }),
            ),
        ),
{
    if let Some(table) = item.as_table_like_mut() {
        table.insert(key, entry);
    }
}

/// `TableLike::remove` on either kind of table, whose old entry is dropped. The other
/// entries keep their order and the way they are written.
#[verifier::external_body]
pub(crate) fn item_remove(item: &mut toml_edit::Item, key: &str)
    ensures
        item_tree(*final(item)) == item_tree(*old(item)).with_table(
            item_tree(*old(item)).table().remove(key@),
        ),
        item_layout(*final(item)) == item_layout(*old(item)).with_entries(
            without_entry(item_layout(*old(item)).entries(), key@),
        ),
{
    if let Some(table) = item.as_table_like_mut() {
        table.remove(key);
    }
}

/// `TableLike::is_empty` on either kind of table. It counts entries that are not
/// vacant, and does not take an inline table that holds anything but values.
#[verifier::external_body]
pub(crate) fn item_is_empty(item: &toml_edit::Item) -> (result: bool)
    requires
        item_tree(*item).is_table_like(),
        item_tree(*item).well_formed(),
    ensures
        result == (item_tree(*item).table() == TomlTree::Absent.table()),
{
    item.as_table_like().is_some_and(|table| table.is_empty())
}

/// `Item::as_value`.
#[verifier::external_body]
pub(crate) fn item_value(item: &toml_edit::Item) -> (result: Option<&toml_edit::Value>)
    ensures
        result is Some <==> item_tree(*item).is_value(),
        result matches Some(value) ==> value_tree(*value) == item_tree(*item),
{
    item.as_value()
}

/// `Item::as_array_mut`: the items of an array for change.
#[verifier::external_body]
pub(crate) fn item_array_mut(item: &mut toml_edit::Item) -> (result: Option<&mut toml_edit::Array>)
    ensures
        result is Some <==> item_tree(*old(item)) is Array,
        result is None ==> *final(item) == *old(item),
        result matches Some(array) ==> {
            &&& item_tree(*old(item)) == TomlTree::Array(array_items(*array))
            &&& item_tree(*final(item)) == TomlTree::Array(array_items(*final(array)))
            &&& item_layout(*old(item)) == array_layout(*array)
            &&& item_layout(*final(item)) == array_layout(*final(array))
            &&& array_layout(*array) is Array
        },
{
    item.as_array_mut()
}

/// `Value::as_str`.
#[verifier::external_body]
pub(crate) fn value_text(value: &toml_edit::Value) -> (result: Option<&str>)
    ensures
        result is Some <==> value_tree(*value) is Text,
        result matches Some(chars) ==> value_tree(*value) == TomlTree::Text(chars@),
{
    value.as_str()
}

/// `Value::as_integer`.
#[verifier::external_body]
pub(crate) fn value_integer(value: &toml_edit::Value) -> (result: Option<i64>)
    ensures
        result is Some <==> value_tree(*value) is Integer,
        result matches Some(n) ==> value_tree(*value) == TomlTree::Integer(n),
{
    value.as_integer()
}

/// `Value::as_float`, handed out as its bit pattern.
#[verifier::external_body]
pub(crate) fn value_float_bits(value: &toml_edit::Value) -> (result: Option<u64>)
    ensures
        result is Some <==> value_tree(*value) is Float,
        result matches Some(bits) ==> value_tree(*value) == TomlTree::Float(bits),
{
    value.as_float().map(|number| number.to_bits())
}

/// `Value::as_bool`.
#[verifier::external_body]
pub(crate) fn value_bool(value: &toml_edit::Value) -> (result: Option<bool>)
    ensures
        result is Some <==> value_tree(*value) is Bool,
        result matches Some(b) ==> value_tree(*value) == TomlTree::Bool(b),
{
    value.as_bool()
}

/// `Value::as_datetime`, handed out as the text that it is written as, which tells
/// apart any two that are not equal.
#[verifier::external_body]
pub(crate) fn value_datetime(value: &toml_edit::Value) -> (result: Option<String>)
    ensures
        result is Some <==> value_tree(*value) is Datetime,
        result matches Some(text) ==> value_tree(*value) == TomlTree::Datetime(text@),
{
    value.as_datetime().map(|datetime| datetime.to_string())
}

/// `Value::as_array`.
#[verifier::external_body]
pub(crate) fn value_array(value: &toml_edit::Value) -> (result: Option<&toml_edit::Array>)
    ensures
        result is Some <==> value_tree(*value) is Array,
        result matches Some(array) ==> value_tree(*value) == TomlTree::Array(array_items(*array)),
{
    value.as_array()
}

/// `Value::as_inline_table`.
#[verifier::external_body]
pub(crate) fn value_inline(value: &toml_edit::Value) -> (result: Option<&toml_edit::InlineTable>)
    ensures
        result is Some <==> value_tree(*value) is Inline,
        result matches Some(table) ==> value_tree(*value) == TomlTree::Inline(
            inline_entries(*table),
        ),
{
    value.as_inline_table()
}

/// `Array::iter`, collected. It hands out the items that are values, which all
/// are here.
#[verifier::external_body]
pub(crate) fn array_values<'a>(array: &'a toml_edit::Array) -> (result: Vec<&'a toml_edit::Value>)
    requires
        TomlTree::Array(array_items(*array)).well_formed(),
    ensures
        value_trees(result@) == array_items(*array),
{
    array.iter().collect()
}

/// `Array::remove`, whose old item is dropped. The others are written as they were.
#[verifier::external_body]
pub(crate) fn array_remove(array: &mut toml_edit::Array, index: usize)
    requires
        index < array_items(*old(array)).len(),
        array_items(*old(array))[index as int].is_value(),
    ensures
        array_items(*final(array)) == array_items(*old(array)).remove(index as int),
        array_layout(*final(array)) == array_layout(*old(array)).with_items(
            array_layout(*old(array)).items().remove(index as int),
        ),
{
    array.remove(index);
}

/// `Array::is_empty`.
#[verifier::external_body]
pub(crate) fn array_is_empty(array: &toml_edit::Array) -> (result: bool)
    ensures
        result == (array_items(*array).len() == 0),
{
    array.is_empty()
}

/// `InlineTable::iter`, its keys collected: every key once, in no stated order.
#[verifier::external_body]
pub(crate) fn inline_keys(table: &toml_edit::InlineTable) -> (result: Vec<String>)
    requires
        TomlTree::Inline(inline_entries(*table)).well_formed(),
    ensures
        forall|i: int|
            0 <= i < result@.len() ==> inline_entries(*table).contains_key(#[trigger] result@[i]@),
        forall|key: Seq<char>| #[trigger]
            inline_entries(*table).contains_key(key) ==> exists|i: int|
                0 <= i < result@.len() && #[trigger] result@[i]@ == key,
{
    table.iter().map(|(key, _)| key.to_string()).collect()
}

/// `InlineTable::get`.
#[verifier::external_body]
pub(crate) fn inline_get<'a>(table: &'a toml_edit::InlineTable, key: &str) -> (result: Option<
    &'a toml_edit::Value,
>)
    requires
        TomlTree::Inline(inline_entries(*table)).well_formed(),
    ensures
        result is Some <==> inline_entries(*table).contains_key(key@),
        result matches Some(value) ==> value_tree(*value) == inline_entries(*table)[key@],
{
    table.get(key)
}

} // verus!
