//! TOML documents as the library sees them.

use crate::nesting::{nesting, nesting_of};
use crate::text::holds_text;
use vstd::prelude::*;

verus! {

/// A TOML value.
#[derive(Debug, PartialEq, Eq)]
pub enum TomlValue {
    /// A string.
    String(String),
    /// An integer.
    Integer(i64),
    /// A float, as the bits of its 64-bit representation.
    Float(u64),
    /// A boolean.
    Boolean(bool),
    /// A date, a time or both, in its TOML notation.
    Datetime(String),
    /// An array.
    Array(Vec<TomlValue>),
    /// A table, its entries in the order of the table.
    Table(Vec<Entry>),
}

/// One entry of a table.
#[derive(Debug, PartialEq, Eq)]
pub struct Entry {
    pub key: String,
    pub value: TomlValue,
}

/// A TOML value as a mathematical value.
pub enum TomlView {
    String(Seq<char>),
    Integer(i64),
    Float(u64),
    Boolean(bool),
    Datetime(Seq<char>),
    Array(Seq<TomlView>),
    Table(Seq<EntryView>),
}

/// A table entry as a mathematical value.
pub struct EntryView {
    pub key: Seq<char>,
    pub value: TomlView,
}

impl TomlValue {
    /// The value as a mathematical value.
    ///
    /// The definition goes by recursion on the value and so reaches the items
    /// of an array, and the entries of a table, one at a time;
    /// [`lemma_view_of_collections`] gives the same item by item.
    pub open spec fn model(self) -> TomlView
        decreases self, 0nat,
    {
        match self {
            TomlValue::String(s) => TomlView::String(s@),
            TomlValue::Integer(i) => TomlView::Integer(i),
            TomlValue::Float(bits) => TomlView::Float(bits),
            TomlValue::Boolean(b) => TomlView::Boolean(b),
            TomlValue::Datetime(s) => TomlView::Datetime(s@),
            TomlValue::Array(items) => TomlView::Array(Self::item_models(items, items.len() as nat)),
            TomlValue::Table(entries) => TomlView::Table(
                Self::entry_models(entries, entries.len() as nat),
            ),
        }
    }

    /// The first `count` items as mathematical values.
    pub open spec fn item_models(items: Vec<TomlValue>, count: nat) -> Seq<TomlView>
        decreases items, count,
    {
        if count == 0 || count > items.len() {
            Seq::empty()
        } else {
            Self::item_models(items, (count - 1) as nat).push(items[count - 1].model())
        }
    }

    /// The first `count` entries as mathematical values.
    pub open spec fn entry_models(entries: Vec<Entry>, count: nat) -> Seq<EntryView>
        decreases entries, count,
    {
        if count == 0 || count > entries.len() {
            Seq::empty()
        } else {
            Self::entry_models(entries, (count - 1) as nat).push(
                EntryView {
                    key: entries[count - 1].key@,
                    value: entries[count - 1].value.model(),
                },
            )
        }
    }
}

impl View for TomlValue {
    type V = TomlView;

    open spec fn view(&self) -> TomlView {
        self.model()
    }
}

impl View for Entry {
    type V = EntryView;

    open spec fn view(&self) -> EntryView {
        EntryView { key: self.key@, value: self.value@ }
    }
}

/// The views of a sequence of values, item by item.
pub open spec fn value_views(items: Seq<TomlValue>) -> Seq<TomlView> {
    Seq::new(items.len(), |i: int| items[i]@)
}

/// The views of a sequence of entries, entry by entry.
pub open spec fn entry_views(entries: Seq<Entry>) -> Seq<EntryView> {
    Seq::new(entries.len(), |i: int| entries[i]@)
}

/// The models of the first items are the views of the first items.
proof fn lemma_item_models(items: Vec<TomlValue>, count: nat)
    requires
        count <= items.len(),
    ensures
        TomlValue::item_models(items, count) =~= value_views(items@.take(count as int)),
    decreases count,
{
    if count > 0 {
        lemma_item_models(items, (count - 1) as nat);
    }
}

/// The models of the first entries are the views of the first entries.
proof fn lemma_entry_models(entries: Vec<Entry>, count: nat)
    requires
        count <= entries.len(),
    ensures
        TomlValue::entry_models(entries, count) =~= entry_views(entries@.take(count as int)),
    decreases count,
{
    if count > 0 {
        lemma_entry_models(entries, (count - 1) as nat);
    }
}

/// The view of an array is the array of its items' views, and the view of a
/// table is the table of its entries' views.
pub proof fn lemma_view_of_collections(value: TomlValue)
    ensures
        value matches TomlValue::Array(items) ==> value@ == TomlView::Array(value_views(items@)),
        value matches TomlValue::Table(entries) ==> value@ == TomlView::Table(
            entry_views(entries@),
        ),
{
    match value {
        TomlValue::Array(items) => {
            lemma_item_models(items, items.len() as nat);
            assert(items@.take(items.len() as int) =~= items@);
        },
        TomlValue::Table(entries) => {
            lemma_entry_models(entries, entries.len() as nat);
            assert(entries@.take(entries.len() as int) =~= entries@);
        },
        _ => {},
    }
}

/// Whether some entry has the given key.
pub open spec fn has_key(entries: Seq<EntryView>, key: Seq<char>) -> bool {
    exists|i: int| 0 <= i < entries.len() && (#[trigger] entries[i]).key == key
}

/// Whether `index` is the place of the first entry with the given key.
pub open spec fn is_first_with_key(entries: Seq<EntryView>, key: Seq<char>, index: int) -> bool {
    &&& 0 <= index < entries.len()
    &&& entries[index].key == key
    &&& forall|j: int| 0 <= j < index ==> (#[trigger] entries[j]).key != key
}

/// The place of the first entry with the given key, where there is one.
pub open spec fn first_with_key(entries: Seq<EntryView>, key: Seq<char>) -> int {
    choose|i: int| is_first_with_key(entries, key, i)
}

/// Among entries of which some have the key, one is the first that has it,
/// and only one.
pub proof fn lemma_first_with_key(entries: Seq<EntryView>, key: Seq<char>)
    requires
        has_key(entries, key),
    ensures
        is_first_with_key(entries, key, first_with_key(entries, key)),
        forall|index: int|
            is_first_with_key(entries, key, index) ==> index == first_with_key(entries, key),
{
    let some = choose|i: int| 0 <= i < entries.len() && (#[trigger] entries[i]).key == key;
    lemma_key_found_by(entries, key, some);
    let first = first_with_key(entries, key);
    assert forall|index: int| is_first_with_key(entries, key, index) implies index == first by {
        if first < index {
            assert(entries[first].key != key);
        } else if index < first {
            assert(entries[index].key != key);
        }
    }
}

/// Entries of which the one at `index` has the key have a first entry that
/// has it.
proof fn lemma_key_found_by(entries: Seq<EntryView>, key: Seq<char>, index: int)
    requires
        0 <= index < entries.len(),
        entries[index].key == key,
    ensures
        exists|first: int| is_first_with_key(entries, key, first),
    decreases index,
{
    if forall|j: int| 0 <= j < index ==> (#[trigger] entries[j]).key != key {
        assert(is_first_with_key(entries, key, index));
    } else {
        let earlier = choose|j: int| 0 <= j < index && (#[trigger] entries[j]).key == key;
        lemma_key_found_by(entries, key, earlier);
    }
}

impl TomlView {
    /// The value under `key`: that of the first entry with this key if the
    /// value is a table that has one, and nothing otherwise. Only a table has
    /// members.
    pub open spec fn member(self, key: Seq<char>) -> Option<TomlView> {
        match self {
            TomlView::Table(entries) => if has_key(entries, key) {
                Some(entries[first_with_key(entries, key)].value)
            } else {
                None
            },
            _ => None,
        }
    }
}

/// The view of an optional value.
pub open spec fn optional_view(value: Option<TomlValue>) -> Option<TomlView> {
    match value {
        Some(v) => Some(v@),
        None => None,
    }
}

impl TomlValue {
    /// Takes the value apart for the member under `key`.
    ///
    /// Only a table has members. Where it has several entries with the key,
    /// the first counts.
    pub fn into_member(self, key: &str) -> (member: Option<TomlValue>)
        ensures
            optional_view(member) == self@.member(key@),
    {
        proof {
            lemma_view_of_collections(self);
        }
        let ghost whole = self@;
        match self {
            TomlValue::Table(mut entries) => {
                let ghost all = entry_views(entries@);
                let mut index: usize = 0;
                while index < entries.len()
                    invariant
                        index <= entries.len(),
                        whole == self@,
                        whole == TomlView::Table(all),
                        all == entry_views(entries@),
                        forall|j: int| 0 <= j < index ==> (#[trigger] all[j]).key != key@,
                    decreases entries.len() - index,
                {
                    if holds_text(&entries[index].key, key) {
                        proof {
                            assert(is_first_with_key(all, key@, index as int));
                            lemma_first_with_key(all, key@);
                        }
                        let entry = entries.remove(index);
                        assert(entry@ == all[index as int]);
                        return Some(entry.value);
                    }
                    index += 1;
                }
                assert(!has_key(all, key@));
                None
            },
            _ => None,
        }
    }

    /// Takes the value apart for its entries, or hands it back unchanged
    /// where it is no table.
    pub fn into_table(self) -> (table: Result<Vec<Entry>, TomlValue>)
        ensures
            table is Ok <==> self@ is Table,
            table matches Ok(entries) ==> self@ == TomlView::Table(entry_views(entries@)),
            table matches Err(value) ==> value == self,
    {
        proof {
            lemma_view_of_collections(self);
        }
        match self {
            TomlValue::Table(entries) => Ok(entries),
            other => Err(other),
        }
    }
}

/// `toml::Value`, the value type of the TOML parser.
#[verifier::external_type_specification]
#[verifier::external_body]
pub struct ExRawValue(toml::Value);

/// The error of the TOML parser, `toml::de::Error`.
#[verifier::external_type_specification]
#[verifier::external_body]
pub struct ExSyntaxError(toml::de::Error);

/// What the TOML parser makes of a text: the document that the text denotes,
/// or nothing where the text is not TOML.
pub uninterp spec fn toml_document(content: Seq<char>) -> Option<TomlView>;

/// What a `toml::Value` holds.
pub uninterp spec fn lifted(raw: toml::Value) -> TomlView;

/// The deepest nesting that a text may have to be parsed.
pub const NESTING_LIMIT: usize = 64;

/// Hands the text to the TOML parser, `str::parse::<toml::Value>`, which is
/// `toml::de::from_str`.
///
/// The parser keeps no bound on its recursion. It descends one level for
/// each bracket and brace that is open around a value and one for each part
/// of a dotted key. The value that it builds, which is taken apart by
/// recursion here and in [`lift`], is as deep as the path of its table
/// header, the dots of the keys above it and the brackets and braces around
/// it taken together, and one more for the document. The parser reads
/// comments, strings, keys and values as the walk of [`nesting_of`] does, so
/// the header and the rest are each at most the nesting of the text. The
/// precondition keeps every descent within twice [`NESTING_LIMIT`] and one.
///
/// Not proved: that the parser's answer depends on the text alone, so that
/// [`toml_document`] can stand for it.
#[verifier::external_body]
fn parse_toml(content: &str) -> (parsed: Result<toml::Value, toml::de::Error>)
    requires
        nesting_of(content@) <= NESTING_LIMIT,
    ensures
        parsed is Ok <==> toml_document(content@) is Some,
        parsed matches Ok(raw) ==> toml_document(content@) == Some(lifted(raw)),
{
    content.parse::<toml::Value>()
}

/// Rewrites a `toml::Value` as a [`TomlValue`], variant by variant: a float
/// becomes its bits (`f64::to_bits`), a datetime its TOML notation
/// (`toml::value::Datetime`'s `Display`), and a table the list of its
/// entries in the order in which `toml::map::Map` walks them, which is by
/// ascending key.
///
/// Not proved: that the rewritten value holds what the `toml::Value` held.
#[verifier::external_body]
fn lift(raw: toml::Value) -> (value: TomlValue)
    ensures
        value@ == lifted(raw),
{
    match raw {
        toml::Value::String(s) => TomlValue::String(s),
        toml::Value::Integer(i) => TomlValue::Integer(i),
        toml::Value::Float(f) => TomlValue::Float(f.to_bits()),
        toml::Value::Boolean(b) => TomlValue::Boolean(b),
        toml::Value::Datetime(d) => TomlValue::Datetime(d.to_string()),
        toml::Value::Array(a) => TomlValue::Array(a.into_iter().map(lift).collect()),
        toml::Value::Table(t) => TomlValue::Table(
            t.into_iter().map(|(key, v)| Entry { key, value: lift(v) }).collect(),
        ),
    }
}

/// Why a text yields no document.
#[derive(Debug, PartialEq, Eq)]
pub enum DocumentError {
    /// The text is nested deeper than [`NESTING_LIMIT`]. It is not handed to
    /// the parser.
    TooNested,
    /// The text is not TOML; the parser's error.
    Syntax(toml::de::Error),
}

/// Why a text yields no document, as a mathematical value. Of the parser's
/// error only the fact is kept.
pub enum DocumentErrorView {
    TooNested,
    Syntax,
}

impl View for DocumentError {
    type V = DocumentErrorView;

    open spec fn view(&self) -> DocumentErrorView {
        match self {
            DocumentError::TooNested => DocumentErrorView::TooNested,
            DocumentError::Syntax(_) => DocumentErrorView::Syntax,
        }
    }
}

/// The document of a text: none for a text that is nested too deeply, and
/// otherwise what the parser makes of the text.
pub open spec fn document_of(content: Seq<char>) -> Result<TomlView, DocumentErrorView> {
    if nesting_of(content) > NESTING_LIMIT {
        Err(DocumentErrorView::TooNested)
    } else {
        match toml_document(content) {
            Some(document) => Ok(document),
            None => Err(DocumentErrorView::Syntax),
        }
    }
}

/// The view of a document or of the error in its place.
pub open spec fn parsed_view(parsed: Result<TomlValue, DocumentError>) -> Result<
    TomlView,
    DocumentErrorView,
> {
    match parsed {
        Ok(document) => Ok(document@),
        Err(error) => Err(error@),
    }
}

/// Parses a TOML text.
///
/// A text that is nested deeper than [`NESTING_LIMIT`] is refused unread,
/// however long or short it is. Every other text yields the document that it
/// denotes, or the parser's error where it is not TOML.
pub fn parse_document(content: &str) -> (parsed: Result<TomlValue, DocumentError>)
    ensures
        parsed_view(parsed) == document_of(content@),
{
    if nesting(content) > NESTING_LIMIT {
        return Err(DocumentError::TooNested);
    }
    match parse_toml(content) {
        Ok(raw) => Ok(lift(raw)),
        Err(error) => Err(DocumentError::Syntax(error)),
    }
}

} // verus!
