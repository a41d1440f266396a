//! TOML documents: their tables and texts.
use vstd::prelude::*;

use crate::text::chars_of;

verus! {

/// What an item of a document is: a text, a table with a header of its own, a table written inline,
/// a list of tables with headers, or any other value, as the document writes it without the space
/// around it.
#[verifier::ext_equal]
pub enum TomlView {
    Text(Seq<char>),
    Table(Map<Seq<char>, TomlView>),
    Inline(Map<Seq<char>, TomlView>),
    Tables(Seq<Map<Seq<char>, TomlView>>),
    Other(Seq<char>),
}

impl TomlView {
    pub open spec fn is_table_like(self) -> bool {
        self is Table || self is Inline
    }

    /// The items of a table of either kind.
    pub open spec fn entries(self) -> Map<Seq<char>, TomlView> {
        match self {
            TomlView::Table(entries) => entries,
            TomlView::Inline(entries) => entries,
            _ => Map::empty(),
        }
    }

    /// The table with one item set.
    pub open spec fn with(self, key: Seq<char>, item: TomlView) -> TomlView {
        match self {
            TomlView::Table(entries) => TomlView::Table(entries.insert(key, item)),
            TomlView::Inline(entries) => TomlView::Inline(entries.insert(key, item)),
            _ => self,
        }
    }
}

#[verifier::external_type_specification]
#[verifier::external_body]
pub struct ExDocumentMut(toml_edit::DocumentMut);

/// What a `toml_edit::DocumentMut` holds at its root.
pub uninterp spec fn document_contents(doc: toml_edit::DocumentMut) -> Map<Seq<char>, TomlView>;

/// What parsing a text as a `toml_edit::DocumentMut` gives: what it holds, or the error's message.
pub uninterp spec fn parsed_toml(text: Seq<char>) -> Result<Map<Seq<char>, TomlView>, Seq<char>>;

/// A text that was set in a document.
pub enum TomlEdit {
    /// The text for a key of the root.
    Root(Seq<char>, Seq<char>),
    /// The text for a key of a table within a table, set by index.
    Indexed(Seq<char>, Seq<char>, Seq<char>, Seq<char>),
    /// The same, inserted into the table.
    Inserted(Seq<char>, Seq<char>, Seq<char>, Seq<char>),
}

/// How a document came about: the text that it was read from, unless it was a new one, and the
/// texts that were set in it since.
#[verifier::ext_equal]
pub struct TomlHistory {
    pub source: Option<Seq<char>>,
    pub edits: Seq<TomlEdit>,
}

impl TomlHistory {
    pub open spec fn read_from(text: Seq<char>) -> TomlHistory {
        TomlHistory { source: Some(text), edits: Seq::empty() }
    }

    pub open spec fn new_document() -> TomlHistory {
        TomlHistory { source: None, edits: Seq::empty() }
    }

    pub open spec fn and(self, edit: TomlEdit) -> TomlHistory {
        TomlHistory { edits: self.edits.push(edit), ..self }
    }

    pub open spec fn and_all(self, edits: Seq<TomlEdit>) -> TomlHistory {
        TomlHistory { edits: self.edits + edits, ..self }
    }
}

/// Whether a `toml_edit::DocumentMut`, its comments and spaces counting, is the one that a history
/// leads to.
pub uninterp spec fn came_about(doc: toml_edit::DocumentMut, history: TomlHistory) -> bool;

/// The text that `toml_edit` writes for the document that a history leads to, comments and spaces
/// included.
pub uninterp spec fn written_toml(history: TomlHistory) -> Seq<char>;

/// Whether a text is read as a document with given contents.
pub open spec fn toml_reads_as(text: Seq<char>, contents: Map<Seq<char>, TomlView>) -> bool {
    parsed_toml(text) == Ok::<Map<Seq<char>, TomlView>, Seq<char>>(contents)
}

pub open spec fn no_items() -> Map<Seq<char>, TomlView> {
    Map::empty()
}

/// The item for a key, if there is one.
pub open spec fn item_at(contents: Map<Seq<char>, TomlView>, key: Seq<char>) -> Option<TomlView> {
    if contents.contains_key(key) {
        Some(contents[key])
    } else {
        None
    }
}

/// The text for a key of the root.
pub open spec fn root_text(contents: Map<Seq<char>, TomlView>, key: Seq<char>) -> Option<Seq<char>> {
    match item_at(contents, key) {
        Some(TomlView::Text(text)) => Some(text),
        _ => None,
    }
}

/// The text for a key of a table within a table, both with headers.
pub open spec fn table_text(
    contents: Map<Seq<char>, TomlView>,
    outer: Seq<char>,
    inner: Seq<char>,
    key: Seq<char>,
) -> Option<Seq<char>> {
    match item_at(contents, outer) {
        Some(TomlView::Table(tables)) => match item_at(tables, inner) {
            Some(TomlView::Table(entries)) => root_text(entries, key),
            _ => None,
        },
        _ => None,
    }
}

/// The item for a key of a table of either kind within the root.
pub open spec fn inner_item(
    contents: Map<Seq<char>, TomlView>,
    outer: Seq<char>,
    inner: Seq<char>,
) -> Option<TomlView> {
    match item_at(contents, outer) {
        Some(table) => item_at(table.entries(), inner),
        None => None,
    }
}

/// A place for an item: a table of either kind, or nothing yet.
pub open spec fn gives_place(item: Option<TomlView>) -> bool {
    item is None || item->0.is_table_like()
}

/// The table for an item set by index: the one that is there, or a new inline one.
pub open spec fn table_or_new(item: Option<TomlView>) -> TomlView {
    match item {
        Some(table) => table,
        None => TomlView::Inline(Map::empty()),
    }
}

/// The contents with a text set in a table within a table; tables that are missing are made, inline.
pub open spec fn with_indexed_text(
    contents: Map<Seq<char>, TomlView>,
    outer: Seq<char>,
    inner: Seq<char>,
    key: Seq<char>,
    value: Seq<char>,
) -> Map<Seq<char>, TomlView> {
    let table = table_or_new(item_at(contents, outer));
    let entry = table_or_new(item_at(table.entries(), inner));
    contents.insert(outer, table.with(inner, entry.with(key, TomlView::Text(value))))
}

/// How many times a character stands at the end of a text.
pub open spec fn run_at_end(s: Seq<char>, c: char) -> nat
    decreases s.len(),
{
    if s.len() > 0 && s.last() == c {
        run_at_end(s.drop_last(), c) + 1
    } else {
        0
    }
}

/// A character stands at most 255 times in a row.
pub open spec fn runs_fit(s: Seq<char>, c: char) -> bool
    decreases s.len(),
{
    s.len() > 0 ==> runs_fit(s.drop_last(), c) && run_at_end(s, c) <= 255
}

/// Whether a text can be a value of a document: `toml_edit` counts its quotes in bytes.
pub open spec fn can_be_set(s: Seq<char>) -> bool {
    runs_fit(s, '\'') && runs_fit(s, '"')
}

fn fits(text: &str, c: char) -> (r: bool)
    ensures
        r == runs_fit(text@, c),
{
    let chars = chars_of(text);
    let mut run: usize = 0;
    let mut fit = true;
    assert(chars@.take(0) =~= Seq::<char>::empty());
    for i in 0..chars.len()
        invariant
            chars@ == text@,
            run <= i,
            run == run_at_end(chars@.take(i as int), c),
            fit == runs_fit(chars@.take(i as int), c),
    {
        assert(chars@.take(i + 1).drop_last() =~= chars@.take(i as int));
        assert(chars@.take(i + 1).last() == chars@[i as int]);
        run = if chars[i] == c {
            run + 1
        } else {
            0
        };
        fit = fit && run <= 255;
    }
    assert(chars@.take(chars@.len() as int) =~= chars@);
    fit
}

pub(crate) fn text_can_be_set(text: &str) -> (r: bool)
    ensures
        r == can_be_set(text@),
{
    fits(text, '\'') && fits(text, '"')
}

/// What an item is.
#[derive(Clone, Copy, Debug, PartialEq, Eq, Structural)]
pub enum TomlKind {
    Missing,
    Text,
    Table,
    Inline,
    Other,
}

pub open spec fn kind_of(item: Option<TomlView>) -> TomlKind {
    match item {
        None => TomlKind::Missing,
        Some(TomlView::Text(_)) => TomlKind::Text,
        Some(TomlView::Table(_)) => TomlKind::Table,
        Some(TomlView::Inline(_)) => TomlKind::Inline,
        Some(TomlView::Tables(_)) => TomlKind::Other,
        Some(TomlView::Other(_)) => TomlKind::Other,
    }
}

/// Parses with `toml_edit`'s `FromStr` for `DocumentMut`. The result is the named one: what the
/// document holds, or the message of the `toml_edit::TomlError`. The document is the one that its
/// text leads to.
#[verifier::external_body]
pub(crate) fn parse_document(text: &str) -> (r: Result<toml_edit::DocumentMut, String>)
    ensures
        match r {
            Ok(doc) => toml_reads_as(text@, document_contents(doc)) && came_about(
                doc,
                TomlHistory::read_from(text@),
            ),
            Err(message) => parsed_toml(text@) is Err && parsed_toml(text@)->Err_0 == message@,
        },
{
    text.parse::<toml_edit::DocumentMut>().map_err(|error| error.to_string())
}

/// Calls `DocumentMut::new`: the document is empty.
#[verifier::external_body]
pub(crate) fn new_document() -> (r: toml_edit::DocumentMut)
    ensures
        document_contents(r) == no_items(),
        came_about(r, TomlHistory::new_document()),
{
    toml_edit::DocumentMut::new()
}

/// Calls `Table::get` on the root and `Item::as_str`: the text for the key, if it has one.
#[verifier::external_body]
pub(crate) fn document_text(doc: &toml_edit::DocumentMut, key: &str) -> (r: Option<String>)
    ensures
        crate::text::option_text(r) == root_text(document_contents(*doc), key@),
{
    doc.get(key).and_then(toml_edit::Item::as_str).map(str::to_string)
}

/// Calls `Table::get` three times, with `Item::as_table` between, and `Item::as_str`: the text for
/// a key of a table within a table. A table written inline is none for `as_table`.
#[verifier::external_body]
pub(crate) fn document_table_text(
    doc: &toml_edit::DocumentMut,
    outer: &str,
    inner: &str,
    key: &str,
) -> (r: Option<String>)
    ensures
        crate::text::option_text(r) == table_text(document_contents(*doc), outer@, inner@, key@),
{
    doc.get(outer)
        .and_then(toml_edit::Item::as_table)
        .and_then(|tables| tables.get(inner))
        .and_then(toml_edit::Item::as_table)
        .and_then(|table| table.get(key))
        .and_then(toml_edit::Item::as_str)
        .map(str::to_string)
}

/// Calls `Table::get` on the root and tells the variants of the `Item` apart.
#[verifier::external_body]
pub(crate) fn document_kind(doc: &toml_edit::DocumentMut, key: &str) -> (r: TomlKind)
    ensures
        r == kind_of(item_at(document_contents(*doc), key@)),
{
    match doc.get(key) {
        None => TomlKind::Missing,
        Some(item) if item.is_str() => TomlKind::Text,
        Some(item) if item.is_table() => TomlKind::Table,
        Some(item) if item.is_inline_table() => TomlKind::Inline,
        Some(_) => TomlKind::Other,
    }
}

/// Calls `Table::get` on the root, `TableLike::get` on what it gives, and tells the variants of the
/// `Item` apart. `Item::as_table_like` takes tables of either kind.
#[verifier::external_body]
pub(crate) fn document_inner_kind(doc: &toml_edit::DocumentMut, outer: &str, inner: &str) -> (r: TomlKind)
    ensures
        r == kind_of(inner_item(document_contents(*doc), outer@, inner@)),
{
    match doc.get(outer).and_then(toml_edit::Item::as_table_like).and_then(|t| t.get(inner)) {
        None => TomlKind::Missing,
        Some(item) if item.is_str() => TomlKind::Text,
        Some(item) if item.is_table() => TomlKind::Table,
        Some(item) if item.is_inline_table() => TomlKind::Inline,
        Some(_) => TomlKind::Other,
    }
}

/// Calls `TableLike::get` on a table of either kind within another: whether it has the key.
#[verifier::external_body]
pub(crate) fn document_inner_has(
    doc: &toml_edit::DocumentMut,
    outer: &str,
    inner: &str,
    key: &str,
) -> (r: bool)
    ensures
        r == (inner_item(document_contents(*doc), outer@, inner@) is Some && inner_item(
            document_contents(*doc),
            outer@,
            inner@,
        )->0.entries().contains_key(key@)),
{
    doc.get(outer)
        .and_then(toml_edit::Item::as_table_like)
        .and_then(|tables| tables.get(inner))
        .and_then(toml_edit::Item::as_table_like)
        .and_then(|table| table.get(key))
        .is_some()
}

/// Assigns `toml_edit::value` through `IndexMut` on the document: the key has the text then,
/// whatever it had. The text is one that the document can be written with: `toml_write` counts the
/// quotes in a row with a `u8`, which may overflow. Whatever led to the document, with this edit
/// leads to the one after it.
#[verifier::external_body]
pub(crate) fn set_document_text(doc: &mut toml_edit::DocumentMut, key: &str, value: &str)
    requires
        can_be_set(value@),
    ensures
        document_contents(*final(doc)) == document_contents(*old(doc)).insert(
            key@,
            TomlView::Text(value@),
        ),
        forall|history: TomlHistory| #[trigger]
            came_about(*old(doc), history) ==> came_about(*final(doc), history.and(TomlEdit::Root(key@, value@))),
{
    doc[key] = toml_edit::value(value);
}

/// Assigns `toml_edit::value` through `IndexMut` on the document and on `Item`, twice. `IndexMut`
/// makes an inline table of a missing item, and panics on an item that is no table of either kind.
/// The text is one that the document can be written with, as for `set_document_text`, and the edit
/// is one more of what led to the document.
#[verifier::external_body]
pub(crate) fn set_indexed_text(
    doc: &mut toml_edit::DocumentMut,
    outer: &str,
    inner: &str,
    key: &str,
    value: &str,
)
    requires
        gives_place(item_at(document_contents(*old(doc)), outer@)),
        gives_place(inner_item(document_contents(*old(doc)), outer@, inner@)),
        can_be_set(value@),
    ensures
        document_contents(*final(doc)) == with_indexed_text(
            document_contents(*old(doc)),
            outer@,
            inner@,
            key@,
            value@,
        ),
        forall|history: TomlHistory| #[trigger]
            came_about(*old(doc), history) ==> came_about(*final(doc), history.and(TomlEdit::Indexed(outer@, inner@, key@, value@))),
{
    doc[outer][inner][key] = toml_edit::value(value);
}

/// Calls `TableLike::insert` on a table of either kind within another, with `toml_edit::value`: the
/// key has the text then. The text is one that the document can be written with, as for
/// `set_document_text`, and the edit is one more of what led to the document.
#[verifier::external_body]
pub(crate) fn insert_inner_text(
    doc: &mut toml_edit::DocumentMut,
    outer: &str,
    inner: &str,
    key: &str,
    value: &str,
)
    requires
        inner_item(document_contents(*old(doc)), outer@, inner@) is Some,
        inner_item(document_contents(*old(doc)), outer@, inner@)->0.is_table_like(),
        can_be_set(value@),
    ensures
        document_contents(*final(doc)) == with_indexed_text(
            document_contents(*old(doc)),
            outer@,
            inner@,
            key@,
            value@,
        ),
        forall|history: TomlHistory| #[trigger]
            came_about(*old(doc), history) ==> came_about(*final(doc), history.and(TomlEdit::Inserted(outer@, inner@, key@, value@))),
{
    doc.get_mut(outer)
        .and_then(toml_edit::Item::as_table_like_mut)
        .and_then(|tables| tables.get_mut(inner))
        .and_then(toml_edit::Item::as_table_like_mut)
        .map(|table| table.insert(key, toml_edit::value(value)));
}

/// Calls `to_string` on the document. The text is the named one of whatever led to the document. It
/// is read back as a document with the same contents, also with a line feed behind it. Every text
/// that was set in the document is one that it can be written with, and those that were read keep
/// the form they had.
#[verifier::external_body]
pub(crate) fn write_document(doc: &toml_edit::DocumentMut) -> (r: String)
    ensures
        toml_reads_as(r@, document_contents(*doc)),
        toml_reads_as(r@ + "\n"@, document_contents(*doc)),
        forall|history: TomlHistory| #[trigger]
            came_about(*doc, history) ==> r@ == written_toml(history),
{
    doc.to_string()
}

} // verus!
