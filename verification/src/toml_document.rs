//! Editable TOML documents: `toml_edit` keeps the layout of a text while its
//! entries are changed.

use crate::text;
use crate::toml_value;
use crate::toml_value::Toml;
use vstd::prelude::*;

verus! {

/// An editable document of `toml_edit`.
#[verifier::external_type_specification]
#[verifier::external_body]
pub struct ExDocumentMut(toml_edit::DocumentMut);

/// An item of a `toml_edit` document: a value, a table, an array of tables, or
/// nothing.
#[verifier::external_type_specification]
#[verifier::external_body]
pub struct ExItem(toml_edit::Item);

/// The top-level entries of a document. A table counts alike whether it is
/// written inline, under a header or with dotted keys, and an array of tables
/// counts as an array.
pub uninterp spec fn document_entries(document: toml_edit::DocumentMut) -> Map<Seq<char>, Toml>;

/// The value of an item, where it is not the empty item.
pub uninterp spec fn item_value(item: toml_edit::Item) -> Option<Toml>;

/// How entries are written: the keys in their order, each with the form in which
/// `toml_edit` keeps it and its item, with white space and comments.
pub type Forms = Seq<(Seq<char>, Seq<char>)>;

/// The layout of a document.
#[verifier::ext_equal]
pub struct Layout {
    /// How the top-level entries are written.
    pub entries: Forms,
    /// The text behind the last entry.
    pub trailing: Seq<char>,
}

/// The layout of a document.
pub uninterp spec fn document_layout(document: toml_edit::DocumentMut) -> Layout;

/// How the entries of the table under a top-level key are written.
pub uninterp spec fn table_layout(document: toml_edit::DocumentMut, table: Seq<char>) -> Seq<
    (Seq<char>, Seq<char>),
>;

/// The layout that `toml_edit` reads in a text.
pub uninterp spec fn layout_parsed(source: Seq<char>) -> Layout;

/// How the entries of the table under a top-level key are written in a text, as
/// `toml_edit` reads it.
pub uninterp spec fn table_layout_parsed(source: Seq<char>, table: Seq<char>) -> Seq<
    (Seq<char>, Seq<char>),
>;

/// The forms of the entries whose keys are not among these.
pub open spec fn forms_without(forms: Forms, keys: Set<Seq<char>>) -> Forms
    decreases forms.len(),
{
    if forms.len() == 0 {
        Seq::empty()
    } else {
        let before = forms_without(forms.drop_last(), keys);
        if keys.contains(forms.last().0) {
            before
        } else {
            before.push(forms.last())
        }
    }
}

/// Whether a document is laid out as another but for one top-level key.
pub open spec fn laid_out_alike_but(
    after: toml_edit::DocumentMut,
    before: toml_edit::DocumentMut,
    key: Seq<char>,
) -> bool {
    &&& forms_without(document_layout(after).entries, set![key]) == forms_without(
        document_layout(before).entries,
        set![key],
    )
    &&& document_layout(after).trailing == document_layout(before).trailing
    &&& forall|table: Seq<char>|
        table != key ==> #[trigger] table_layout(after, table) == table_layout(before, table)
}

/// Leaving out keys at once is leaving out some of them first.
pub proof fn lemma_forms_without(forms: Forms, some: Set<Seq<char>>, all: Set<Seq<char>>)
    requires
        some.subset_of(all),
    ensures
        forms_without(forms_without(forms, some), all) == forms_without(forms, all),
    decreases forms.len(),
{
    if forms.len() > 0 {
        let front = forms.drop_last();
        lemma_forms_without(front, some, all);
        if !some.contains(forms.last().0) {
            let kept = forms_without(front, some);
            assert(kept.push(forms.last()).drop_last() =~= kept);
        }
    }
}

/// The text that a document prints as.
pub uninterp spec fn document_text(document: toml_edit::DocumentMut) -> Seq<char>;

/// The top-level entries that `toml_edit` reads in a text, or the message of its
/// error.
pub uninterp spec fn document_parsed(source: Seq<char>) -> Result<
    Map<Seq<char>, Toml>,
    Seq<char>,
>;

/// The value of an optional item.
pub open spec fn opt_item_value(item: Option<toml_edit::Item>) -> Option<Toml> {
    match item {
        Some(item) => item_value(item),
        None => None,
    }
}

/// Reads a document with `str::parse::<toml_edit::DocumentMut>`. The contract
/// names the outcome and its layout, as functions of the text.
#[verifier::external_body]
pub(crate) fn parse_document(source: &str) -> (r: Result<toml_edit::DocumentMut, String>)
    ensures
        match r {
            Ok(document) => document_parsed(source@) == Ok::<Map<Seq<char>, Toml>, Seq<char>>(
                document_entries(document),
            ),
            Err(message) => document_parsed(source@) == Err::<Map<Seq<char>, Toml>, Seq<char>>(
                message@,
            ),
        },
        r matches Ok(document) ==> document_layout(document) == layout_parsed(source@),
        r matches Ok(document) ==> forall|table: Seq<char>| #[trigger]
            table_layout(document, table) == table_layout_parsed(source@, table),
{
    source.parse::<toml_edit::DocumentMut>().map_err(|error| error.to_string())
}

/// Calls `toml_edit::Table::get` on the root and clones the item: the item under
/// a top-level key, which is never the empty item.
#[verifier::external_body]
pub(crate) fn document_get(document: &toml_edit::DocumentMut, key: &str) -> (r: Option<
    toml_edit::Item,
>)
    ensures
        opt_item_value(r) == toml_value::entry_of(document_entries(*document), key@),
        r matches Some(item) ==> item_value(item) is Some,
{
    document.get(key).cloned()
}

/// Calls `toml_edit::Table::insert` on the root: the key gets the item. An empty
/// item leaves the key without an entry. The other entries keep their order and
/// their forms.
#[verifier::external_body]
pub(crate) fn document_insert(document: &mut toml_edit::DocumentMut, key: &str, item: toml_edit::Item)
    ensures
        document_entries(*final(document)) == match item_value(item) {
            Some(value) => document_entries(*old(document)).insert(key@, value),
            None => document_entries(*old(document)).remove(key@),
        },
        laid_out_alike_but(*final(document), *old(document), key@),
{
    document.as_table_mut().insert(key, item);
}

/// Calls `toml_edit::Table::remove` on the root: the key has no entry any more. The
/// other entries keep their order and their forms.
#[verifier::external_body]
pub(crate) fn document_remove(document: &mut toml_edit::DocumentMut, key: &str)
    ensures
        document_entries(*final(document)) == document_entries(*old(document)).remove(key@),
        laid_out_alike_but(*final(document), *old(document), key@),
{
    document.as_table_mut().remove(key);
}

/// Calls `toml_edit::Item::as_str`: the text of an item that is a string.
#[verifier::external_body]
pub(crate) fn item_str(item: &toml_edit::Item) -> (r: Option<String>)
    ensures
        text::opt_view(r) == match item_value(*item) {
            Some(value) => value.text(),
            None => None,
        },
{
    item.as_str().map(str::to_string)
}

/// Calls `toml_edit::table`: an empty table.
#[verifier::external_body]
pub(crate) fn empty_table() -> (r: toml_edit::Item)
    ensures
        item_value(r) == Some(Toml::Table(Map::empty())),
{
    toml_edit::table()
}

/// Calls `toml_edit::Item::as_table_like` and `get`: the item under a key of a
/// table, inline or not. An empty item counts as none.
#[verifier::external_body]
pub(crate) fn item_get(item: &toml_edit::Item, key: &str) -> (r: Option<toml_edit::Item>)
    ensures
        opt_item_value(r) == match item_value(*item) {
            Some(value) => value.entry(key@),
            None => None,
        },
        r matches Some(found) ==> item_value(found) is Some,
{
    match item.as_table_like().and_then(|table| table.get(key)) {
        None | Some(toml_edit::Item::None) => None,
        Some(found) => Some(found.clone()),
    }
}

/// Calls `insert` on the table under a top-level key, inline or not, and says
/// whether there is such a table. An inline table would panic on an empty item,
/// which the contract leaves out. The other entries, of the document and of the
/// table, keep their order and their forms.
#[verifier::external_body]
pub(crate) fn nested_insert(
    document: &mut toml_edit::DocumentMut,
    table: &str,
    key: &str,
    item: toml_edit::Item,
) -> (r: bool)
    requires
        item_value(item) is Some,
    ensures
        match toml_value::entry_of(document_entries(*old(document)), table@) {
            Some(Toml::Table(entries)) => r && document_entries(*final(document))
                == document_entries(*old(document)).insert(
                table@,
                Toml::Table(entries.insert(key@, item_value(item)->0)),
            ),
            _ => !r && document_entries(*final(document)) == document_entries(*old(document)),
        },
        laid_out_alike_but(*final(document), *old(document), table@),
        forms_without(table_layout(*final(document), table@), set![key@]) == forms_without(
            table_layout(*old(document), table@),
            set![key@],
        ),
{
    match document.get_mut(table).and_then(toml_edit::Item::as_table_like_mut) {
        Some(entries) => {
            entries.insert(key, item);
            true
        },
        None => false,
    }
}

/// Calls `remove` on the table under a top-level key, inline or not, and says
/// whether there is such a table. The other entries, of the document and of the
/// table, keep their order and their forms.
#[verifier::external_body]
pub(crate) fn nested_remove(document: &mut toml_edit::DocumentMut, table: &str, key: &str) -> (r:
    bool)
    ensures
        match toml_value::entry_of(document_entries(*old(document)), table@) {
            Some(Toml::Table(entries)) => r && document_entries(*final(document))
                == document_entries(*old(document)).insert(
                table@,
                Toml::Table(entries.remove(key@)),
            ),
            _ => !r && document_entries(*final(document)) == document_entries(*old(document)),
        },
        laid_out_alike_but(*final(document), *old(document), table@),
        forms_without(table_layout(*final(document), table@), set![key@]) == forms_without(
            table_layout(*old(document), table@),
            set![key@],
        ),
{
    match document.get_mut(table).and_then(toml_edit::Item::as_table_like_mut) {
        Some(entries) => {
            entries.remove(key);
            true
        },
        None => false,
    }
}

/// Calls `is_empty` on the table that an item is, inline or not: whether it has
/// no entry. Any other item is not an empty table.
#[verifier::external_body]
pub(crate) fn is_empty_table(item: &toml_edit::Item) -> (r: bool)
    ensures
        r == (item_value(*item) == Some(Toml::Table(Map::empty()))),
{
    match item.as_table_like() {
        Some(entries) => entries.is_empty(),
        None => false,
    }
}

/// Prints a document with `DocumentMut::to_string`. The contract names the text,
/// as a function of the document with its layout. Whether reading the text gives
/// the entries back is left unsaid: a comment that moves into an inline table
/// with the item it belongs to makes the text unreadable.
#[verifier::external_body]
pub(crate) fn print_document(document: &toml_edit::DocumentMut) -> (r: String)
    ensures
        r@ == document_text(*document),
{
    document.to_string()
}

} // verus!
