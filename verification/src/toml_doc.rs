//! The editable TOML document that a configuration file is changed through.
use crate::text::opt_text;
use vstd::prelude::*;

verus! {

/// `toml_edit::DocumentMut`: a parsed document with its comments and layout.
#[verifier::external_type_specification]
#[verifier::external_body]
pub struct ExDocumentMut(toml_edit::DocumentMut);

/// `toml_edit::TomlError`: why a text is not a TOML document.
#[verifier::external_type_specification]
#[verifier::external_body]
pub struct ExTomlError(toml_edit::TomlError);

/// The arrays of tables of a document: for each root key that holds one, its
/// tables in order, each as its string values by key.
pub uninterp spec fn document_tables(doc: toml_edit::DocumentMut) -> Map<
    Seq<char>,
    Seq<Map<Seq<char>, Seq<char>>>,
>;

/// For each root key that holds an array of tables, what the document holds
/// besides it: the document's text when all tables of that array are taken out.
pub uninterp spec fn document_rest(doc: toml_edit::DocumentMut) -> Map<Seq<char>, Seq<char>>;

/// For each root key that holds an array of tables, the text of each of its
/// tables, comments and layout included: what the document would be written out
/// as if that table were all that it holds.
pub uninterp spec fn document_table_texts(doc: toml_edit::DocumentMut) -> Map<
    Seq<char>,
    Seq<Seq<char>>,
>;

/// The text that a document is written out as.
pub uninterp spec fn document_text(doc: toml_edit::DocumentMut) -> Seq<char>;

/// What the document that a text parses to holds: its arrays of tables, what it
/// holds besides each, and the texts of their tables. Nothing if the text is not
/// TOML.
pub uninterp spec fn toml_parse(text: Seq<char>) -> Option<
    (
        Map<Seq<char>, Seq<Map<Seq<char>, Seq<char>>>>,
        Map<Seq<char>, Seq<char>>,
        Map<Seq<char>, Seq<Seq<char>>>,
    ),
>;

/// `<DocumentMut as FromStr>::from_str` of toml_edit. Whether the text parses,
/// and what the document then holds, is a function of the text.
#[verifier::external_body]
pub(crate) fn parse_document(text: &str) -> (r: Result<
    toml_edit::DocumentMut,
    toml_edit::TomlError,
>)
    ensures
        match r {
            Ok(doc) => toml_parse(text@) == Some(
                (document_tables(doc), document_rest(doc), document_table_texts(doc)),
            ),
            Err(_) => toml_parse(text@) is None,
        },
{
    text.parse::<toml_edit::DocumentMut>()
}

/// `ArrayOfTables::len` of toml_edit on the item under `key`, if that item is
/// an array of tables: the number of its tables.
#[verifier::external_body]
pub(crate) fn table_count(doc: &toml_edit::DocumentMut, key: &str) -> (r: Option<usize>)
    ensures
        match r {
            Some(n) => {
                &&& document_tables(*doc).contains_key(key@)
                &&& n == document_tables(*doc)[key@].len()
                &&& n == document_table_texts(*doc)[key@].len()
            },
            None => !document_tables(*doc).contains_key(key@),
        },
{
    doc.get(key).and_then(|i| i.as_array_of_tables()).map(|a| a.len())
}

/// `ArrayOfTables::get` of toml_edit on the item under `key`, and `Table::get`
/// with `Item::as_str` on the table: the value under `field`, if it is there
/// and is a string.
#[verifier::external_body]
pub(crate) fn table_text(
    doc: &toml_edit::DocumentMut,
    key: &str,
    index: usize,
    field: &str,
) -> (r: Option<String>)
    requires
        document_tables(*doc).contains_key(key@),
        index < document_tables(*doc)[key@].len(),
    ensures
        opt_text(r) == document_tables(*doc)[key@][index as int].get(field@),
{
    let tables = doc.get(key).and_then(|i| i.as_array_of_tables());
    let table = tables.and_then(|a| a.get(index));
    table.and_then(|t| t.get(field)).and_then(|v| v.as_str()).map(str::to_string)
}

/// `ArrayOfTables::remove` of toml_edit on the item under `key`: the table at
/// `index` goes, the other tables keep their order, their values and their texts,
/// and nothing else of the document changes. How the pieces of the document are
/// put together in its text is not stated.
#[verifier::external_body]
pub(crate) fn remove_table(doc: &mut toml_edit::DocumentMut, key: &str, index: usize)
    requires
        document_tables(*old(doc)).contains_key(key@),
        index < document_tables(*old(doc))[key@].len(),
    ensures
        document_tables(*final(doc)) == document_tables(*old(doc)).insert(
            key@,
            document_tables(*old(doc))[key@].remove(index as int),
        ),
        document_table_texts(*final(doc))[key@] == document_table_texts(*old(doc))[key@].remove(
            index as int,
        ),
        document_rest(*final(doc))[key@] == document_rest(*old(doc))[key@],
{
    let tables = doc.get_mut(key).and_then(|i| i.as_array_of_tables_mut());
    tables.unwrap().remove(index);
}

/// `<DocumentMut as Display>::to_string` of toml_edit. The text is a function
/// of the document; what it parses to again is not stated.
#[verifier::external_body]
pub(crate) fn render(doc: &toml_edit::DocumentMut) -> (s: String)
    ensures
        s@ == document_text(*doc),
{
    doc.to_string()
}

} // verus!
