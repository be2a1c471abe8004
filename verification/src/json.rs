//! JSON documents as text, taken apart one level at a time.

use vstd::prelude::*;

use crate::text::{same, texts};

verus! {

/// The text that `serde_json::from_str` reads from a document that is a string.
pub uninterp spec fn json_text(document: Seq<char>) -> Option<Seq<char>>;

/// The documents of the items that `serde_json::from_str` reads from a document that is an
/// array.
pub uninterp spec fn json_items(document: Seq<char>) -> Option<Seq<Seq<char>>>;

/// The names and the documents of the fields that `serde_json::from_str` reads from a
/// document that is an object.
pub uninterp spec fn json_fields(document: Seq<char>) -> Option<Seq<(Seq<char>, Seq<char>)>>;

/// `serde_json::from_str` as a `String` succeeds on a document that is a string and gives its
/// text; which documents these are and what they hold is named by `json_text`.
#[verifier::external_body]
fn read_string(document: &str) -> (r: Option<String>)
    ensures
        r is Some <==> json_text(document@) is Some,
        r matches Some(text) ==> json_text(document@) == Some(text@),
{
    serde_json::from_str::<String>(document).ok()
}

/// `serde_json::from_str` as a `Vec<Value>` succeeds on a document that is an array; each
/// item is written as a document again. Both are named by `json_items`.
#[verifier::external_body]
fn read_array(document: &str) -> (r: Option<Vec<String>>)
    ensures
        r is Some <==> json_items(document@) is Some,
        r matches Some(items) ==> json_items(document@) == Some(texts(items@)),
{
    let items = serde_json::from_str::<Vec<serde_json::Value>>(document).ok()?;
    Some(items.iter().map(serde_json::Value::to_string).collect())
}

/// `serde_json::from_str` as a `Map` succeeds on a document that is an object; the value of
/// each field is written as a document again. Both are named by `json_fields`.
#[verifier::external_body]
fn read_object(document: &str) -> (r: Option<Vec<(String, String)>>)
    ensures
        r is Some <==> json_fields(document@) is Some,
        r matches Some(fields) ==> json_fields(document@) == Some(field_views(fields@)),
{
    let fields: serde_json::Map<String, serde_json::Value> =
        serde_json::from_str(document).ok()?;
    Some(fields.into_iter().map(|field| (field.0, field.1.to_string())).collect())
}

/// The document that `serde_json::to_string` writes of a text.
pub uninterp spec fn json_quoted(text: Seq<char>) -> Seq<char>;

/// `serde_json::to_string` of a text never fails, and gives the document that is named by
/// `json_quoted`. It starts with a quotation mark, and `serde_json::from_str` reads the text
/// back from it.
#[verifier::external_body]
fn write_string(text: &str) -> (r: Option<String>)
    ensures
        r is Some,
        r->0@ == json_quoted(text@),
        r->0@.len() > 0 && r->0@[0] == '\u{22}',
        json_text(r->0@) == Some(text@),
{
    serde_json::to_string(text).ok()
}

/// The document of a text.
pub fn quoted(text: &str) -> (r: String)
    ensures
        r@ == json_quoted(text@),
        r@.len() > 0 && r@[0] == '\u{22}',
        json_text(r@) == Some(text@),
{
    match write_string(text) {
        Some(document) => document,
        None => String::new(),
    }
}

/// The fields as text.
pub open spec fn field_views(fields: Seq<(String, String)>) -> Seq<(Seq<char>, Seq<char>)> {
    fields.map_values(|field: (String, String)| (field.0@, field.1@))
}

/// The document of the first field of a name.
pub open spec fn field_of(fields: Seq<(Seq<char>, Seq<char>)>, name: Seq<char>) -> Option<Seq<char>>
    decreases fields.len(),
{
    if fields.len() == 0 {
        None
    } else if fields[0].0 == name {
        Some(fields[0].1)
    } else {
        field_of(fields.drop_first(), name)
    }
}

/// The document of a field.
pub fn find_field(fields: &Vec<(String, String)>, name: &str) -> (r: Option<String>)
    ensures
        r is Some <==> field_of(field_views(fields@), name@) is Some,
        r matches Some(document) ==> field_of(field_views(fields@), name@) == Some(document@),
{
    let ghost views = field_views(fields@);
    let mut i: usize = 0;
    assert(views.skip(0) =~= views);
    while i < fields.len()
        invariant
            i <= fields@.len(),
            views == field_views(fields@),
            field_of(views.skip(i as int), name@) == field_of(views, name@),
        decreases fields@.len() - i,
    {
        proof {
            assert(views.skip(i as int)[0] == views[i as int]);
            assert(views.skip(i as int).drop_first() =~= views.skip(i + 1));
        }
        if same(fields[i].0.as_str(), name) {
            return Some(fields[i].1.clone());
        }
        i += 1;
    }
    assert(views.skip(i as int).len() == 0);
    None
}

/// The text of a document that is a string.
pub fn text_of(document: &str) -> (r: Option<String>)
    ensures
        r is Some <==> json_text(document@) is Some,
        r matches Some(text) ==> json_text(document@) == Some(text@),
{
    read_string(document)
}

/// The items of a document that is an array.
pub fn items_of(document: &str) -> (r: Option<Vec<String>>)
    ensures
        r is Some <==> json_items(document@) is Some,
        r matches Some(items) ==> json_items(document@) == Some(texts(items@)),
{
    read_array(document)
}

/// The fields of a document that is an object.
pub fn fields_of(document: &str) -> (r: Option<Vec<(String, String)>>)
    ensures
        r is Some <==> json_fields(document@) is Some,
        r matches Some(fields) ==> json_fields(document@) == Some(field_views(fields@)),
{
    read_object(document)
}

/// The text of a field that is a string.
pub open spec fn field_text(fields: Seq<(Seq<char>, Seq<char>)>, name: Seq<char>) -> Option<
    Seq<char>,
> {
    match field_of(fields, name) {
        Some(document) => json_text(document),
        None => None,
    }
}

/// The text of a field that is a string.
pub fn text_field(fields: &Vec<(String, String)>, name: &str) -> (r: Option<String>)
    ensures
        r is Some <==> field_text(field_views(fields@), name@) is Some,
        r matches Some(text) ==> field_text(field_views(fields@), name@) == Some(text@),
{
    match find_field(fields, name) {
        Some(document) => text_of(document.as_str()),
        None => None,
    }
}

/// The text of a field of a document that is an object with such a field.
pub open spec fn document_text(document: Seq<char>, name: Seq<char>) -> Option<Seq<char>> {
    match json_fields(document) {
        Some(fields) => field_text(fields, name),
        None => None,
    }
}

/// The text of a field of a document.
pub fn text_in(document: &str, name: &str) -> (r: Option<String>)
    ensures
        r is Some <==> document_text(document@, name@) is Some,
        r matches Some(text) ==> document_text(document@, name@) == Some(text@),
{
    match fields_of(document) {
        Some(fields) => text_field(&fields, name),
        None => None,
    }
}

} // verus!
