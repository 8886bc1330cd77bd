//! Stored events and the extraction of their tag lists.
//!
//! An event's `content` holds a structured document with a `tags` field: an
//! ordered sequence of ordered sequences of strings. Parsing is delegated to
//! `serde_json`; everything downstream of the parsed rows is verified.

use vstd::prelude::*;

verus! {

/// One row of the event table: the content hash and the stored document.
#[derive(Debug, Clone, PartialEq, Eq)]
pub struct EventRow {
    pub id: Vec<u8>,
    pub content: Vec<u8>,
}

/// The mathematical shape of an event row.
#[verifier::ext_equal]
pub struct EventModel {
    pub id: Seq<u8>,
    pub content: Seq<u8>,
}

impl View for EventRow {
    type V = EventModel;

    open spec fn view(&self) -> EventModel {
        EventModel { id: self.id@, content: self.content@ }
    }
}

/// The rows of strings stored under `key` in the JSON document `content`
/// encodes, or `None` when the bytes are not a JSON object carrying such a
/// field. The result is a function of the bytes and the key alone.
pub uninterp spec fn string_rows_at(content: Seq<u8>, key: Seq<char>) -> Option<Seq<Seq<Seq<char>>>>;

/// The tag list of an event document: the string rows under its `tags` field.
pub open spec fn tags_of(content: Seq<u8>) -> Option<Seq<Seq<Seq<char>>>> {
    string_rows_at(content, "tags"@)
}

/// Relies on `serde_json` (`from_slice`, `Value::get`, `from_value`): parses
/// the bytes as a JSON document and hands back the rows of strings stored
/// under `key`, or `None` when the document does not parse or does not carry
/// such a field. The outcome depends on the bytes and the key alone.
#[verifier::external_body]
pub(crate) fn json_string_rows(content: &[u8], key: &str) -> (r: Option<Vec<Vec<String>>>)
    ensures
        r is Some <==> string_rows_at(content@, key@) is Some,
        r is Some ==> r->Some_0.deep_view() == string_rows_at(content@, key@)->Some_0,
{
    let doc: serde_json::Value = match serde_json::from_slice(content) {
        Ok(v) => v,
        Err(_) => return None,
    };
    let field = match doc.get(key) {
        Some(f) => f,
        None => return None,
    };
    serde_json::from_value::<Vec<Vec<String>>>(field.clone()).ok()
}

/// The tag list of an event document, as plain values.
pub fn extract_tags(content: &Vec<u8>) -> (r: Option<Vec<Vec<String>>>)
    ensures
        r is Some <==> tags_of(content@) is Some,
        r is Some ==> r->Some_0.deep_view() == tags_of(content@)->Some_0,
{
    json_string_rows(content.as_slice(), "tags")
}

/// The single-character tag-name grammar: a name is indexable exactly when it
/// consists of one character, and that character classifies the tag.
pub fn single_char_tagname(tagname: &str) -> (r: Option<char>)
    ensures
        r is Some <==> tagname@.len() == 1,
        r is Some ==> r->Some_0 == tagname@[0],
{
    if tagname.unicode_len() == 1 {
        Some(tagname.get_char(0))
    } else {
        None
    }
}

} // verus!
