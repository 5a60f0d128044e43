//! JSON bodies: recognising one and laying it out again, both done by
//! `serde_json`.

use vstd::prelude::*;

verus! {

/// `serde_json::Value`, a parsed JSON document. Nothing inside it is read
/// here: a document is only handed from the parser to the printer.
#[verifier::external_type_specification]
#[verifier::external_body]
pub struct ExJsonValue(serde_json::Value);

/// `serde_json::Error`, why a text is no JSON or a document could not be
/// written. It is only told apart from success.
#[verifier::external_type_specification]
#[verifier::external_body]
pub struct ExJsonError(serde_json::Error);

/// The JSON document that `text` denotes, or `None` where `text` is not
/// exactly one JSON document.
pub uninterp spec fn json_document(text: Seq<char>) -> Option<serde_json::Value>;

/// The indented layout of a JSON document, or `None` where the document
/// cannot be written out.
pub uninterp spec fn json_layout(doc: serde_json::Value) -> Option<Seq<char>>;

/// Calls `serde_json::from_str` for a `serde_json::Value`. The contract
/// claims only that the outcome is a function of the text: the same text
/// gives the same document, or fails, every time. It says nothing of which
/// texts are JSON.
#[verifier::external_body]
fn parse_document(text: &str) -> (r: Result<serde_json::Value, serde_json::Error>)
    ensures
        match r {
            Ok(doc) => json_document(text@) == Some(doc),
            Err(_) => json_document(text@) is None,
        },
{
    serde_json::from_str::<serde_json::Value>(text)
}

/// Calls `serde_json::to_string_pretty`. The contract claims only that the
/// outcome is a function of the document: the same document gives the same
/// text, or fails, every time. It says nothing of what the layout looks like.
#[verifier::external_body]
fn layout_document(doc: &serde_json::Value) -> (r: Result<String, serde_json::Error>)
    ensures
        match r {
            Ok(text) => json_layout(*doc) == Some(text@),
            Err(_) => json_layout(*doc) is None,
        },
{
    serde_json::to_string_pretty(doc)
}

/// The indented layout of `body` where `body` is a JSON document that can be
/// written out again, `None` where it is not.
pub open spec fn reindented(body: Seq<char>) -> Option<Seq<char>> {
    match json_document(body) {
        Some(doc) => json_layout(doc),
        None => None,
    }
}

/// The body laid out again with indentation, where it is a JSON document.
pub fn reindent(body: &str) -> (r: Option<String>)
    ensures
        match r {
            Some(text) => reindented(body@) == Some(text@),
            None => reindented(body@) is None,
        },
{
    match parse_document(body) {
        Ok(doc) => match layout_document(&doc) {
            Ok(text) => Some(text),
            Err(_) => None,
        },
        Err(_) => None,
    }
}

} // verus!
