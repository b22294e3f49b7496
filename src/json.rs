use vstd::prelude::*;

use crate::etl::ETLPipelineError;

verus! {

/// `serde_json::Value`, which `node_from_value` turns into a tree.
#[verifier::external_type_specification]
#[verifier::external_body]
pub struct ExValue(serde_json::Value);

/// An untyped JSON tree.
///
/// Numbers keep the text that serde_json prints for them, so that no
/// floating-point value is held here. An object is its members in order;
/// the objects of a parsed document list their members in the order of
/// serde_json's map, which is sorted by key.
#[derive(Debug, PartialEq)]
pub enum JsonNode {
    Null,
    Bool(bool),
    Number(String),
    Str(String),
    Array(Vec<JsonNode>),
    Object(Vec<(String, JsonNode)>),
}

/// The number of direct children of a node.
pub open spec fn width(n: JsonNode) -> nat {
    match n {
        JsonNode::Array(items) => items@.len(),
        JsonNode::Object(members) => members@.len(),
        _ => 0,
    }
}

/// The tree that serde_json reads from `text`, or `None` where the text is
/// not one JSON document.
pub uninterp spec fn document_of(text: Seq<char>) -> Option<JsonNode>;

/// Does serde_json read `text` as one JSON document?
pub open spec fn json_accepts(text: Seq<char>) -> bool {
    document_of(text) is Some
}

/// Relies on `serde_json::from_str::<serde_json::Value>`: what it reads
/// depends on the text alone, and it fails exactly on the texts that are not
/// one JSON document. The error is kept as its message; the value is turned
/// into a tree by `node_from_value`.
#[verifier::external_body]
fn parse_json(text: &str) -> (r: Result<JsonNode, String>)
    ensures
        r is Ok <==> document_of(text@) is Some,
        r matches Ok(n) ==> document_of(text@) == Some(n),
{
    serde_json::from_str::<serde_json::Value>(text).map(node_from_value).map_err(|e| e.to_string())
}

/// Turns a `serde_json::Value` into a tree, variant by variant: the text that
/// `serde_json::Number`'s `Display` gives for a number, and the members of a
/// `serde_json::Map` in its order (sorted by key). serde_json refuses text
/// nested more than 127 levels deep, which bounds the recursion.
#[verifier::external_body]
fn node_from_value(v: serde_json::Value) -> JsonNode {
    match v {
        serde_json::Value::Null => JsonNode::Null,
        serde_json::Value::Bool(b) => JsonNode::Bool(b),
        serde_json::Value::Number(n) => JsonNode::Number(n.to_string()),
        serde_json::Value::String(s) => JsonNode::Str(s),
        serde_json::Value::Array(items) => JsonNode::Array(items.into_iter().map(node_from_value).collect()),
        serde_json::Value::Object(members) => JsonNode::Object(
            members.into_iter().map(|(k, c)| (k, node_from_value(c))).collect(),
        ),
    }
}

/// Parses `text` as one JSON document: the tree that serde_json reads, or
/// `JsonParseError` where the text is not JSON.
pub fn parse_document(text: &str) -> (r: Result<JsonNode, ETLPipelineError>)
    ensures
        r is Ok <==> json_accepts(text@),
        r matches Ok(n) ==> document_of(text@) == Some(n),
        r matches Err(e) ==> e is JsonParseError,
{
    match parse_json(text) {
        Ok(n) => Ok(n),
        Err(message) => Err(ETLPipelineError::JsonParseError(message)),
    }
}

} // verus!
