//! Conversions between the document's own value tree and the JSON value
//! type of the serde_json crate, which the schema and wire-format crates
//! speak.  Both directions are plain structural conversions; nothing is
//! promised of them here — every contract about outside calls is stated on
//! the wrappers that use them, as functions of the tree handed in.

use crate::tree::Node;
use core::str::FromStr;
use vstd::prelude::*;

verus! {

#[verifier::external_type_specification]
#[verifier::external_body]
pub struct ExJsonValue(serde_json::Value);

/// Relies on serde_json::Value's constructors: rebuilds the same tree, one
/// node for one node.  A number text that is no JSON number becomes null.
#[verifier::external_body]
pub(crate) fn node_to_json(n: &Node) -> serde_json::Value {
    match n {
        Node::Null => serde_json::Value::Null,
        Node::Bool(b) => serde_json::Value::Bool(*b),
        Node::Num(s) => match serde_json::Number::from_str(s) {
            Ok(num) => serde_json::Value::Number(num),
            Err(_) => serde_json::Value::Null,
        },
        Node::Text(s) => serde_json::Value::String(s.clone()),
        Node::List(xs) => serde_json::Value::Array(xs.iter().map(node_to_json).collect()),
        Node::Obj(es) => serde_json::Value::Object(
            es.iter().map(|e| (e.0.clone(), node_to_json(&e.1))).collect(),
        ),
    }
}

/// Relies on serde_json::Value's accessors: reads the same tree back, one
/// node for one node, a number as its decimal text.
#[verifier::external_body]
pub(crate) fn json_to_node(v: &serde_json::Value) -> Node {
    match v {
        serde_json::Value::Null => Node::Null,
        serde_json::Value::Bool(b) => Node::Bool(*b),
        serde_json::Value::Number(num) => Node::Num(num.to_string()),
        serde_json::Value::String(s) => Node::Text(s.clone()),
        serde_json::Value::Array(xs) => Node::List(xs.iter().map(json_to_node).collect()),
        serde_json::Value::Object(es) => Node::Obj(
            es.iter().map(|(k, v)| (k.clone(), json_to_node(v))).collect(),
        ),
    }
}

} // verus!
