use crate::node::{Node, YamlV};
use vstd::prelude::*;

verus! {

/// serde_yaml's generic value tree, opaque here: it is only carried into a
/// `Node`.
#[verifier::external_type_specification]
#[verifier::external_body]
pub struct ExYamlValue(serde_yaml::Value);

/// serde_yaml's error for text that is not YAML, carried to the caller.
#[verifier::external_type_specification]
#[verifier::external_body]
pub struct ExYamlError(serde_yaml::Error);

/// std's I/O error, carried to the caller when a file cannot be read.
#[verifier::external_type_specification]
#[verifier::external_body]
pub struct ExIoError(std::io::Error);

/// The node tree that serde_yaml reads from a text; `None` where the text
/// is not a YAML document.
pub uninterp spec fn yaml_of(text: Seq<char>) -> Option<YamlV>;

/// Relies on serde_yaml::from_str into a serde_yaml::Value: the generic
/// value tree of the text, which depends on the text alone (mappings keep
/// their document order), or the error that says why it is not YAML.
#[verifier::external_body]
pub(crate) fn load_yaml(text: &str) -> (r: Result<Node, serde_yaml::Error>)
    ensures
        match r {
            Ok(n) => yaml_of(text@) == Some(n@),
            Err(_) => yaml_of(text@) is None,
        },
{
    serde_yaml::from_str::<serde_yaml::Value>(text).map(node_from_value)
}

/// Carries a serde_yaml::Value over into a `Node`, variant for variant; a
/// number keeps the text that its `Display` gives.
#[verifier::external_body]
fn node_from_value(v: serde_yaml::Value) -> Node {
    match v {
        serde_yaml::Value::Null => Node::Null,
        serde_yaml::Value::Bool(b) => Node::Bool(b),
        serde_yaml::Value::Number(x) => Node::Number(x.to_string()),
        serde_yaml::Value::String(s) => Node::Str(s),
        serde_yaml::Value::Sequence(s) => Node::List(s.into_iter().map(node_from_value).collect()),
        serde_yaml::Value::Mapping(m) => Node::Mapping(
            m.into_iter().map(|(k, x)| (node_from_value(k), node_from_value(x))).collect(),
        ),
    }
}

} // verus!
