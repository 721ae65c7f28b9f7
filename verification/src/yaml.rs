//! The YAML documents that locations are written in, as values that the
//! loader can take apart.
//!
//! The YAML text is read by `yaml_rust2`. What this module states of that
//! crate is taken on trust; everything that the loader decides is decided on
//! [`Node`] values.

use vstd::prelude::*;
use yaml_rust2::{ScanError, Yaml, YamlLoader};

verus! {

/// A node of a YAML document.
#[derive(Debug, PartialEq, Eq)]
pub enum Node {
    /// A floating-point scalar, as it was written.
    Real(String),
    /// An integer scalar.
    Integer(i64),
    /// A string scalar.
    Text(String),
    /// A boolean scalar.
    Boolean(bool),
    /// A sequence, its items in their order.
    List(Vec<Node>),
    /// A mapping, its pairs of key and value in the order they were written.
    Mapping(Vec<(Node, Node)>),
    /// An alias that was left unresolved.
    Alias(usize),
    /// The null scalar.
    Null,
    /// A value that could not be read as its tag demands, or an empty
    /// document.
    BadValue,
}

/// `yaml_rust2::Yaml`, a node as the YAML reader hands it out.
#[verifier::external_type_specification]
#[verifier::external_body]
pub struct ExYaml(Yaml);

/// `yaml_rust2::ScanError`, the error of the YAML reader.
#[verifier::external_type_specification]
#[verifier::external_body]
pub struct ExScanError(ScanError);

/// The node that a `Yaml` value holds: the same variant with the same
/// scalars, items and pairs.
pub uninterp spec fn yaml_node(yaml: Yaml) -> Node;

/// The documents that the YAML reader finds in `source`, or `None` where it
/// refuses `source`.
pub uninterp spec fn yaml_documents(source: Seq<char>) -> Option<Seq<Node>>;

/// Calls `YamlLoader::load_from_str`. The contract claims that the outcome is
/// a function of the text alone: the reader either refuses the text or hands
/// out its documents, and [`yaml_documents`] is the name of that outcome. The
/// call is taken to return for every text; the reader follows nested
/// collections by recursion, so it needs a stack as deep as the text is
/// nested.
#[verifier::external_body]
fn load_yaml(source: &str) -> (result: Result<Vec<Yaml>, ScanError>)
    ensures
        match result {
            Ok(documents) => yaml_documents(source@) == Some(
                documents@.map_values(|yaml: Yaml| yaml_node(yaml)),
            ),
            Err(_) => yaml_documents(source@) is None,
        },
{
    YamlLoader::load_from_str(source)
}

/// Copies a `Yaml` value into a [`Node`], variant by variant; the pairs of a
/// `Yaml::Hash` come in the order of its iterator, which is the order in which
/// they were inserted. The contract claims only that the copy is the value
/// that [`yaml_node`] names.
#[verifier::external_body]
fn node_of(yaml: &Yaml) -> (node: Node)
    ensures
        node == yaml_node(*yaml),
{
    match yaml {
        Yaml::Real(text) => Node::Real(text.clone()),
        Yaml::Integer(value) => Node::Integer(*value),
        Yaml::String(text) => Node::Text(text.clone()),
        Yaml::Boolean(value) => Node::Boolean(*value),
        Yaml::Array(items) => Node::List(items.iter().map(node_of).collect()),
        Yaml::Hash(pairs) => Node::Mapping(
            pairs.iter().map(|(key, value)| (node_of(key), node_of(value))).collect(),
        ),
        Yaml::Alias(id) => Node::Alias(*id),
        Yaml::Null => Node::Null,
        Yaml::BadValue => Node::BadValue,
    }
}

/// Reads `source` as YAML and hands out its documents, or `None` where
/// `source` is no YAML.
pub fn load_documents(source: &str) -> (result: Option<Vec<Node>>)
    ensures
        match result {
            Some(documents) => yaml_documents(source@) == Some(documents@),
            None => yaml_documents(source@) is None,
        },
{
    match load_yaml(source) {
        Ok(found) => {
            let ghost nodes = found@.map_values(|yaml: Yaml| yaml_node(yaml));
            let mut documents: Vec<Node> = Vec::new();
            let mut i: usize = 0;
            while i < found.len()
                invariant
                    i <= found.len(),
                    nodes == found@.map_values(|yaml: Yaml| yaml_node(yaml)),
                    documents@ == nodes.take(i as int),
                decreases found.len() - i,
            {
                let node = node_of(&found[i]);
                proof {
                    assert(nodes.take(i + 1) == nodes.take(i as int).push(nodes[i as int]));
                }
                documents.push(node);
                i += 1;
            }
            proof {
                assert(nodes.take(i as int) == nodes);
            }
            Some(documents)
        },
        Err(_) => None,
    }
}

} // verus!
