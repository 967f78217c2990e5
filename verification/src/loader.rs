//! The document loader: raw text to a list of document trees, or a syntax
//! failure with the scanner's best-effort marker.
//!
//! The scanning itself is done by an outside library; the library's contracts
//! speak of it through [`yaml_documents`].

use vstd::prelude::*;

use crate::node::{seq_views, Node, NodeView};

verus! {

/// A failure to scan the document text.
pub struct SyntaxIssue {
    /// 1-based line of the scanner's marker.
    pub line: usize,
    /// 0-based column of the scanner's marker.
    pub col: usize,
    /// The scanner's description of the failure.
    pub message: String,
}

/// The ghost mirror of [`SyntaxIssue`].
pub struct SyntaxIssueView {
    pub line: int,
    pub col: int,
    pub message: Seq<char>,
}

impl View for SyntaxIssue {
    type V = SyntaxIssueView;

    open spec fn view(&self) -> SyntaxIssueView {
        SyntaxIssueView {
            line: self.line as int,
            col: self.col as int,
            message: self.message@,
        }
    }
}

/// The document trees scanned from a text, or the scan failure; a function of
/// the text alone.
pub uninterp spec fn yaml_documents(text: Seq<char>) -> Result<Seq<NodeView>, SyntaxIssueView>;

/// Declares `yaml_rust`'s node type so that the conversion below may take it;
/// the library holds no value of it.
#[verifier::external_type_specification]
#[verifier::external_body]
pub struct ExYaml(yaml_rust::Yaml);

/// Converts a `yaml_rust` value into the library's document tree, variant for
/// variant; relies on `linked_hash_map`'s iteration order being the insertion
/// order, so a mapping's pairs keep their source order.
#[verifier::external_body]
fn node_from_yaml(y: yaml_rust::Yaml) -> Node {
    match y {
        yaml_rust::Yaml::Real(s) => Node::Real(s),
        yaml_rust::Yaml::Integer(i) => Node::Int(i),
        yaml_rust::Yaml::String(s) => Node::Str(s),
        yaml_rust::Yaml::Boolean(b) => Node::Bool(b),
        yaml_rust::Yaml::Array(v) => Node::Sequence(v.into_iter().map(node_from_yaml).collect()),
        yaml_rust::Yaml::Hash(h) => Node::Mapping(
            h.into_iter().map(|(k, v)| (node_from_yaml(k), node_from_yaml(v))).collect(),
        ),
        yaml_rust::Yaml::Alias(a) => Node::Alias(a),
        yaml_rust::Yaml::Null => Node::Null,
        yaml_rust::Yaml::BadValue => Node::Bad,
    }
}

/// Relies on `yaml_rust::YamlLoader::load_from_str`: the documents scanned
/// from a text — or the scan error, with its marker's 1-based line, 0-based
/// column, and its display text — depend on the text alone.
#[verifier::external_body]
pub(crate) fn load_documents(text: &str) -> (r: Result<Vec<Node>, SyntaxIssue>)
    ensures
        match r {
            Ok(docs) => yaml_documents(text@) == Ok::<Seq<NodeView>, SyntaxIssueView>(
                seq_views(docs@),
            ),
            Err(issue) => yaml_documents(text@) == Err::<Seq<NodeView>, SyntaxIssueView>(issue@),
        },
{
    match yaml_rust::YamlLoader::load_from_str(text) {
        Ok(docs) => Ok(docs.into_iter().map(node_from_yaml).collect()),
        Err(e) => Err(SyntaxIssue {
            line: e.marker().line(),
            col: e.marker().col(),
            message: format!("{}", e),
        }),
    }
}

} // verus!
