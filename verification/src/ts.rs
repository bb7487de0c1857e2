//! Trusted bindings to the tree-sitter syntax-tree library: opaque type
//! declarations and thin wrappers around the calls the extractor makes.
//! Each wrapper's body only makes the named call and converts its result
//! into plain values.
use vstd::prelude::*;
use tree_sitter::StreamingIterator;

verus! {

#[verifier::external_type_specification]
#[verifier::external_body]
pub struct ExParser(tree_sitter::Parser);

#[verifier::external_type_specification]
#[verifier::external_body]
pub struct ExTree(tree_sitter::Tree);

#[verifier::external_type_specification]
#[verifier::external_body]
pub struct ExLanguage(tree_sitter::Language);

#[verifier::external_type_specification]
#[verifier::external_body]
pub struct ExQuery(tree_sitter::Query);

#[verifier::external_type_specification]
#[verifier::external_body]
pub struct ExNode<'a>(tree_sitter::Node<'a>);

/// One capture binding of a query match: the capture's index into the
/// query's capture-name table, and the captured node.
#[derive(Clone, Copy)]
pub struct CaptureBinding<'t> {
    pub capture_index: usize,
    pub node: tree_sitter::Node<'t>,
}

/// One query match: its capture bindings, in the order the engine reports
/// them.
pub struct QueryMatchData<'t> {
    pub captures: Vec<CaptureBinding<'t>>,
}

/// Relies on tree_sitter::Parser::new: makes a fresh parser.
#[verifier::external_body]
pub(crate) fn parser_new() -> tree_sitter::Parser {
    tree_sitter::Parser::new()
}

/// Relies on tree_sitter::Language::new over the Java grammar that
/// tree_sitter_java::LANGUAGE provides.
#[verifier::external_body]
pub(crate) fn java_language() -> tree_sitter::Language {
    tree_sitter::Language::new(tree_sitter_java::LANGUAGE)
}

/// Relies on tree_sitter::Parser::set_language: readies the parser for the
/// given grammar; false when the grammar's version is incompatible.
#[verifier::external_body]
pub(crate) fn parser_set_language(
    parser: &mut tree_sitter::Parser,
    language: &tree_sitter::Language,
) -> bool {
    parser.set_language(language).is_ok()
}

/// Relies on tree_sitter::Parser::parse: turns source text into a syntax
/// tree; `None` when no language was set or parsing was cancelled.
#[verifier::external_body]
pub(crate) fn parser_parse(parser: &mut tree_sitter::Parser, source: &str) -> Option<
    tree_sitter::Tree,
> {
    parser.parse(source, None)
}

/// Relies on tree_sitter::Tree::root_node.
#[verifier::external_body]
pub(crate) fn tree_root_node<'t>(tree: &'t tree_sitter::Tree) -> tree_sitter::Node<'t> {
    tree.root_node()
}

/// Relies on tree_sitter::Query::new: compiles a declarative tree pattern;
/// `None` when the pattern text is not a valid query.
#[verifier::external_body]
pub(crate) fn query_new(language: &tree_sitter::Language, pattern: &str) -> Option<
    tree_sitter::Query,
> {
    tree_sitter::Query::new(language, pattern).ok()
}

/// Relies on tree_sitter::Query::capture_names: the name of each capture,
/// indexed by capture index.
#[verifier::external_body]
pub(crate) fn query_capture_names(query: &tree_sitter::Query) -> Vec<String> {
    query.capture_names().iter().map(|s| s.to_string()).collect()
}

/// Relies on tree_sitter::QueryCursor::matches: runs the query over the
/// node's subtree and hands back every match's capture bindings, in the
/// order the engine yields them.
#[verifier::external_body]
pub(crate) fn query_matches<'t>(
    query: &tree_sitter::Query,
    node: tree_sitter::Node<'t>,
    source: &str,
) -> Vec<QueryMatchData<'t>> {
    let mut cursor = tree_sitter::QueryCursor::new();
    let mut out: Vec<QueryMatchData<'t>> = Vec::new();
    let mut it = cursor.matches(query, node, source.as_bytes());
    while let Some(m) = it.next() {
        let captures = m.captures().iter().map(
            |c| CaptureBinding { capture_index: c.index as usize, node: c.node },
        ).collect();
        out.push(QueryMatchData { captures });
    }
    out
}

/// Relies on tree_sitter::Node::start_byte and end_byte: the node's text,
/// read by its byte range against the original source. Empty when the range
/// does not lie on character boundaries inside the source, as can happen
/// when the source handed in is not the one that was parsed.
#[verifier::external_body]
pub(crate) fn node_text(node: &tree_sitter::Node, source: &str) -> String {
    source
        .as_bytes()
        .get(node.start_byte()..node.end_byte())
        .and_then(|b| core::str::from_utf8(b).ok())
        .unwrap_or("")
        .to_string()
}

/// Relies on tree_sitter::Node::parent: the node's immediate ancestor, or
/// `None` at the root.
#[verifier::external_body]
pub(crate) fn node_parent<'t>(node: &tree_sitter::Node<'t>) -> Option<tree_sitter::Node<'t>> {
    node.parent()
}

/// Relies on tree_sitter::Node::kind: the grammar name of the node.
#[verifier::external_body]
pub(crate) fn node_kind(node: &tree_sitter::Node) -> String {
    node.kind().to_string()
}

/// Relies on tree_sitter::Node::child_by_field_name: the node's child under
/// the given grammar field, when it has one.
#[verifier::external_body]
pub(crate) fn node_child_by_field_name<'t>(
    node: &tree_sitter::Node<'t>,
    field_name: &str,
) -> Option<tree_sitter::Node<'t>> {
    node.child_by_field_name(field_name)
}

} // verus!
