//! The parser behind the formatter: source text is parsed by the
//! `jsonc_parser` crate, and its concrete syntax tree is copied node by
//! node into a [`SyntaxNode`] tree of plain data.

use crate::syntax::{
    in_assembled_form, lemma_assembled_shape, lemma_child_depth, optional_text, resolved_kind,
    syntax_depth, syntax_models, well_shaped, Syntax, SyntaxKind, SyntaxNode,
};
use jsonc_parser::cst::{CstContainerNode, CstLeafNode, CstNode, CstRootNode};
use jsonc_parser::errors::ParseError;
use jsonc_parser::ParseOptions;
use vstd::prelude::*;

verus! {

/// A node of the parser's concrete syntax tree; nothing inside it is read
/// but through the functions below.
#[verifier::external_type_specification]
#[verifier::external_body]
pub struct ExCstNode(CstNode);

/// How deep a syntax tree may be for it to be copied. The parser itself
/// refuses documents nested more than a few hundred levels deep, which is
/// far below this.
pub const MAX_SYNTAX_DEPTH: usize = 4096;

/// The syntax tree that the parser gives for a text, as plain data;
/// nothing for a text that it refuses. The parser is a function of the
/// text alone.
pub uninterp spec fn parsed_syntax(text: Seq<char>) -> Option<Syntax>;

/// What a node of the parser's tree holds, as plain data in assembled
/// form: its variant as the kind; for a leaf its source text, for a string
/// literal also its decoded value, for a boolean literal its value; for a
/// container its children in source order, for a property also its decoded
/// name and the position of its value.
pub uninterp spec fn cst_syntax(node: CstNode) -> Syntax;

/// The model of an optional position.
pub open spec fn optional_index(at: Option<usize>) -> Option<int> {
    match at {
        Some(i) => Some(i as int),
        None => None,
    }
}

/// Calls `CstRootNode::parse` with the default parse options and hands the
/// root back as a node. It succeeds exactly on the texts for which
/// `parsed_syntax` names a tree, and the root then holds that tree.
#[verifier::external_body]
fn cst_parse(text: &str) -> (r: Result<CstNode, ParseError>)
    ensures
        r is Ok <==> parsed_syntax(text@) is Some,
        r matches Ok(root) ==> parsed_syntax(text@) == Some(cst_syntax(root)),
{
    match CstRootNode::parse(text, &ParseOptions::default()) {
        Ok(root) => Ok(CstNode::from(root)),
        Err(error) => Err(error),
    }
}

/// Tells the container variants of `CstNode` apart; nothing for a leaf.
/// The variant is the kind that `cst_syntax` names for the node, and what
/// it names is in assembled form.
#[verifier::external_body]
fn cst_container_kind(node: &CstNode) -> (r: Option<SyntaxKind>)
    ensures
        r == (if cst_syntax(*node).kind.spec_is_container() {
            Some(cst_syntax(*node).kind)
        } else {
            None
        }),
        r is Some ==> in_assembled_form(cst_syntax(*node)),
{
    match node {
        CstNode::Container(CstContainerNode::Root(_)) => Some(SyntaxKind::Root),
        CstNode::Container(CstContainerNode::Array(_)) => Some(SyntaxKind::Array),
        CstNode::Container(CstContainerNode::Object(_)) => Some(SyntaxKind::Object),
        CstNode::Container(CstContainerNode::ObjectProp(_)) => Some(SyntaxKind::ObjectProp),
        CstNode::Leaf(_) => None,
    }
}

/// Tells the leaf variants of `CstNode` apart; nothing for a container.
/// The variant is the kind that `cst_syntax` names for the node, and what
/// it names is in assembled form.
#[verifier::external_body]
fn cst_leaf_kind(node: &CstNode) -> (r: Option<SyntaxKind>)
    ensures
        r == (if cst_syntax(*node).kind.spec_is_container() {
            None
        } else {
            Some(cst_syntax(*node).kind)
        }),
        r is Some ==> in_assembled_form(cst_syntax(*node)),
{
    match node {
        CstNode::Leaf(CstLeafNode::BooleanLit(_)) => Some(SyntaxKind::BooleanLit),
        CstNode::Leaf(CstLeafNode::NullKeyword(_)) => Some(SyntaxKind::NullKeyword),
        CstNode::Leaf(CstLeafNode::NumberLit(_)) => Some(SyntaxKind::NumberLit),
        CstNode::Leaf(CstLeafNode::StringLit(_)) => Some(SyntaxKind::StringLit),
        CstNode::Leaf(CstLeafNode::WordLit(_)) => Some(SyntaxKind::WordLit),
        CstNode::Leaf(CstLeafNode::Token(_)) => Some(SyntaxKind::Token),
        CstNode::Leaf(CstLeafNode::Whitespace(_)) => Some(SyntaxKind::Whitespace),
        CstNode::Leaf(CstLeafNode::Newline(_)) => Some(SyntaxKind::Newline),
        CstNode::Leaf(CstLeafNode::Comment(_)) => Some(SyntaxKind::Comment),
        CstNode::Container(_) => None,
    }
}

/// Calls `CstNode::children`: the nodes directly below a node, in source
/// order; none for a leaf. They hold what `cst_syntax` names as the
/// children of the node.
#[verifier::external_body]
fn cst_children(node: &CstNode) -> (r: Vec<CstNode>)
    ensures
        r@.len() == cst_syntax(*node).children.len(),
        forall|i: int|
            0 <= i < r@.len() ==> cst_syntax(#[trigger] r@[i]) == cst_syntax(*node).children[i],
{
    node.children()
}

/// Calls the `Display` implementation of `CstNode`, which writes the source
/// text of the node. For a leaf that is the text `cst_syntax` names.
#[verifier::external_body]
fn cst_text(node: &CstNode) -> (r: String)
    ensures
        !cst_syntax(*node).kind.spec_is_container() ==> r@ == cst_syntax(*node).text,
{
    node.to_string()
}

/// Calls `CstStringLit::decoded_value` on a string literal: its value with
/// the escapes resolved, or nothing where the node is no string literal or
/// does not decode. For a string literal that is the decoded value
/// `cst_syntax` names.
#[verifier::external_body]
fn cst_string_value(node: &CstNode) -> (r: Option<String>)
    ensures
        cst_syntax(*node).kind == SyntaxKind::StringLit ==> optional_text(r) == cst_syntax(
            *node,
        ).decoded,
{
    match node.as_string_lit() {
        Some(literal) => literal.decoded_value().ok(),
        None => None,
    }
}

/// Calls `CstBooleanLit::value` on a boolean literal; `false` where the
/// node is none. For a boolean literal that is the value `cst_syntax`
/// names.
#[verifier::external_body]
fn cst_boolean(node: &CstNode) -> (r: bool)
    ensures
        cst_syntax(*node).kind == SyntaxKind::BooleanLit ==> r == cst_syntax(*node).truth,
{
    match node.as_boolean_lit() {
        Some(literal) => literal.value(),
        None => false,
    }
}

/// Calls `CstObjectProp::decoded_name` on an object property: its name
/// with any escapes resolved, or nothing where the node is no property, has
/// no name or the name does not decode. For a property that is the name
/// `cst_syntax` names.
#[verifier::external_body]
fn cst_prop_name(node: &CstNode) -> (r: Option<String>)
    ensures
        cst_syntax(*node).kind == SyntaxKind::ObjectProp ==> optional_text(r) == cst_syntax(
            *node,
        ).decoded,
{
    match node.as_object_prop() {
        Some(prop) => prop.decoded_name(),
        None => None,
    }
}

/// Calls `CstObjectProp::value` on an object property and `child_index` on
/// what it finds: the position of the property's value among its children,
/// or nothing where the node is no property or has no value. For a
/// property that is the position `cst_syntax` names.
#[verifier::external_body]
fn cst_value_index(node: &CstNode) -> (r: Option<usize>)
    ensures
        cst_syntax(*node).kind == SyntaxKind::ObjectProp ==> optional_index(r) == cst_syntax(
            *node,
        ).value_index,
{
    match node.as_object_prop() {
        Some(prop) => match prop.value() {
            Some(value) => Some(value.child_index()),
            None => None,
        },
        None => None,
    }
}

/// The kind of a node of the parser's tree, from what the two functions
/// that tell its variants apart report of it.
fn kind_of(container: Option<SyntaxKind>, leaf: Option<SyntaxKind>) -> (r: SyntaxKind)
    ensures
        r == resolved_kind(container, leaf),
{
    match container {
        Some(kind) => kind,
        None => match leaf {
            Some(kind) => kind,
            None => SyntaxKind::Token,
        },
    }
}

/// Copies the tree below `node` into plain data: what comes back is the
/// tree that the node holds. Nothing comes back exactly where that tree is
/// deeper than `depth` levels.
fn lower(node: &CstNode, depth: usize) -> (r: Option<SyntaxNode>)
    ensures
        r is Some <==> syntax_depth(cst_syntax(*node)) <= depth,
        r matches Some(tree) ==> tree@ == cst_syntax(*node) && well_shaped(tree@),
    decreases depth,
{
    if depth == 0 {
        return None;
    }
    let ghost model = cst_syntax(*node);
    let kind = kind_of(cst_container_kind(node), cst_leaf_kind(node));
    assert(kind == model.kind && in_assembled_form(model));
    let mut children: Vec<SyntaxNode> = Vec::new();
    let mut text = String::new();
    let mut string_value: Option<String> = None;
    let mut truth = false;
    let mut prop_name: Option<String> = None;
    let mut value_index: Option<usize> = None;
    if kind.is_container() {
        let parts = cst_children(node);
        let mut i: usize = 0;
        while i < parts.len()
            invariant
                i <= parts.len(),
                depth > 0,
                children.len() == i,
                model == cst_syntax(*node),
                parts@.len() == model.children.len(),
                forall|j: int|
                    0 <= j < parts@.len() ==> cst_syntax(#[trigger] parts@[j]) == model.children[j],
                forall|j: int|
                    0 <= j < i ==> (#[trigger] children[j])@ == model.children[j] && syntax_depth(
                        children[j]@,
                    ) <= depth - 1 && well_shaped(children[j]@),
            decreases parts.len() - i,
        {
            match lower(&parts[i], depth - 1) {
                Some(part) => {
                    children.push(part);
                },
                None => {
                    proof {
                        lemma_child_depth(model, model.children.len(), i as int);
                    }
                    return None;
                },
            }
            i += 1;
        }
        if kind == SyntaxKind::ObjectProp {
            prop_name = cst_prop_name(node);
            value_index = cst_value_index(node);
        }
    } else {
        text = cst_text(node);
        if kind == SyntaxKind::StringLit {
            string_value = cst_string_value(node);
        } else if kind == SyntaxKind::BooleanLit {
            truth = cst_boolean(node);
        }
    }
    proof {
        lemma_assembled_shape(
            kind,
            text@,
            optional_text(string_value),
            truth,
            optional_text(prop_name),
            optional_index(value_index),
            syntax_models(children@),
            (depth - 1) as nat,
        );
        if kind.spec_is_container() {
            assert(syntax_models(children@) =~= model.children);
        }
    }
    let tree = SyntaxNode::assemble(
        kind,
        text,
        string_value,
        truth,
        prop_name,
        value_index,
        children,
    );
    assert(tree@ == model);
    Some(tree)
}

/// Hands on what the parser gave for a text: its error as it is, and the
/// tree that its root holds, copied into plain data unless it is deeper
/// than `depth` levels.
fn lower_parsed(parsed: Result<CstNode, ParseError>, depth: usize) -> (r: Result<
    Option<SyntaxNode>,
    ParseError,
>)
    ensures
        parsed is Ok <==> r is Ok,
        parsed matches Err(error) ==> r == Err::<Option<SyntaxNode>, ParseError>(error),
        parsed matches Ok(root) ==> (r matches Ok(found) && (found is Some <==> syntax_depth(
            cst_syntax(root),
        ) <= depth)),
        parsed matches Ok(root) ==> (r matches Ok(Some(tree)) ==> tree@ == cst_syntax(root)
            && well_shaped(tree@)),
{
    match parsed {
        Ok(root) => Ok(lower(&root, depth)),
        Err(error) => Err(error),
    }
}

/// Parses source text into a syntax tree of plain data that is at most
/// `depth` levels deep. A text that the parser refuses gives the parser's
/// error. A text that parses gives the tree the parser has for it, or
/// nothing where that tree is deeper than `depth` levels.
pub fn parse_syntax_within(text: &str, depth: usize) -> (r: Result<Option<SyntaxNode>, ParseError>)
    ensures
        r is Err <==> parsed_syntax(text@) is None,
        r matches Ok(Some(tree)) ==> parsed_syntax(text@) == Some(tree@) && syntax_depth(tree@)
            <= depth && well_shaped(tree@),
        r matches Ok(None) ==> (parsed_syntax(text@) matches Some(found) && syntax_depth(found)
            > depth),
{
    lower_parsed(cst_parse(text), depth)
}

/// Parses source text into a syntax tree of plain data. A text that the
/// parser refuses gives the parser's error. A text that parses gives the
/// tree the parser has for it, or nothing where that tree is deeper than
/// `MAX_SYNTAX_DEPTH` levels.
pub fn parse_syntax(text: &str) -> (r: Result<Option<SyntaxNode>, ParseError>)
    ensures
        r is Err <==> parsed_syntax(text@) is None,
        r matches Ok(Some(tree)) ==> parsed_syntax(text@) == Some(tree@) && syntax_depth(tree@)
            <= MAX_SYNTAX_DEPTH && well_shaped(tree@),
        r matches Ok(None) ==> (parsed_syntax(text@) matches Some(found) && syntax_depth(found)
            > MAX_SYNTAX_DEPTH),
{
    parse_syntax_within(text, MAX_SYNTAX_DEPTH)
}

} // verus!
