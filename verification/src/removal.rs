//! What removing comments means: under the remove policy a document is
//! rendered as the same document without any comment, attached or standing
//! as a child of its own.

use crate::options::FracturedJsonOptions;
use crate::types::{lemma_child_model, lemma_child_count, InputPosition, JsonItem, Node};
use vstd::prelude::*;

verus! {

/// The first `upto` children of a node that are no comments, each without
/// its comments.
pub open spec fn kept_children(node: Node, upto: nat) -> Seq<Node>
    decreases node, upto,
{
    if upto == 0 || upto > node.children.len() {
        Seq::empty()
    } else {
        let before = kept_children(node, (upto - 1) as nat);
        let child = node.children[upto - 1];
        if child.kind.spec_is_comment() {
            before
        } else {
            before.push(without_comments(child))
        }
    }
}

/// The tree with every comment taken away, all the way down: no comment is
/// attached to anything, and no child is a comment.
pub open spec fn without_comments(node: Node) -> Node
    decreases node, node.children.len() + 1,
{
    Node {
        prefix_comment: None,
        middle_comment: None,
        postfix_comment: None,
        children: kept_children(node, node.children.len()),
        ..node
    }
}

/// Whether a tree holds no comment: none is attached to anything in it,
/// and no child in it is a comment.
pub open spec fn comment_free(node: Node) -> bool
    decreases node,
{
    &&& !node.has_comments()
    &&& forall|i: int|
        0 <= i < node.children.len() ==> !(#[trigger] node.children[i]).kind.spec_is_comment()
            && comment_free(node.children[i])
}

/// The tree that is laid out and rendered for a document: the document
/// itself while comments are preserved, the document without its comments
/// once they are removed.
pub open spec fn effective(node: Node, opts: FracturedJsonOptions) -> Node {
    if opts.keeps_comments() {
        node
    } else {
        without_comments(node)
    }
}

proof fn lemma_kept_children_free(node: Node, upto: nat)
    ensures
        forall|i: int|
            0 <= i < kept_children(node, upto).len() ==> !(#[trigger] kept_children(
                node,
                upto,
            )[i]).kind.spec_is_comment() && comment_free(kept_children(node, upto)[i]),
    decreases node, upto,
{
    if upto == 0 || upto > node.children.len() {
    } else {
        lemma_kept_children_free(node, (upto - 1) as nat);
        let before = kept_children(node, (upto - 1) as nat);
        let child = node.children[upto - 1];
        let next = kept_children(node, upto);
        if !child.kind.spec_is_comment() {
            lemma_without_comments_free(child);
        }
        assert forall|i: int| 0 <= i < next.len() implies !(#[trigger] next[i]).kind.spec_is_comment()
            && comment_free(next[i]) by {
            if i < before.len() {
                assert(next[i] == before[i]);
            }
        }
    }
}

/// A tree without its comments holds no comment.
pub proof fn lemma_without_comments_free(node: Node)
    ensures
        comment_free(without_comments(node)),
    decreases node, node.children.len() + 1,
{
    lemma_kept_children_free(node, node.children.len());
}

proof fn lemma_kept_children_fixed(node: Node, upto: nat)
    requires
        comment_free(node),
        upto <= node.children.len(),
    ensures
        kept_children(node, upto) == node.children.take(upto as int),
    decreases node, upto,
{
    if upto == 0 {
        assert(kept_children(node, upto) =~= node.children.take(upto as int));
    } else {
        lemma_kept_children_fixed(node, (upto - 1) as nat);
        lemma_free_is_fixed(node.children[upto - 1]);
        assert(kept_children(node, upto) =~= node.children.take(upto as int));
    }
}

/// Taking the comments away from a tree that holds none changes nothing.
pub proof fn lemma_free_is_fixed(node: Node)
    requires
        comment_free(node),
    ensures
        without_comments(node) == node,
    decreases node, node.children.len() + 1,
{
    lemma_kept_children_fixed(node, node.children.len());
    assert(node.children.take(node.children.len() as int) =~= node.children);
}

/// Taking the comments away twice is taking them away once.
pub proof fn lemma_without_comments_once(node: Node)
    ensures
        without_comments(without_comments(node)) == without_comments(node),
{
    lemma_without_comments_free(node);
    lemma_free_is_fixed(without_comments(node));
}

/// Under the remove policy a document is rendered exactly as the same
/// document without its comments: removed comments leave no text, no
/// separator and no line behind, and change no layout.
pub proof fn lemma_removed_comments_leave_no_trace(root: Node, opts: FracturedJsonOptions)
    requires
        !opts.keeps_comments(),
    ensures
        crate::render::document_text(without_comments(root), opts) == crate::render::document_text(
            root,
            opts,
        ),
{
    lemma_without_comments_once(root);
}

/// While comments are preserved a document is rendered as it stands.
pub proof fn lemma_kept_comments_stay(root: Node, opts: FracturedJsonOptions)
    requires
        opts.keeps_comments(),
    ensures
        effective(root, opts) == root,
{
}

/// The models of a list of items, in order.
pub open spec fn item_models(items: Seq<JsonItem>) -> Seq<Node> {
    Seq::new(items.len(), |i: int| items[i]@)
}

/// The first `upto` children of an item that are no comments, as they
/// stand.
pub open spec fn kept_sources(item: JsonItem, upto: nat) -> Seq<JsonItem>
    decreases upto,
{
    if upto == 0 || upto > item.children.len() {
        Seq::empty()
    } else {
        let before = kept_sources(item, (upto - 1) as nat);
        let child = item.children[upto - 1];
        if child.item_type.spec_is_comment() {
            before
        } else {
            before.push(child)
        }
    }
}

/// Whether `copy` is `item` without its comments, field by field: kind,
/// source position, name, value and flag are those of `item`, nothing is
/// attached, and the children are the children of `item` that are no
/// comments, each without its comments in the same way.
pub open spec fn stripped_from(copy: JsonItem, item: JsonItem) -> bool
    decreases copy,
{
    &&& copy.item_type == item.item_type
    &&& copy.input_position == item.input_position
    &&& copy.name == item.name
    &&& copy.value == item.value
    &&& copy.prefix_comment is None
    &&& copy.middle_comment is None
    &&& copy.postfix_comment is None
    &&& copy.is_post_comment_line_style == item.is_post_comment_line_style
    &&& copy.children.len() == kept_sources(item, item.children.len() as nat).len()
    &&& forall|i: int|
        0 <= i < copy.children.len() ==> stripped_from(
            #[trigger] copy.children[i],
            kept_sources(item, item.children.len() as nat)[i],
        )
}

/// A copy of the tree without any comment.
pub fn strip_comments(item: &JsonItem) -> (r: JsonItem)
    ensures
        r@ == without_comments(item@),
        stripped_from(r, *item),
    decreases item,
{
    let mut children: Vec<JsonItem> = Vec::new();
    let mut i: usize = 0;
    assert(item_models(children@) =~= kept_children(item@, 0));
    while i < item.children.len()
        invariant
            i <= item.children.len(),
            item_models(children@) == kept_children(item@, i as nat),
            children.len() == kept_sources(*item, i as nat).len(),
            forall|j: int|
                0 <= j < children.len() ==> stripped_from(
                    #[trigger] children[j],
                    kept_sources(*item, i as nat)[j],
                ),
        decreases item.children.len() - i,
    {
        proof {
            lemma_child_model(*item, i as int);
        }
        let child = &item.children[i];
        if !child.item_type.is_comment() {
            let kept = strip_comments(child);
            proof {
                assert(item_models(children@.push(kept)) =~= item_models(children@).push(kept@));
            }
            children.push(kept);
        }
        i += 1;
    }
    proof {
        lemma_child_count(*item);
    }
    let r = JsonItem {
        item_type: item.item_type,
        input_position: InputPosition {
            line: item.input_position.line,
            column: item.input_position.column,
        },
        name: item.name.clone(),
        value: item.value.clone(),
        prefix_comment: None,
        middle_comment: None,
        postfix_comment: None,
        is_post_comment_line_style: item.is_post_comment_line_style,
        children,
    };
    assert(r@.children =~= item_models(r.children@));
    r
}

} // verus!
