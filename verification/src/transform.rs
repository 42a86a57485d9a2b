//! The tree-construction pass: from the concrete syntax tree to the
//! document tree, with every comment attached to the value it annotates.

use crate::syntax::{
    lemma_child_depth, lemma_syntax_child, lemma_syntax_count, syntax_depth, Syntax,
    SyntaxKind, SyntaxNode,
};
use crate::table::{false_text, null_text, true_text};
use crate::computed::{complexity, max_child_complexity, well_formed};
use crate::types::{at_origin, JsonItem, JsonItemType, Node};
use vstd::prelude::*;
use vstd::string::StrSliceExecFns;
use vstd::string::StringExecFns;

verus! {

/// Whether a comment text starts with `//`.
pub open spec fn starts_line_comment(text: Seq<char>) -> bool {
    text.len() >= 2 && text[0] == '/' && text[1] == '/'
}

/// A comment standing alone as an item: a line comment if its text starts
/// with `//`, a block comment otherwise, with the text as its value.
pub open spec fn comment_item(text: Seq<char>) -> Node {
    Node {
        kind: if starts_line_comment(text) {
            JsonItemType::LineComment
        } else {
            JsonItemType::BlockComment
        },
        value: text,
        ..Node::bare(JsonItemType::Null)
    }
}

/// The item for a syntax node without children. A string holds its
/// decoded value, or nothing where it does not decode; a number its source
/// text; a boolean or null its keyword; a comment its text; whitespace and
/// line breaks give a blank line, anything else a null without text.
pub open spec fn leaf_item(node: Syntax) -> Node {
    match node.kind {
        SyntaxKind::StringLit => Node {
            value: match node.decoded {
                Some(d) => d,
                None => Seq::empty(),
            },
            ..Node::bare(JsonItemType::String)
        },
        SyntaxKind::NumberLit => Node { value: node.text, ..Node::bare(JsonItemType::Number) },
        SyntaxKind::BooleanLit => if node.truth {
            Node { value: true_text(), ..Node::bare(JsonItemType::True) }
        } else {
            Node { value: false_text(), ..Node::bare(JsonItemType::False) }
        },
        SyntaxKind::NullKeyword => Node { value: null_text(), ..Node::bare(JsonItemType::Null) },
        SyntaxKind::Comment => comment_item(node.text),
        SyntaxKind::Whitespace | SyntaxKind::Newline => Node::bare(JsonItemType::BlankLine),
        _ => Node::bare(JsonItemType::Null),
    }
}

/// The item with a pending comment attached before it: the comment
/// becomes its prefix comment and decides the line-style flag. Without a
/// pending comment the item is unchanged.
pub open spec fn with_prefix(item: Node, pending: Option<Seq<char>>) -> Node {
    match pending {
        Some(comment) => Node {
            prefix_comment: Some(comment),
            is_post_comment_line_style: starts_line_comment(comment),
            ..item
        },
        None => item,
    }
}

/// The elements collected from the first `upto` children of an array node,
/// and the comment still waiting for the next element. Tokens, whitespace
/// and line breaks are passed over; a comment waits, replacing one that
/// waited before; any other child becomes an element with the waiting
/// comment attached.
pub open spec fn array_state(node: Syntax, upto: nat) -> (Seq<Node>, Option<Seq<char>>)
    decreases node, 0nat, upto,
{
    if upto == 0 || upto > node.children.len() {
        (Seq::empty(), None)
    } else {
        let (items, pending) = array_state(node, (upto - 1) as nat);
        let child = node.children[upto - 1];
        match child.kind {
            SyntaxKind::Token | SyntaxKind::Whitespace | SyntaxKind::Newline => (items, pending),
            SyntaxKind::Comment => (items, Some(child.text)),
            _ => (items.push(with_prefix(node_item(child), pending)), None),
        }
    }
}

/// Whether one of the items is neither a comment nor a blank line.
pub open spec fn has_value_item(items: Seq<Node>) -> bool {
    exists|i: int| 0 <= i < items.len() && !(#[trigger] items[i]).kind.spec_is_comment_or_blank()
}

/// The array item for an array node: its elements with their comments,
/// and a comment left waiting at the end as a last child of its own.
pub open spec fn array_item(node: Syntax) -> Node
    decreases node, 1nat, 0nat,
{
    let (items, pending) = array_state(node, node.children.len());
    let children = match pending {
        Some(comment) => if has_value_item(items) || items.len() == 0 {
            items.push(comment_item(comment))
        } else {
            items
        },
        None => items,
    };
    Node { children, ..Node::bare(JsonItemType::Array) }
}

/// The first and the last comment among the first `upto` children of a
/// property node: the first is the comment in the middle of the property;
/// the last, if it is not also the first, the comment after it.
pub open spec fn prop_comments(prop: Syntax, upto: nat) -> (Option<Seq<char>>, Option<Seq<char>>)
    decreases upto,
{
    if upto == 0 || upto > prop.children.len() {
        (None, None)
    } else {
        let (middle, postfix) = prop_comments(prop, (upto - 1) as nat);
        let child = prop.children[upto - 1];
        if child.kind == SyntaxKind::Comment {
            if middle is None {
                (Some(child.text), postfix)
            } else {
                (middle, Some(child.text))
            }
        } else {
            (middle, postfix)
        }
    }
}

/// The name of a property node: its decoded name, or nothing.
pub open spec fn prop_name(prop: Syntax) -> Seq<char> {
    match prop.decoded {
        Some(name) => name,
        None => Seq::empty(),
    }
}

/// The value of a property node as an item, before its name and comments
/// are set: the item of the child at its value position, a null if it has
/// none.
pub open spec fn prop_value(prop: Syntax) -> Node
    decreases prop, 0nat, 0nat,
{
    match prop.value_index {
        Some(i) => if 0 <= i < prop.children.len() {
            node_item(prop.children[i])
        } else {
            Node::bare(JsonItemType::Null)
        },
        None => Node::bare(JsonItemType::Null),
    }
}

/// An item with the comments found inside its property set on it.
pub open spec fn with_inner_comments(
    value: Node,
    middle: Option<Seq<char>>,
    postfix: Option<Seq<char>>,
) -> Node {
    Node {
        middle_comment: match middle {
            Some(c) => Some(c),
            None => value.middle_comment,
        },
        postfix_comment: match postfix {
            Some(c) => Some(c),
            None => value.postfix_comment,
        },
        is_post_comment_line_style: match postfix {
            Some(c) => starts_line_comment(c),
            None => value.is_post_comment_line_style,
        },
        ..value
    }
}

/// The member for a property node: its value, named, with the comments
/// inside the property as its middle and postfix comments.
pub open spec fn prop_item(prop: Syntax) -> Node
    decreases prop, 1nat, 0nat,
{
    let (middle, postfix) = prop_comments(prop, prop.children.len());
    Node { name: prop_name(prop), ..with_inner_comments(prop_value(prop), middle, postfix) }
}

/// The members made from the properties among the first `upto` children of
/// an object node; a property without a name makes none.
pub open spec fn members(node: Syntax, upto: nat) -> Seq<Node>
    decreases node, 0nat, upto,
{
    if upto == 0 || upto > node.children.len() {
        Seq::empty()
    } else {
        let before = members(node, (upto - 1) as nat);
        let child = node.children[upto - 1];
        if child.kind == SyntaxKind::ObjectProp && prop_name(child).len() > 0 {
            before.push(prop_item(child))
        } else {
            before
        }
    }
}

/// The state of the second pass over an object node.
pub ghost struct ObjectPass {
    /// The children of the object item so far.
    pub items: Seq<Node>,
    /// The comment waiting for the next property.
    pub pending: Option<Seq<char>>,
    /// How many properties were passed.
    pub index: nat,
}

/// The second pass over the first `upto` children of an object node, which
/// starts from its members. In an object with members, a comment waits for
/// the next property and is attached before the member at that property's
/// position; in one without, a comment becomes a child of its own.
pub open spec fn object_pass(node: Syntax, upto: nat) -> ObjectPass
    decreases node, 1nat, upto,
{
    if upto == 0 || upto > node.children.len() {
        ObjectPass { items: members(node, node.children.len()), pending: None, index: 0 }
    } else {
        let state = object_pass(node, (upto - 1) as nat);
        let child = node.children[upto - 1];
        match child.kind {
            SyntaxKind::Comment => if members(node, node.children.len()).len() > 0 {
                ObjectPass { pending: Some(child.text), ..state }
            } else {
                ObjectPass { items: state.items.push(comment_item(child.text)), ..state }
            },
            SyntaxKind::ObjectProp => if state.index < state.items.len() {
                ObjectPass {
                    items: state.items.update(
                        state.index as int,
                        with_prefix(state.items[state.index as int], state.pending),
                    ),
                    pending: None,
                    index: state.index + 1,
                }
            } else {
                ObjectPass { index: state.index + 1, ..state }
            },
            _ => state,
        }
    }
}

/// The object item for an object node.
pub open spec fn object_item(node: Syntax) -> Node
    decreases node, 2nat, 0nat,
{
    Node { children: object_pass(node, node.children.len()).items, ..Node::bare(JsonItemType::Object) }
}

/// The item for any syntax node: arrays and objects by their own rules, a
/// root or property node standing where a value should as a null, anything
/// else as a leaf.
pub open spec fn node_item(node: Syntax) -> Node
    decreases node, 3nat, 0nat,
{
    match node.kind {
        SyntaxKind::Array => array_item(node),
        SyntaxKind::Object => object_item(node),
        SyntaxKind::Root | SyntaxKind::ObjectProp => Node::bare(JsonItemType::Null),
        _ => leaf_item(node),
    }
}

/// The position of the first child at or after `start` that is no trivia,
/// or the number of children if there is none.
pub open spec fn value_position(root: Syntax, start: int) -> int
    decreases root.children.len() - start,
{
    if start < 0 || start >= root.children.len() {
        root.children.len() as int
    } else if root.children[start].kind.spec_is_trivia() {
        value_position(root, start + 1)
    } else {
        start
    }
}

/// The document tree for a syntax tree: the item of the first child of
/// the root that is no trivia, or a null if the document holds no value.
pub open spec fn document_item(root: Syntax) -> Node {
    let at = value_position(root, 0);
    if at < root.children.len() {
        node_item(root.children[at])
    } else {
        Node::bare(JsonItemType::Null)
    }
}

/// Whether every item of a list is well formed.
pub open spec fn all_well_formed(items: Seq<Node>) -> bool {
    forall|i: int| 0 <= i < items.len() ==> well_formed(#[trigger] items[i])
}

/// Whether no item of a list has a name.
pub open spec fn all_nameless(items: Seq<Node>) -> bool {
    forall|i: int| 0 <= i < items.len() ==> (#[trigger] items[i]).name.len() == 0
}

proof fn lemma_array_state_well_formed(node: Syntax, upto: nat)
    ensures
        all_well_formed(array_state(node, upto).0),
        all_nameless(array_state(node, upto).0),
    decreases node, 0nat, upto,
{
    if upto == 0 || upto > node.children.len() {
    } else {
        lemma_array_state_well_formed(node, (upto - 1) as nat);
        let (items, pending) = array_state(node, (upto - 1) as nat);
        let child = node.children[upto - 1];
        lemma_node_item_well_formed(child);
        let next = array_state(node, upto).0;
        assert forall|i: int| 0 <= i < next.len() implies well_formed(#[trigger] next[i])
            && next[i].name.len() == 0 by {
            if i < items.len() {
                assert(next[i] == items[i]);
            }
        }
    }
}

proof fn lemma_members_well_formed(node: Syntax, upto: nat)
    ensures
        all_well_formed(members(node, upto)),
    decreases node, 0nat, upto,
{
    if upto == 0 || upto > node.children.len() {
    } else {
        lemma_members_well_formed(node, (upto - 1) as nat);
        let before = members(node, (upto - 1) as nat);
        let child = node.children[upto - 1];
        match child.value_index {
            Some(i) => {
                if 0 <= i < child.children.len() {
                    lemma_node_item_well_formed(child.children[i]);
                }
            },
            None => {},
        }
        let next = members(node, upto);
        assert(prop_item(child).children == prop_value(child).children);
        assert forall|i: int| 0 <= i < next.len() implies well_formed(#[trigger] next[i]) by {
            if i < before.len() {
                assert(next[i] == before[i]);
            }
        }
    }
}

proof fn lemma_object_pass_well_formed(node: Syntax, upto: nat)
    ensures
        all_well_formed(object_pass(node, upto).items),
    decreases node, 1nat, upto,
{
    if upto == 0 || upto > node.children.len() {
        lemma_members_well_formed(node, node.children.len());
    } else {
        lemma_object_pass_well_formed(node, (upto - 1) as nat);
        let state = object_pass(node, (upto - 1) as nat);
        let next = object_pass(node, upto).items;
        let child = node.children[upto - 1];
        assert forall|i: int| 0 <= i < next.len() implies well_formed(#[trigger] next[i]) by {
            if i < state.items.len() {
                assert(well_formed(state.items[i]));
                assert(next[i].children == state.items[i].children);
            }
        }
    }
}

/// The item built for any syntax node satisfies the data-model invariant
/// and has no name of its own.
pub proof fn lemma_node_item_well_formed(node: Syntax)
    ensures
        well_formed(node_item(node)),
        node_item(node).name.len() == 0,
    decreases node, 3nat, 0nat,
{
    match node.kind {
        SyntaxKind::Array => {
            lemma_array_state_well_formed(node, node.children.len());
            let (items, pending) = array_state(node, node.children.len());
            let children = array_item(node).children;
            assert forall|i: int| 0 <= i < children.len() implies well_formed(
                #[trigger] children[i],
            ) && children[i].name.len() == 0 by {
                if i < items.len() {
                    assert(children[i] == items[i]);
                }
            }
        },
        SyntaxKind::Object => {
            lemma_object_pass_well_formed(node, node.children.len());
        },
        _ => {},
    }
}

/// Every document tree that the tree-construction pass builds satisfies
/// the data-model invariant: only objects and arrays have children, and
/// only the children of an object have a name.
pub proof fn lemma_document_item_well_formed(root: Syntax)
    ensures
        well_formed(document_item(root)),
{
    let at = value_position(root, 0);
    if at < root.children.len() {
        lemma_value_position_in_range(root, 0);
        lemma_node_item_well_formed(root.children[at]);
    }
}

proof fn lemma_value_position_in_range(root: Syntax, start: int)
    requires
        0 <= start,
    ensures
        start <= value_position(root, start) <= root.children.len() || start
            > root.children.len(),
    decreases root.children.len() - start,
{
    if start < root.children.len() && root.children[start].kind.spec_is_trivia() {
        lemma_value_position_in_range(root, start + 1);
    }
}

/// Whether every item of a list has a complexity of at most `bound`.
pub open spec fn all_within(items: Seq<Node>, bound: int) -> bool {
    forall|i: int| 0 <= i < items.len() ==> complexity(#[trigger] items[i]) <= bound
}

proof fn lemma_max_complexity_same(a: Node, b: Node, upto: nat)
    requires
        a.children == b.children,
    ensures
        max_child_complexity(a, upto) == max_child_complexity(b, upto),
    decreases upto,
{
    if upto > 0 && upto <= a.children.len() {
        lemma_max_complexity_same(a, b, (upto - 1) as nat);
    }
}

/// The complexity of an item depends on its kind and its children only.
pub proof fn lemma_complexity_same(a: Node, b: Node)
    requires
        a.kind == b.kind,
        a.children == b.children,
    ensures
        complexity(a) == complexity(b),
{
    lemma_max_complexity_same(a, b, a.children.len());
}

proof fn lemma_max_complexity_within(node: Node, bound: int, upto: nat)
    requires
        all_within(node.children, bound),
        bound >= 0,
    ensures
        max_child_complexity(node, upto) <= bound,
    decreases upto,
{
    if upto > 0 && upto <= node.children.len() {
        lemma_max_complexity_within(node, bound, (upto - 1) as nat);
    }
}

proof fn lemma_array_state_within(node: Syntax, upto: nat)
    ensures
        all_within(array_state(node, upto).0, syntax_depth(node) - 1),
    decreases node, 0nat, upto,
{
    if upto == 0 || upto > node.children.len() {
    } else {
        lemma_array_state_within(node, (upto - 1) as nat);
        let (items, pending) = array_state(node, (upto - 1) as nat);
        let child = node.children[upto - 1];
        lemma_node_item_within(child);
        lemma_child_depth(node, node.children.len(), upto - 1);
        lemma_complexity_same(with_prefix(node_item(child), pending), node_item(child));
        let next = array_state(node, upto).0;
        assert forall|i: int| 0 <= i < next.len() implies complexity(#[trigger] next[i])
            <= syntax_depth(node) - 1 by {
            if i < items.len() {
                assert(next[i] == items[i]);
            }
        }
    }
}

proof fn lemma_members_within(node: Syntax, upto: nat)
    ensures
        all_within(members(node, upto), syntax_depth(node) - 1),
    decreases node, 0nat, upto,
{
    if upto == 0 || upto > node.children.len() {
    } else {
        lemma_members_within(node, (upto - 1) as nat);
        let before = members(node, (upto - 1) as nat);
        let child = node.children[upto - 1];
        lemma_child_depth(node, node.children.len(), upto - 1);
        match child.value_index {
            Some(i) => {
                if 0 <= i < child.children.len() {
                    lemma_node_item_within(child.children[i]);
                    lemma_child_depth(child, child.children.len(), i);
                }
            },
            None => {},
        }
        lemma_complexity_same(prop_item(child), prop_value(child));
        let next = members(node, upto);
        assert forall|i: int| 0 <= i < next.len() implies complexity(#[trigger] next[i])
            <= syntax_depth(node) - 1 by {
            if i < before.len() {
                assert(next[i] == before[i]);
            }
        }
    }
}

proof fn lemma_object_pass_within(node: Syntax, upto: nat)
    ensures
        all_within(object_pass(node, upto).items, syntax_depth(node) - 1),
    decreases node, 1nat, upto,
{
    if upto == 0 || upto > node.children.len() {
        lemma_members_within(node, node.children.len());
    } else {
        lemma_object_pass_within(node, (upto - 1) as nat);
        let state = object_pass(node, (upto - 1) as nat);
        let next = object_pass(node, upto).items;
        let child = node.children[upto - 1];
        assert forall|i: int| 0 <= i < next.len() implies complexity(#[trigger] next[i])
            <= syntax_depth(node) - 1 by {
            if i < state.items.len() {
                assert(complexity(state.items[i]) <= syntax_depth(node) - 1);
                if child.kind == SyntaxKind::ObjectProp && state.index < state.items.len() && i
                    == state.index {
                    lemma_complexity_same(
                        with_prefix(state.items[i], state.pending),
                        state.items[i],
                    );
                } else {
                    assert(next[i] == state.items[i]);
                }
            } else {
                assert(next[i] == comment_item(child.text));
            }
        }
    }
}

/// The item built for a syntax node is no more complex than the node is
/// deep: what is read no deeper than a limit is laid out no deeper.
pub proof fn lemma_node_item_within(node: Syntax)
    ensures
        complexity(node_item(node)) <= syntax_depth(node),
    decreases node, 3nat, 0nat,
{
    match node.kind {
        SyntaxKind::Array => {
            lemma_array_state_within(node, node.children.len());
            let (items, pending) = array_state(node, node.children.len());
            let item = array_item(node);
            assert forall|i: int| 0 <= i < item.children.len() implies complexity(
                #[trigger] item.children[i],
            ) <= syntax_depth(node) - 1 by {
                if i < items.len() {
                    assert(item.children[i] == items[i]);
                }
            }
            lemma_max_complexity_within(item, syntax_depth(node) - 1, item.children.len());
        },
        SyntaxKind::Object => {
            lemma_object_pass_within(node, node.children.len());
            let item = object_item(node);
            lemma_max_complexity_within(item, syntax_depth(node) - 1, item.children.len());
        },
        _ => {},
    }
}

/// The document tree built for a syntax tree is no more complex than the
/// syntax tree is deep.
pub proof fn lemma_document_item_within(root: Syntax)
    ensures
        complexity(document_item(root)) <= syntax_depth(root),
{
    let at = value_position(root, 0);
    if at < root.children.len() {
        lemma_value_position_in_range(root, 0);
        lemma_node_item_within(root.children[at]);
        lemma_child_depth(root, root.children.len(), at);
    }
}

/// The models of a list of items, in order.
pub open spec fn models_of(items: Seq<JsonItem>) -> Seq<Node> {
    Seq::new(items.len(), |i: int| items[i]@)
}

/// The model of an optional owned text.
pub open spec fn pending_text(pending: Option<String>) -> Option<Seq<char>> {
    match pending {
        Some(c) => Some(c@),
        None => None,
    }
}

/// Whether the line-style flag that waits with a comment is the one the
/// comment's text gives.
pub open spec fn pending_agrees(pending: Option<String>, line: Option<bool>) -> bool {
    match pending {
        Some(c) => line == Some(starts_line_comment(c@)),
        None => line is None,
    }
}

proof fn lemma_models_push(items: Seq<JsonItem>, item: JsonItem)
    ensures
        models_of(items.push(item)) == models_of(items).push(item@),
{
    assert(models_of(items.push(item)) =~= models_of(items).push(item@));
}

proof fn lemma_item_children(item: JsonItem)
    ensures
        item@.children == models_of(item.children@),
{
    assert(item@.children =~= models_of(item.children@));
}

/// Whether a comment text starts with `//`.
pub fn is_line_comment(text: &str) -> (r: bool)
    ensures
        r == starts_line_comment(text@),
{
    let mut rest = text.chars();
    match rest.next() {
        Some(first) => {
            if first != '/' {
                return false;
            }
            assert(text@.skip(1) =~= text@.drop_first());
            match rest.next() {
                Some(second) => {
                    assert(second == text@[1]);
                    second == '/'
                },
                None => false,
            }
        },
        None => false,
    }
}

/// A comment as an item of its own.
fn standalone_comment(text: String) -> (r: JsonItem)
    ensures
        r@ == comment_item(text@),
        at_origin(r),
{
    let item_type = if is_line_comment(text.as_str()) {
        JsonItemType::LineComment
    } else {
        JsonItemType::BlockComment
    };
    JsonItem::new(item_type).with_value(text)
}

/// Builds the document tree for a syntax tree.
pub fn transform(root: &SyntaxNode) -> (r: JsonItem)
    ensures
        r@ == document_item(root@),
        well_formed(r@),
        at_origin(r),
{
    proof {
        lemma_document_item_well_formed(root@);
    }
    let mut i: usize = 0;
    while i < root.children.len()
        invariant
            i <= root.children.len(),
            value_position(root@, 0) == value_position(root@, i as int),
            well_formed(document_item(root@)),
        decreases root.children.len() - i,
    {
        proof {
            lemma_syntax_child(*root, i as int);
        }
        if !root.children[i].kind.is_trivia() {
            return transform_node(&root.children[i]);
        }
        i += 1;
    }
    proof {
        lemma_syntax_count(*root);
    }
    JsonItem::new(JsonItemType::Null)
}

/// Builds the item for any syntax node.
pub fn transform_node(node: &SyntaxNode) -> (r: JsonItem)
    ensures
        r@ == node_item(node@),
        at_origin(r),
    decreases node, 4nat,
{
    match node.kind {
        SyntaxKind::Root | SyntaxKind::Array | SyntaxKind::Object | SyntaxKind::ObjectProp => {
            transform_container(node)
        },
        _ => transform_leaf(node),
    }
}

/// Builds the item for a syntax node without children.
pub fn transform_leaf(leaf: &SyntaxNode) -> (r: JsonItem)
    ensures
        r@ == leaf_item(leaf@),
        at_origin(r),
{
    match leaf.kind {
        SyntaxKind::StringLit => {
            let value = match &leaf.decoded {
                Some(decoded) => decoded.clone(),
                None => String::new(),
            };
            JsonItem::new(JsonItemType::String).with_value(value)
        },
        SyntaxKind::NumberLit => JsonItem::new(JsonItemType::Number).with_value(leaf.text.clone()),
        SyntaxKind::BooleanLit => {
            let mut value = String::new();
            if leaf.truth {
                crate::table::write_true(&mut value);
                assert(value@ =~= true_text());
                JsonItem::new(JsonItemType::True).with_value(value)
            } else {
                crate::table::write_false(&mut value);
                assert(value@ =~= false_text());
                JsonItem::new(JsonItemType::False).with_value(value)
            }
        },
        SyntaxKind::NullKeyword => {
            let mut value = String::new();
            crate::table::write_null(&mut value);
            assert(value@ =~= null_text());
            JsonItem::new(JsonItemType::Null).with_value(value)
        },
        SyntaxKind::Comment => standalone_comment(leaf.text.clone()),
        SyntaxKind::Whitespace | SyntaxKind::Newline => JsonItem::new(JsonItemType::BlankLine),
        _ => JsonItem::new(JsonItemType::Null),
    }
}

/// Builds the item for a syntax node that has children.
pub fn transform_container(container: &SyntaxNode) -> (r: JsonItem)
    requires
        container.kind == SyntaxKind::Root || container.kind == SyntaxKind::Array
            || container.kind == SyntaxKind::Object || container.kind == SyntaxKind::ObjectProp,
    ensures
        r@ == node_item(container@),
        at_origin(r),
    decreases container, 3nat,
{
    match container.kind {
        SyntaxKind::Array => transform_array(container),
        SyntaxKind::Object => transform_object(container),
        _ => JsonItem::new(JsonItemType::Null),
    }
}

/// The item after a waiting comment, if there is one, was attached before
/// it: the comment becomes its prefix comment, and the line-style flag that
/// waits with the comment, if there is one, becomes its flag.
pub open spec fn attached(item: Node, pending: Option<Seq<char>>, line: Option<bool>) -> Node {
    match pending {
        Some(comment) => Node {
            prefix_comment: Some(comment),
            is_post_comment_line_style: match line {
                Some(is_line) => is_line,
                None => item.is_post_comment_line_style,
            },
            ..item
        },
        None => item,
    }
}

/// Attaches the waiting comment, if there is one, before the item,
/// together with the line-style flag that waits with it. Afterwards no
/// comment waits; the flag keeps waiting only if no comment did.
pub fn attach_pending_comment(
    item: &mut JsonItem,
    pending_prefix_comment: &mut Option<String>,
    pending_prefix_is_line_style: &mut Option<bool>,
)
    ensures
        final(item)@ == attached(
            old(item)@,
            pending_text(*old(pending_prefix_comment)),
            *old(pending_prefix_is_line_style),
        ),
        final(item).input_position == old(item).input_position,
        final(item).children == old(item).children,
        final(item).name == old(item).name,
        final(item).value == old(item).value,
        final(item).item_type == old(item).item_type,
        final(item).middle_comment == old(item).middle_comment,
        final(item).postfix_comment == old(item).postfix_comment,
        *final(pending_prefix_comment) == None::<String>,
        *final(pending_prefix_is_line_style) == (if *old(pending_prefix_comment) is Some {
            None::<bool>
        } else {
            *old(pending_prefix_is_line_style)
        }),
{
    if let Some(comment) = pending_prefix_comment.take() {
        item.prefix_comment = Some(comment);
        if let Some(is_line) = pending_prefix_is_line_style.take() {
            item.is_post_comment_line_style = is_line;
        }
        assert(item@.children =~= old(item)@.children);
    }
}

/// The text of a node if it is a comment.
pub fn as_comment(node: &SyntaxNode) -> (r: Option<&str>)
    ensures
        r is Some <==> node@.kind == SyntaxKind::Comment,
        r matches Some(text) ==> text@ == node@.text,
{
    match node.kind {
        SyntaxKind::Comment => Some(node.text.as_str()),
        _ => None,
    }
}

fn any_value_item(items: &Vec<JsonItem>) -> (r: bool)
    ensures
        r == has_value_item(models_of(items@)),
{
    let mut i: usize = 0;
    while i < items.len()
        invariant
            i <= items.len(),
            forall|j: int|
                0 <= j < i ==> (#[trigger] models_of(items@)[j]).kind.spec_is_comment_or_blank(),
        decreases items.len() - i,
    {
        if !items[i].item_type.is_comment_or_blank() {
            assert(!models_of(items@)[i as int].kind.spec_is_comment_or_blank());
            return true;
        }
        i += 1;
    }
    false
}

/// Builds the array item for an array node.
pub fn transform_array(array: &SyntaxNode) -> (r: JsonItem)
    ensures
        r@ == array_item(array@),
        at_origin(r),
    decreases array, 1nat,
{
    let mut children: Vec<JsonItem> = Vec::new();
    let mut pending_prefix_comment: Option<String> = None;
    let mut pending_prefix_is_line_style: Option<bool> = None;
    let mut i: usize = 0;
    assert(models_of(children@) =~= Seq::<Node>::empty());
    while i < array.children.len()
        invariant
            i <= array.children.len(),
            models_of(children@) == array_state(array@, i as nat).0,
            forall|j: int| 0 <= j < children.len() ==> at_origin(#[trigger] children[j]),
            pending_text(pending_prefix_comment) == array_state(array@, i as nat).1,
            pending_agrees(pending_prefix_comment, pending_prefix_is_line_style),
        decreases array.children.len() - i,
    {
        proof {
            lemma_syntax_child(*array, i as int);
        }
        let child = &array.children[i];
        match child.kind {
            SyntaxKind::Token | SyntaxKind::Whitespace | SyntaxKind::Newline => {},
            SyntaxKind::Comment => {
                let comment_text = child.text.clone();
                let is_line = is_line_comment(comment_text.as_str());
                pending_prefix_comment = Some(comment_text);
                pending_prefix_is_line_style = Some(is_line);
            },
            _ => {
                let mut item = transform_node(child);
                attach_pending_comment(
                    &mut item,
                    &mut pending_prefix_comment,
                    &mut pending_prefix_is_line_style,
                );
                proof {
                    lemma_models_push(children@, item);
                }
                children.push(item);
            },
        }
        i += 1;
    }
    proof {
        lemma_syntax_count(*array);
    }
    let has_non_comment_items = any_value_item(&children);
    if has_non_comment_items || children.len() == 0 {
        if let Some(comment) = pending_prefix_comment.take() {
            let comment_item = standalone_comment(comment);
            proof {
                lemma_models_push(children@, comment_item);
            }
            children.push(comment_item);
        }
    }
    let mut json_item = JsonItem::new(JsonItemType::Array);
    json_item.children = children;
    proof {
        lemma_item_children(json_item);
    }
    json_item
}

/// The comments inside a property node: the first, and the last if it is
/// not also the first.
fn find_prop_comments(prop: &SyntaxNode) -> (r: (Option<String>, Option<String>))
    ensures
        pending_text(r.0) == prop_comments(prop@, prop@.children.len()).0,
        pending_text(r.1) == prop_comments(prop@, prop@.children.len()).1,
{
    let mut middle: Option<String> = None;
    let mut postfix: Option<String> = None;
    let mut i: usize = 0;
    while i < prop.children.len()
        invariant
            i <= prop.children.len(),
            pending_text(middle) == prop_comments(prop@, i as nat).0,
            pending_text(postfix) == prop_comments(prop@, i as nat).1,
        decreases prop.children.len() - i,
    {
        proof {
            lemma_syntax_child(*prop, i as int);
        }
        if let Some(text) = as_comment(&prop.children[i]) {
            if middle.is_none() {
                middle = Some(String::from_str(text));
            } else {
                postfix = Some(String::from_str(text));
            }
        }
        i += 1;
    }
    proof {
        lemma_syntax_count(*prop);
    }
    (middle, postfix)
}

/// Builds the member for a property node.
fn transform_prop(prop: &SyntaxNode) -> (r: JsonItem)
    ensures
        r@ == prop_item(prop@),
        at_origin(r),
    decreases prop, 1nat,
{
    let name = match &prop.decoded {
        Some(decoded) => decoded.clone(),
        None => String::new(),
    };
    let mut value = match prop.value_index {
        Some(at) => {
            if at < prop.children.len() {
                proof {
                    lemma_syntax_child(*prop, at as int);
                }
                transform_node(&prop.children[at])
            } else {
                proof {
                    lemma_syntax_count(*prop);
                }
                JsonItem::new(JsonItemType::Null)
            }
        },
        None => JsonItem::new(JsonItemType::Null),
    };
    assert(value@ == prop_value(prop@));
    let ghost plain = value@;
    let (middle, postfix) = find_prop_comments(prop);
    if let Some(comment) = middle {
        value.middle_comment = Some(comment);
    }
    if let Some(comment) = postfix {
        value.is_post_comment_line_style = is_line_comment(comment.as_str());
        value.postfix_comment = Some(comment);
    }
    assert(value@.children =~= plain.children);
    value.with_name(name)
}

/// Builds the object item for an object node.
pub fn transform_object(object: &SyntaxNode) -> (r: JsonItem)
    ensures
        r@ == object_item(object@),
        at_origin(r),
    decreases object, 2nat,
{
    let mut children: Vec<JsonItem> = Vec::new();
    let mut i: usize = 0;
    assert(models_of(children@) =~= Seq::<Node>::empty());
    while i < object.children.len()
        invariant
            i <= object.children.len(),
            models_of(children@) == members(object@, i as nat),
            forall|j: int| 0 <= j < children.len() ==> at_origin(#[trigger] children[j]),
        decreases object.children.len() - i,
    {
        proof {
            lemma_syntax_child(*object, i as int);
        }
        let prop = &object.children[i];
        if prop.kind == SyntaxKind::ObjectProp {
            let has_name = match &prop.decoded {
                Some(decoded) => decoded.as_str().unicode_len() > 0,
                None => false,
            };
            if has_name {
                let member = transform_prop(prop);
                proof {
                    lemma_models_push(children@, member);
                }
                children.push(member);
            }
        }
        i += 1;
    }
    proof {
        lemma_syntax_count(*object);
    }
    let has_properties = children.len() > 0;
    let mut pending_prefix_comment: Option<String> = None;
    let mut pending_prefix_is_line_style: Option<bool> = None;
    let mut current_prop_index: usize = 0;
    let mut k: usize = 0;
    while k < object.children.len()
        invariant
            k <= object.children.len(),
            object@.children.len() == object.children.len(),
            has_properties == (members(object@, object@.children.len()).len() > 0),
            models_of(children@) == object_pass(object@, k as nat).items,
            forall|j: int| 0 <= j < children.len() ==> at_origin(#[trigger] children[j]),
            pending_text(pending_prefix_comment) == object_pass(object@, k as nat).pending,
            pending_agrees(pending_prefix_comment, pending_prefix_is_line_style),
            current_prop_index == object_pass(object@, k as nat).index,
            current_prop_index <= k,
        decreases object.children.len() - k,
    {
        proof {
            lemma_syntax_child(*object, k as int);
        }
        let child = &object.children[k];
        if let Some(text) = as_comment(child) {
            let comment_text = String::from_str(text);
            if has_properties {
                let is_line = is_line_comment(comment_text.as_str());
                pending_prefix_comment = Some(comment_text);
                pending_prefix_is_line_style = Some(is_line);
            } else {
                let comment_item = standalone_comment(comment_text);
                proof {
                    lemma_models_push(children@, comment_item);
                }
                children.push(comment_item);
            }
        }
        if child.kind == SyntaxKind::ObjectProp {
            if current_prop_index < children.len() {
                let ghost before = children@;
                let ghost waiting = pending_text(pending_prefix_comment);
                attach_pending_comment(
                    &mut children[current_prop_index],
                    &mut pending_prefix_comment,
                    &mut pending_prefix_is_line_style,
                );
                assert(models_of(children@) =~= models_of(before).update(
                    current_prop_index as int,
                    with_prefix(before[current_prop_index as int]@, waiting),
                ));
            }
            current_prop_index += 1;
        }
        k += 1;
    }
    let mut json_item = JsonItem::new(JsonItemType::Object);
    json_item.children = children;
    proof {
        lemma_item_children(json_item);
    }
    json_item
}

} // verus!
