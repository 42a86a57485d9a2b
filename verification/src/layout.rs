//! The layout selector: for every object and array, the choice among
//! inline, compact-array, table and expanded rendering.

use crate::computed::{carries_comment, complexity, forces_multiline, min_length, ItemRef};
use crate::options::{CommentPolicy, FracturedJsonOptions};
use crate::types::{JsonItemType, Node};
use vstd::prelude::*;

verus! {

/// How a container is laid out.
#[derive(Debug, Clone, Copy, PartialEq, Eq, Structural)]
pub enum LayoutMode {
    /// The whole subtree on one line.
    Inline,
    /// Several children of an array per line.
    CompactArray,
    /// One child per line, in aligned columns.
    Table,
    /// One child per line.
    Expanded,
}

/// Inline rendering is allowed when the subtree is not forced onto several
/// lines, carries no comment itself, is simple enough and fits the line.
pub open spec fn inline_eligible(node: Node, opts: FracturedJsonOptions, indent: nat) -> bool {
    &&& !forces_multiline(node, opts)
    &&& !carries_comment(node, opts)
    &&& complexity(node) <= opts.max_inline_complexity
    &&& min_length(node, opts) + indent * opts.indent_spaces <= opts.max_total_line_length
}

/// Compact rendering is allowed for a non-empty array that is simple
/// enough, has enough children and no comment on it or anywhere below it.
pub open spec fn compact_eligible(node: Node, opts: FracturedJsonOptions) -> bool {
    &&& node.kind == JsonItemType::Array
    &&& node.children.len() > 0
    &&& !forces_multiline(node, opts)
    &&& !carries_comment(node, opts)
    &&& complexity(node) <= opts.max_compact_array_complexity
    &&& node.children.len() >= opts.min_compact_array_row_items
}

/// The kind under which a child can be a table row: its own kind for a
/// scalar and for a non-empty object or array, none otherwise.
pub open spec fn table_row_kind(node: Node) -> Option<JsonItemType> {
    match node.kind {
        JsonItemType::Object | JsonItemType::Array => if node.children.len() == 0 {
            None
        } else {
            Some(node.kind)
        },
        JsonItemType::String
        | JsonItemType::Number
        | JsonItemType::True
        | JsonItemType::False
        | JsonItemType::Null => Some(node.kind),
        _ => None,
    }
}

/// Whether all children of a non-empty array can be table rows of one kind.
pub open spec fn uniform_rows(node: Node) -> bool {
    &&& node.children.len() > 0
    &&& table_row_kind(node.children[0]) is Some
    &&& forall|i: int|
        0 <= i < node.children.len() ==> table_row_kind(#[trigger] node.children[i])
            == table_row_kind(node.children[0])
}

/// The member names of an object, in order; nothing for any other kind.
pub open spec fn property_names(node: Node) -> Seq<Seq<char>> {
    if node.kind == JsonItemType::Object {
        Seq::new(node.children.len(), |i: int| node.children[i].name)
    } else {
        Seq::empty()
    }
}

/// Whether every child is an object with the member names of the first
/// child, in the same order, and there is at least one name.
pub open spec fn uniform_members(node: Node) -> bool {
    &&& node.children.len() > 0
    &&& property_names(node.children[0]).len() > 0
    &&& forall|i: int|
        0 <= i < node.children.len() ==> property_names(#[trigger] node.children[i])
            == property_names(node.children[0])
}

/// Table rendering is allowed for a non-empty container whose children are
/// simple enough and uniform in shape; an array must also be free of
/// comments all the way down, an object need not be.
pub open spec fn table_eligible(node: Node, opts: FracturedJsonOptions) -> bool {
    if node.kind == JsonItemType::Array {
        &&& !forces_multiline(node, opts)
        &&& node.children.len() > 0
        &&& complexity(node) <= opts.max_table_row_complexity
        &&& uniform_rows(node)
    } else if node.kind == JsonItemType::Object {
        &&& node.children.len() > 0
        &&& complexity(node) <= opts.max_table_row_complexity
        &&& uniform_members(node)
    } else {
        false
    }
}

/// The layout of a container at a given indentation depth: the first of
/// inline, compact array (arrays only) and table that is allowed, expanded
/// otherwise.
pub open spec fn layout_mode(node: Node, opts: FracturedJsonOptions, indent: nat) -> LayoutMode {
    if inline_eligible(node, opts, indent) {
        LayoutMode::Inline
    } else if compact_eligible(node, opts) {
        LayoutMode::CompactArray
    } else if table_eligible(node, opts) {
        LayoutMode::Table
    } else {
        LayoutMode::Expanded
    }
}

/// Every container gets exactly one layout under every set of options,
/// and the chosen layout comes with what its renderer relies on: inline
/// text stays within the budgets that were tested, a compact array is an
/// array with a first child, and a table has a first row.
pub proof fn lemma_layout_total(node: Node, opts: FracturedJsonOptions, indent: nat)
    ensures
        layout_mode(node, opts, indent) == LayoutMode::Inline <==> inline_eligible(
            node,
            opts,
            indent,
        ),
        layout_mode(node, opts, indent) == LayoutMode::CompactArray <==> !inline_eligible(
            node,
            opts,
            indent,
        ) && compact_eligible(node, opts),
        layout_mode(node, opts, indent) == LayoutMode::Table <==> !inline_eligible(
            node,
            opts,
            indent,
        ) && !compact_eligible(node, opts) && table_eligible(node, opts),
        layout_mode(node, opts, indent) == LayoutMode::Expanded <==> !inline_eligible(
            node,
            opts,
            indent,
        ) && !compact_eligible(node, opts) && !table_eligible(node, opts),
        layout_mode(node, opts, indent) == LayoutMode::Inline ==> complexity(node)
            <= opts.max_inline_complexity && min_length(node, opts) + indent * opts.indent_spaces
            <= opts.max_total_line_length,
        layout_mode(node, opts, indent) == LayoutMode::CompactArray ==> node.kind
            == JsonItemType::Array && node.children.len() > 0 && complexity(node)
            <= opts.max_compact_array_complexity,
        layout_mode(node, opts, indent) == LayoutMode::Table ==> node.is_container()
            && node.children.len() > 0 && complexity(node) <= opts.max_table_row_complexity,
        layout_mode(node, opts, indent) != LayoutMode::Expanded ==> !(node.kind
            == JsonItemType::Array && forces_multiline(node, opts)),
{
}

/// Comments in a subtree only ever push an array towards expanded
/// rendering: an array that is forced onto several lines is expanded.
pub proof fn lemma_forced_array_expands(node: Node, opts: FracturedJsonOptions, indent: nat)
    requires
        node.kind == JsonItemType::Array,
        forces_multiline(node, opts),
    ensures
        layout_mode(node, opts, indent) == LayoutMode::Expanded,
{
}

/// While comments are preserved, a child that is a comment leaves its
/// container only the expanded layout: the comment gets a line of its own.
pub proof fn lemma_comment_child_expands(
    node: Node,
    opts: FracturedJsonOptions,
    indent: nat,
    i: int,
)
    requires
        node.is_container(),
        opts.keeps_comments(),
        0 <= i < node.children.len(),
        node.children[i].kind.spec_is_comment(),
    ensures
        forces_multiline(node, opts),
        layout_mode(node, opts, indent) == LayoutMode::Expanded,
{
    crate::computed::lemma_forcing_reaches_parent(node, opts, i);
    if node.kind == JsonItemType::Object && uniform_members(node) {
        assert(property_names(node.children[i]) == property_names(node.children[0]));
        assert(property_names(node.children[i]).len() == 0);
    }
}

/// A line budget too small for a pair of brackets leaves no container
/// inline: options without a usable budget fall back to the layouts that
/// break lines.
pub proof fn lemma_no_budget_no_inline(node: Node, opts: FracturedJsonOptions, indent: nat)
    requires
        node.is_container(),
        opts.max_total_line_length < 2,
    ensures
        layout_mode(node, opts, indent) != LayoutMode::Inline,
{
    assert(indent * opts.indent_spaces >= 0) by (nonlinear_arith);
}

/// Inside a container that is rendered inline, every nested container is
/// rendered inline too: a subtree that fits on one line is flattened all
/// the way down.
pub proof fn lemma_inline_is_hereditary(
    node: Node,
    opts: FracturedJsonOptions,
    indent: nat,
    i: int,
)
    requires
        node.is_container(),
        0 <= i < node.children.len(),
        inline_eligible(node, opts, indent),
    ensures
        inline_eligible(node.children[i], opts, 0),
        layout_mode(node.children[i], opts, 0) == LayoutMode::Inline,
{
    let child = node.children[i];
    if carries_comment(child, opts) || forces_multiline(child, opts) {
        crate::computed::lemma_forcing_reaches_parent(node, opts, i);
    }
    crate::computed::lemma_complexity_exceeds_child(node, i);
    crate::computed::lemma_min_length_covers_child(node, opts, i);
    assert(indent * opts.indent_spaces >= 0) by (nonlinear_arith);
}

/// Whether the item brings a comment with it that counts under the
/// options.
pub fn counts_comment(item: &ItemRef, options: &FracturedJsonOptions) -> (r: bool)
    ensures
        r == carries_comment(item.node(), *options),
{
    options.comment_policy == CommentPolicy::Preserve && (item.has_comments()
        || item.item_type().is_comment())
}

/// Whether the item may be rendered on one line at this depth.
pub fn should_inline(item: &ItemRef, options: &FracturedJsonOptions, indent: usize) -> (r: bool)
    requires
        item.wf(*options),
    ensures
        r == inline_eligible(item.node(), *options, indent as nat),
{
    if item.requires_multiple_lines() {
        return false;
    }
    if counts_comment(item, options) {
        return false;
    }
    if item.complexity() > options.max_inline_complexity {
        return false;
    }
    let indent_cost = match indent.checked_mul(options.indent_spaces) {
        Some(cost) => cost,
        None => {
            return false;
        },
    };
    match item.minimum_total_length().checked_add(indent_cost) {
        Some(total) => total <= options.max_total_line_length,
        None => false,
    }
}

/// Whether the item may be rendered as a compact array.
pub fn should_format_as_compact_array(
    item: &ItemRef,
    options: &FracturedJsonOptions,
    _indent: usize,
) -> (r: bool)
    requires
        item.wf(*options),
    ensures
        r == compact_eligible(item.node(), *options),
{
    if item.item_type() != JsonItemType::Array {
        return false;
    }
    if item.is_empty() {
        return false;
    }
    if item.requires_multiple_lines() {
        return false;
    }
    if item.complexity() > options.max_compact_array_complexity {
        return false;
    }
    if counts_comment(item, options) {
        return false;
    }
    if item.children.len() < options.min_compact_array_row_items {
        return false;
    }
    true
}

/// Whether the item may be rendered as a table.
pub fn should_format_as_table(
    item: &ItemRef,
    options: &FracturedJsonOptions,
    _indent: usize,
) -> (r: bool)
    requires
        item.wf(*options),
    ensures
        r == table_eligible(item.node(), *options),
{
    if item.item_type() == JsonItemType::Array {
        if item.requires_multiple_lines() {
            return false;
        }
        if item.is_empty() {
            return false;
        }
        if item.complexity() > options.max_table_row_complexity {
            return false;
        }
        if !can_format_as_table_array(item, options) {
            return false;
        }
        return true;
    }
    if item.item_type() == JsonItemType::Object {
        if item.is_empty() {
            return false;
        }
        if item.complexity() > options.max_table_row_complexity {
            return false;
        }
        if !can_format_as_table_object(item, options) {
            return false;
        }
        return true;
    }
    false
}

/// Whether the children of an array are rows of one kind.
pub fn can_format_as_table_array(item: &ItemRef, options: &FracturedJsonOptions) -> (r: bool)
    requires
        item.wf(*options),
    ensures
        r == uniform_rows(item.node()),
{
    if item.children.len() == 0 {
        return false;
    }
    proof {
        item.lemma_child(*options, 0);
    }
    let first_type = get_item_type_for_table(&item.children[0]);
    if first_type.is_none() {
        return false;
    }
    let mut i: usize = 0;
    while i < item.children.len()
        invariant
            i <= item.children.len(),
            item.wf(*options),
            item.children.len() > 0,
            first_type == table_row_kind(item.node().children[0]),
            forall|j: int|
                0 <= j < i ==> table_row_kind(#[trigger] item.node().children[j]) == first_type,
        decreases item.children.len() - i,
    {
        proof {
            item.lemma_child(*options, i as int);
        }
        let kind = get_item_type_for_table(&item.children[i]);
        if !same_kind(kind, first_type) {
            return false;
        }
        i += 1;
    }
    true
}

fn same_kind(a: Option<JsonItemType>, b: Option<JsonItemType>) -> (r: bool)
    ensures
        r == (a == b),
{
    match (a, b) {
        (Some(x), Some(y)) => x == y,
        (None, None) => true,
        _ => false,
    }
}

/// Whether the children of an object are objects with the same member
/// names in the same order.
pub fn can_format_as_table_object(item: &ItemRef, options: &FracturedJsonOptions) -> (r: bool)
    requires
        item.wf(*options),
    ensures
        r == uniform_members(item.node()),
{
    if item.children.len() == 0 {
        return false;
    }
    proof {
        item.lemma_child(*options, 0);
    }
    let first = &item.children[0];
    if first.item_type() != JsonItemType::Object || first.children.len() == 0 {
        return false;
    }
    let mut i: usize = 0;
    while i < item.children.len()
        invariant
            i <= item.children.len(),
            item.wf(*options),
            item.children.len() > 0,
            *first == item.children[0],
            forall|j: int|
                0 <= j < i ==> property_names(#[trigger] item.node().children[j])
                    == property_names(item.node().children[0]),
        decreases item.children.len() - i,
    {
        proof {
            item.lemma_child(*options, i as int);
        }
        if !same_property_names(first, &item.children[i], options) {
            return false;
        }
        i += 1;
    }
    true
}

/// The kind under which the item can be a table row, if any.
pub fn get_item_type_for_table(item: &ItemRef) -> (r: Option<JsonItemType>)
    ensures
        r == table_row_kind(item.node()),
{
    match item.item_type() {
        JsonItemType::Object => {
            if item.is_empty() {
                None
            } else {
                Some(JsonItemType::Object)
            }
        },
        JsonItemType::Array => {
            if item.is_empty() {
                None
            } else {
                Some(JsonItemType::Array)
            }
        },
        JsonItemType::String => Some(JsonItemType::String),
        JsonItemType::Number => Some(JsonItemType::Number),
        JsonItemType::True => Some(JsonItemType::True),
        JsonItemType::False => Some(JsonItemType::False),
        JsonItemType::Null => Some(JsonItemType::Null),
        _ => None,
    }
}

/// Whether two items have the same member names in the same order, where
/// an item that is no object counts as having none.
pub fn same_property_names(a: &ItemRef, b: &ItemRef, options: &FracturedJsonOptions) -> (r: bool)
    requires
        a.wf(*options),
        b.wf(*options),
    ensures
        r == (property_names(a.node()) == property_names(b.node())),
{
    let a_count: usize = if a.item_type() == JsonItemType::Object {
        a.children.len()
    } else {
        0
    };
    let b_count: usize = if b.item_type() == JsonItemType::Object {
        b.children.len()
    } else {
        0
    };
    assert(a.node().children.len() == a.children.len());
    assert(b.node().children.len() == b.children.len());
    if a_count != b_count {
        assert(property_names(a.node()).len() != property_names(b.node()).len());
        return false;
    }
    let mut i: usize = 0;
    while i < a_count
        invariant
            i <= a_count,
            a_count == b_count,
            a.wf(*options),
            b.wf(*options),
            a_count == property_names(a.node()).len(),
            b_count == property_names(b.node()).len(),
            forall|j: int|
                0 <= j < i ==> property_names(a.node())[j] == property_names(b.node())[j],
        decreases a_count - i,
    {
        proof {
            a.lemma_child(*options, i as int);
            b.lemma_child(*options, i as int);
        }
        if a.children[i].item.name != b.children[i].item.name {
            assert(property_names(a.node())[i as int] != property_names(b.node())[i as int]);
            return false;
        }
        i += 1;
    }
    assert(property_names(a.node()) =~= property_names(b.node()));
    true
}

/// Chooses the layout of a container at the given indentation depth.
pub fn select_layout(item: &ItemRef, options: &FracturedJsonOptions, indent: usize) -> (r:
    LayoutMode)
    requires
        item.wf(*options),
    ensures
        r == layout_mode(item.node(), *options, indent as nat),
{
    if should_inline(item, options, indent) {
        LayoutMode::Inline
    } else if should_format_as_compact_array(item, options, indent) {
        LayoutMode::CompactArray
    } else if should_format_as_table(item, options, indent) {
        LayoutMode::Table
    } else {
        LayoutMode::Expanded
    }
}

} // verus!
