//! What inline means: a container that is rendered inline comes out as a
//! single line.

use crate::computed::{carries_comment, forces_multiline, lemma_forcing_reaches_parent};
use crate::layout::{inline_eligible, layout_mode, lemma_inline_is_hereditary, LayoutMode};
use crate::options::FracturedJsonOptions;
use crate::render::{
    inline_array_item, inline_array_items, inline_array_text, inline_object_item,
    inline_object_items, inline_object_text, inline_value_text, item_text, middle_comment_text,
    postfix_comment_text, prefix_comment_text, scalar_text,
};
use crate::text::{
    comma, escape_char, escape_text, indentation, padding, quoted, quoted_name,
};
use crate::types::{JsonItemType, Node};
use vstd::prelude::*;

verus! {

/// Whether a text holds no line feed and no carriage return.
pub open spec fn one_line(s: Seq<char>) -> bool {
    forall|i: int| 0 <= i < s.len() ==> #[trigger] s[i] != '\n' && s[i] != '\r'
}

/// Whether the raw texts of a tree that are written out as they stand hold
/// no line break: every name, and every value but those of strings, which
/// are escaped.
pub open spec fn raw_texts_on_one_line(node: Node) -> bool
    decreases node,
{
    &&& one_line(node.name)
    &&& node.kind != JsonItemType::String ==> one_line(node.value)
    &&& forall|i: int|
        0 <= i < node.children.len() ==> raw_texts_on_one_line(#[trigger] node.children[i])
}

/// Two texts on one line each are on one line together.
pub proof fn lemma_one_line_concat(a: Seq<char>, b: Seq<char>)
    requires
        one_line(a),
        one_line(b),
    ensures
        one_line(a + b),
{
    assert forall|i: int| 0 <= i < (a + b).len() implies #[trigger] (a + b)[i] != '\n' && (a
        + b)[i] != '\r' by {
        if i < a.len() {
            assert((a + b)[i] == a[i]);
        } else {
            assert((a + b)[i] == b[i - a.len()]);
        }
    }
}

/// An escaped text holds no line break.
pub proof fn lemma_escaped_on_one_line(s: Seq<char>)
    ensures
        one_line(escape_text(s)),
    decreases s.len(),
{
    if s.len() > 0 {
        lemma_escaped_on_one_line(s.drop_last());
        assert(one_line(escape_char(s.last())));
        lemma_one_line_concat(escape_text(s.drop_last()), escape_char(s.last()));
    }
}

proof fn lemma_pieces_on_one_line(opts: FracturedJsonOptions, indent: nat, on: bool)
    ensures
        one_line(indentation(opts, indent)),
        one_line(padding(on)),
        one_line(comma(opts)),
        one_line(Seq::<char>::empty()),
        one_line(seq![':']),
        one_line(seq!['[']),
        one_line(seq![']']),
        one_line(seq!['{']),
        one_line(seq!['}']),
        one_line(seq!['"']),
{
    lemma_one_line_concat(seq![','], padding(opts.comma_padding));
}

proof fn lemma_scalar_on_one_line(node: Node, opts: FracturedJsonOptions)
    requires
        raw_texts_on_one_line(node),
    ensures
        one_line(scalar_text(node, opts)),
{
    lemma_pieces_on_one_line(opts, 0, true);
    if node.kind == JsonItemType::String {
        lemma_escaped_on_one_line(node.value);
        lemma_one_line_concat(seq!['"'], escape_text(node.value));
        lemma_one_line_concat(seq!['"'] + escape_text(node.value), seq!['"']);
    }
}

proof fn lemma_no_comment_texts(parent: Node, opts: FracturedJsonOptions, indent: nat, i: int)
    requires
        parent.is_container(),
        0 <= i < parent.children.len(),
        !forces_multiline(parent, opts),
    ensures
        prefix_comment_text(parent.children[i], opts) == Seq::<char>::empty(),
        middle_comment_text(parent.children[i], opts, indent) == Seq::<char>::empty(),
        postfix_comment_text(parent.children[i], opts) == Seq::<char>::empty(),
{
    if carries_comment(parent.children[i], opts) {
        lemma_forcing_reaches_parent(parent, opts, i);
    }
}

proof fn lemma_inline_value_on_one_line(
    parent: Node,
    opts: FracturedJsonOptions,
    indent: nat,
    i: int,
)
    requires
        parent.is_container(),
        0 <= i < parent.children.len(),
        inline_eligible(parent, opts, indent),
        raw_texts_on_one_line(parent),
    ensures
        one_line(inline_value_text(parent.children[i], opts, 0)),
    decreases parent, 0nat, 0nat,
{
    let child = parent.children[i];
    if child.is_container() {
        lemma_inline_is_hereditary(parent, opts, indent, i);
        lemma_inline_on_one_line(child, opts, 0);
    } else {
        lemma_scalar_on_one_line(child, opts);
    }
}

proof fn lemma_inline_array_items_on_one_line(
    node: Node,
    opts: FracturedJsonOptions,
    indent: nat,
    upto: nat,
)
    requires
        node.is_container(),
        inline_eligible(node, opts, indent),
        raw_texts_on_one_line(node),
    ensures
        one_line(inline_array_items(node, opts, upto)),
    decreases node, 1nat, upto,
{
    lemma_pieces_on_one_line(opts, 0, true);
    if upto == 0 || upto > node.children.len() {
    } else {
        let i = upto - 1;
        lemma_inline_array_items_on_one_line(node, opts, indent, (upto - 1) as nat);
        lemma_inline_value_on_one_line(node, opts, indent, i);
        lemma_no_comment_texts(node, opts, 0, i);
        let separator = if i > 0 {
            comma(opts)
        } else {
            Seq::empty()
        };
        let value = inline_value_text(node.children[i], opts, 0);
        lemma_one_line_concat(separator, Seq::empty());
        lemma_one_line_concat(separator + Seq::empty(), value);
        lemma_one_line_concat(separator + Seq::empty() + value, Seq::empty());
        assert(one_line(inline_array_item(node, opts, i)));
        lemma_one_line_concat(
            inline_array_items(node, opts, (upto - 1) as nat),
            inline_array_item(node, opts, i),
        );
    }
}

proof fn lemma_inline_object_items_on_one_line(
    node: Node,
    opts: FracturedJsonOptions,
    indent: nat,
    upto: nat,
)
    requires
        node.is_container(),
        inline_eligible(node, opts, indent),
        raw_texts_on_one_line(node),
    ensures
        one_line(inline_object_items(node, opts, indent, upto)),
    decreases node, 1nat, upto,
{
    lemma_pieces_on_one_line(opts, 0, opts.colon_padding);
    if upto == 0 || upto > node.children.len() {
    } else {
        let i = upto - 1;
        let child = node.children[i];
        lemma_inline_object_items_on_one_line(node, opts, indent, (upto - 1) as nat);
        lemma_inline_value_on_one_line(node, opts, indent, i);
        lemma_no_comment_texts(node, opts, indent, i);
        let separator = if i > 0 {
            comma(opts)
        } else {
            Seq::empty()
        };
        let empty = Seq::<char>::empty();
        let value = inline_value_text(child, opts, 0);
        assert(raw_texts_on_one_line(child));
        lemma_one_line_concat(separator, value);
        lemma_one_line_concat(seq!['"'], child.name);
        lemma_one_line_concat(seq!['"'] + child.name, seq!['"']);
        lemma_one_line_concat(separator, empty);
        lemma_one_line_concat(separator + empty, quoted_name(child.name));
        lemma_one_line_concat(separator + empty + quoted_name(child.name), seq![':']);
        lemma_one_line_concat(
            separator + empty + quoted_name(child.name) + seq![':'],
            padding(opts.colon_padding),
        );
        lemma_one_line_concat(
            separator + empty + quoted_name(child.name) + seq![':'] + padding(opts.colon_padding),
            empty,
        );
        lemma_one_line_concat(
            separator + empty + quoted_name(child.name) + seq![':'] + padding(opts.colon_padding)
                + empty,
            value,
        );
        lemma_one_line_concat(
            separator + empty + quoted_name(child.name) + seq![':'] + padding(opts.colon_padding)
                + empty + value,
            empty,
        );
        assert(one_line(inline_object_item(node, opts, indent, i)));
        lemma_one_line_concat(
            inline_object_items(node, opts, indent, (upto - 1) as nat),
            inline_object_item(node, opts, indent, i),
        );
    }
}

/// A container that is rendered inline comes out as a single line: its
/// text holds no line break, provided the names and the raw values that
/// are written as they stand hold none.
pub proof fn lemma_inline_on_one_line(node: Node, opts: FracturedJsonOptions, indent: nat)
    requires
        node.is_container(),
        layout_mode(node, opts, indent) == LayoutMode::Inline,
        raw_texts_on_one_line(node),
    ensures
        one_line(item_text(node, opts, indent)),
    decreases node, 2nat, 0nat,
{
    lemma_pieces_on_one_line(opts, indent, opts.nested_bracket_padding);
    lemma_pieces_on_one_line(opts, indent, opts.simple_bracket_padding);
    if node.kind == JsonItemType::Array {
        lemma_inline_array_items_on_one_line(node, opts, indent, node.children.len());
        let inner = if node.children.len() > 0 {
            padding(opts.nested_bracket_padding) + inline_array_items(
                node,
                opts,
                node.children.len(),
            ) + padding(opts.nested_bracket_padding)
        } else {
            padding(opts.simple_bracket_padding)
        };
        lemma_one_line_concat(
            padding(opts.nested_bracket_padding),
            inline_array_items(node, opts, node.children.len()),
        );
        lemma_one_line_concat(
            padding(opts.nested_bracket_padding) + inline_array_items(
                node,
                opts,
                node.children.len(),
            ),
            padding(opts.nested_bracket_padding),
        );
        lemma_one_line_concat(indentation(opts, indent), seq!['[']);
        lemma_one_line_concat(indentation(opts, indent) + seq!['['], inner);
        lemma_one_line_concat(indentation(opts, indent) + seq!['['] + inner, seq![']']);
        assert(item_text(node, opts, indent) == inline_array_text(node, opts, indent));
    } else {
        lemma_inline_object_items_on_one_line(node, opts, indent, node.children.len());
        let inner = if node.children.len() > 0 {
            padding(opts.nested_bracket_padding) + inline_object_items(
                node,
                opts,
                indent,
                node.children.len(),
            ) + padding(opts.nested_bracket_padding)
        } else {
            padding(opts.simple_bracket_padding)
        };
        lemma_one_line_concat(
            padding(opts.nested_bracket_padding),
            inline_object_items(node, opts, indent, node.children.len()),
        );
        lemma_one_line_concat(
            padding(opts.nested_bracket_padding) + inline_object_items(
                node,
                opts,
                indent,
                node.children.len(),
            ),
            padding(opts.nested_bracket_padding),
        );
        lemma_one_line_concat(indentation(opts, indent), seq!['{']);
        lemma_one_line_concat(indentation(opts, indent) + seq!['{'], inner);
        lemma_one_line_concat(indentation(opts, indent) + seq!['{'] + inner, seq!['}']);
        assert(item_text(node, opts, indent) == inline_object_text(node, opts, indent));
    }
}

} // verus!
