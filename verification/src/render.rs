//! What the renderers write, as mathematical text: for every item, set of
//! options and indentation depth, the exact characters of its rendering.

use crate::computed::children_length;
use crate::layout::{layout_mode, LayoutMode};
use crate::numbers::aligned_number;
use crate::options::{FracturedJsonOptions, NumberListAlignment};
use crate::table::{
    column_widths, false_text, null_text, table_row_text, true_text,
};
use crate::text::{byte_len, comma, fill, indentation, padding, quoted, quoted_name, spaces};
use crate::types::{JsonItemType, Node};
use vstd::prelude::*;

verus! {

/// The comment before an item, with a space on either side under comment
/// padding; nothing if there is none or comments are removed.
pub open spec fn prefix_comment_text(node: Node, opts: FracturedJsonOptions) -> Seq<char> {
    match node.prefix_comment {
        Some(comment) => if opts.keeps_comments() {
            padding(opts.comment_padding) + comment + padding(opts.comment_padding)
        } else {
            Seq::empty()
        },
        None => Seq::empty(),
    }
}

/// The comment between a member's colon and its value, on a line of its
/// own at depth `indent`, after which the value starts on a new indented
/// line; nothing if there is none or comments are removed.
pub open spec fn middle_comment_text(node: Node, opts: FracturedJsonOptions, indent: nat) -> Seq<
    char,
> {
    match node.middle_comment {
        Some(comment) => if opts.keeps_comments() {
            opts.eol() + indentation(opts, indent) + comment + opts.eol() + indentation(
                opts,
                indent,
            )
        } else {
            Seq::empty()
        },
        None => Seq::empty(),
    }
}

/// The comment after an item, after a space under comment padding; nothing
/// if there is none or comments are removed.
pub open spec fn postfix_comment_text(node: Node, opts: FracturedJsonOptions) -> Seq<char> {
    match node.postfix_comment {
        Some(comment) => if opts.keeps_comments() {
            padding(opts.comment_padding) + comment
        } else {
            Seq::empty()
        },
        None => Seq::empty(),
    }
}

/// The text of an item that is no container, without indentation: a
/// string quoted and escaped, a number as it stands, the three keywords, a
/// comment verbatim while comments are kept, nothing for a blank line.
pub open spec fn scalar_text(node: Node, opts: FracturedJsonOptions) -> Seq<char> {
    match node.kind {
        JsonItemType::String => quoted(node.value),
        JsonItemType::Number => node.value,
        JsonItemType::True => true_text(),
        JsonItemType::False => false_text(),
        JsonItemType::Null => null_text(),
        JsonItemType::LineComment | JsonItemType::BlockComment => if opts.keeps_comments() {
            node.value
        } else {
            Seq::empty()
        },
        _ => Seq::empty(),
    }
}

/// The text of an item that is no container, as a line of its own at depth
/// `indent`: a value after its indentation, a comment after its
/// indentation while comments are kept, a line ending for a blank line.
pub open spec fn leaf_text(node: Node, opts: FracturedJsonOptions, indent: nat) -> Seq<char> {
    match node.kind {
        JsonItemType::LineComment | JsonItemType::BlockComment => if opts.keeps_comments() {
            indentation(opts, indent) + node.value
        } else {
            Seq::empty()
        },
        JsonItemType::BlankLine => opts.eol(),
        _ => indentation(opts, indent) + scalar_text(node, opts),
    }
}

/// Whether a container has a child that is neither a comment nor a blank
/// line.
pub open spec fn has_members(node: Node) -> bool {
    exists|i: int|
        0 <= i < node.children.len() && !(#[trigger] node.children[i]).kind.spec_is_comment_or_blank()
}

/// Whether child `i` of an object is written: every child is, but a
/// comment or blank line in an object that has members.
pub open spec fn member_written(node: Node, i: int) -> bool {
    !(has_members(node) && node.children[i].kind.spec_is_comment_or_blank())
}

/// Whether one of the first `upto` children of an object is written.
#[verifier::opaque]
pub open spec fn written_before(node: Node, upto: nat) -> bool
    decreases upto,
{
    if upto == 0 || upto > node.children.len() {
        false
    } else {
        member_written(node, upto - 1) || written_before(node, (upto - 1) as nat)
    }
}

/// The position of the last child among the first `upto` children of an
/// object that is written, or -1 if none of them is.
#[verifier::opaque]
pub open spec fn last_written(node: Node, upto: nat) -> int
    decreases upto,
{
    if upto == 0 || upto > node.children.len() {
        -1
    } else if member_written(node, upto - 1) {
        upto - 1
    } else {
        last_written(node, (upto - 1) as nat)
    }
}

/// Counting one child more: something is written among the first `i + 1`
/// children if child `i` is or something was before it, and the last
/// written of them is child `i` if it is written, else the last before it.
pub proof fn lemma_written_step(node: Node, i: int)
    requires
        0 <= i < node.children.len(),
    ensures
        !written_before(node, 0),
        last_written(node, 0) == -1,
        written_before(node, (i + 1) as nat) == (member_written(node, i) || written_before(
            node,
            i as nat,
        )),
        last_written(node, (i + 1) as nat) == (if member_written(node, i) {
            i
        } else {
            last_written(node, i as nat)
        }),
{
    reveal_with_fuel(written_before, 2);
    reveal_with_fuel(last_written, 2);
}

/// Of no children none is written.
pub proof fn lemma_written_none(node: Node)
    ensures
        !written_before(node, 0),
        last_written(node, 0) == -1,
{
    reveal(written_before);
    reveal(last_written);
}

/// What stands before child `i` of an inline object where it is written:
/// a separator if a child was written before it.
pub open spec fn member_lead(node: Node, opts: FracturedJsonOptions, i: int) -> Seq<char> {
    if 0 <= i && written_before(node, i as nat) {
        comma(opts)
    } else {
        Seq::empty()
    }
}

/// What follows member `i` on its expanded line: a comma unless it is the
/// last child of the object that is written, and after that one too where
/// trailing commas are allowed.
pub open spec fn member_separator(node: Node, opts: FracturedJsonOptions, i: int) -> Seq<char> {
    if i != last_written(node, node.children.len()) || opts.allow_trailing_commas {
        comma(opts)
    } else {
        Seq::empty()
    }
}

/// The largest byte length of a name among the first `upto` children.
pub open spec fn max_name_length(node: Node, upto: nat) -> nat
    decreases upto,
{
    if upto == 0 || upto > node.children.len() {
        0
    } else {
        let last = byte_len(node.children[upto - 1].name);
        let rest = max_name_length(node, (upto - 1) as nat);
        if last > rest {
            last
        } else {
            rest
        }
    }
}

/// The width to which the member names of an object are padded: that of
/// its longest name, but no more than the options allow.
pub open spec fn name_width(node: Node, opts: FracturedJsonOptions) -> nat {
    let longest = max_name_length(node, node.children.len());
    if longest < opts.max_prop_name_padding {
        longest
    } else {
        opts.max_prop_name_padding as nat
    }
}

/// A member's quoted name and colon on an expanded line: the name is
/// padded to `width` before the colon, unless the colon is to stand right
/// after the name; a space follows under colon padding.
pub open spec fn member_label(child: Node, opts: FracturedJsonOptions, width: nat) -> Seq<char> {
    quoted_name(child.name) + (if opts.colon_before_prop_name_padding {
        Seq::empty()
    } else {
        spaces(fill(width, byte_len(child.name)))
    }) + seq![':'] + padding(opts.colon_padding)
}

/// The raw texts of all children, in order.
pub open spec fn number_values(node: Node) -> Seq<Seq<char>> {
    Seq::new(node.children.len(), |i: int| node.children[i].value)
}

/// Whether the children are aligned as a list of numbers: alignment is
/// asked for and every child is a number.
pub open spec fn aligns_numbers(node: Node, opts: FracturedJsonOptions) -> bool {
    &&& opts.number_list_alignment != NumberListAlignment::Unaligned
    &&& forall|i: int|
        0 <= i < node.children.len() ==> (#[trigger] node.children[i]).kind
            == JsonItemType::Number
}

/// What follows child `i` on its expanded line: a comma unless it is the
/// last child, and after the last one too where trailing commas are
/// allowed.
pub open spec fn separator_after(node: Node, opts: FracturedJsonOptions, i: int) -> Seq<char> {
    if i != node.children.len() - 1 || opts.allow_trailing_commas {
        comma(opts)
    } else {
        Seq::empty()
    }
}

/// How many children a compact array puts on one line at depth `indent`:
/// the width left after the indentation of the rows, divided by the average
/// minimum length of a child, and at least one.
pub open spec fn items_per_row(node: Node, opts: FracturedJsonOptions, indent: nat) -> nat {
    let available = opts.max_total_line_length - (indent + 1) * opts.indent_spaces;
    if node.children.len() == 0 {
        1
    } else {
        let average = children_length(node, opts, node.children.len()) / node.children.len();
        if average == 0 || available < average {
            1
        } else {
            (available / (average as int)) as nat
        }
    }
}

/// The rendering of a value inside a line: a container as `item_text`
/// gives it at depth `indent`, anything else without indentation.
pub open spec fn inline_value_text(node: Node, opts: FracturedJsonOptions, indent: nat) -> Seq<
    char,
>
    decreases node, 4nat, 0nat,
{
    if node.is_container() {
        item_text(node, opts, indent)
    } else {
        scalar_text(node, opts)
    }
}

/// The rendering of an item at depth `indent`. An object or array is
/// rendered in the layout that `layout_mode` chooses for it; anything else
/// as `leaf_text` gives it.
pub open spec fn item_text(node: Node, opts: FracturedJsonOptions, indent: nat) -> Seq<char>
    decreases node, 3nat, 0nat,
{
    match node.kind {
        JsonItemType::Array => match layout_mode(node, opts, indent) {
            LayoutMode::Inline => inline_array_text(node, opts, indent),
            LayoutMode::CompactArray => compact_array_text(node, opts, indent),
            LayoutMode::Table => table_array_text(node, opts, indent),
            LayoutMode::Expanded => expanded_array_text(node, opts, indent),
        },
        JsonItemType::Object => match layout_mode(node, opts, indent) {
            LayoutMode::Inline => inline_object_text(node, opts, indent),
            LayoutMode::Table => table_object_text(node, opts, indent),
            _ => expanded_object_text(node, opts, indent),
        },
        _ => leaf_text(node, opts, indent),
    }
}

/// Element `i` of an inline array: a separator before all but the first,
/// then the element between its comments.
pub open spec fn inline_array_item(node: Node, opts: FracturedJsonOptions, i: int) -> Seq<char>
    decreases node, 0nat, 0nat,
{
    if 0 <= i < node.children.len() {
        let child = node.children[i];
        (if i > 0 {
            comma(opts)
        } else {
            Seq::empty()
        }) + prefix_comment_text(child, opts) + inline_value_text(child, opts, 0)
            + postfix_comment_text(child, opts)
    } else {
        Seq::empty()
    }
}

/// The first `upto` elements of an inline array.
pub open spec fn inline_array_items(node: Node, opts: FracturedJsonOptions, upto: nat) -> Seq<char>
    decreases node, 1nat, upto,
{
    if upto == 0 || upto > node.children.len() {
        Seq::empty()
    } else {
        inline_array_items(node, opts, (upto - 1) as nat) + inline_array_item(node, opts, upto - 1)
    }
}

/// An array on one line: its elements between brackets, with a space
/// inside each bracket under nested bracket padding; an empty array holds
/// one space under simple bracket padding.
pub open spec fn inline_array_text(node: Node, opts: FracturedJsonOptions, indent: nat) -> Seq<
    char,
>
    decreases node, 2nat, 0nat,
{
    indentation(opts, indent) + seq!['['] + (if node.children.len() > 0 {
        padding(opts.nested_bracket_padding) + inline_array_items(
            node,
            opts,
            node.children.len(),
        ) + padding(opts.nested_bracket_padding)
    } else {
        padding(opts.simple_bracket_padding)
    }) + seq![']']
}

/// Member `i` of an inline object. In an object without members, a comment
/// child is written as it stands. In an object with members, a comment or
/// blank-line child is left out. Anything else is written as a member: its
/// quoted name, a colon, and its value between its comments. A separator
/// stands before what is written if something was written before it.
pub open spec fn inline_object_item(
    node: Node,
    opts: FracturedJsonOptions,
    indent: nat,
    i: int,
) -> Seq<char>
    decreases node, 0nat, 0nat,
{
    if 0 <= i < node.children.len() {
        let child = node.children[i];
        let separator = member_lead(node, opts, i);
        if !has_members(node) && child.kind.spec_is_comment() {
            separator + inline_value_text(child, opts, 0)
        } else if has_members(node) && child.kind.spec_is_comment_or_blank() {
            Seq::empty()
        } else {
            separator + prefix_comment_text(child, opts) + quoted_name(child.name) + seq![':']
                + padding(opts.colon_padding) + middle_comment_text(child, opts, indent)
                + inline_value_text(child, opts, 0) + postfix_comment_text(child, opts)
        }
    } else {
        Seq::empty()
    }
}

/// The first `upto` members of an inline object.
pub open spec fn inline_object_items(
    node: Node,
    opts: FracturedJsonOptions,
    indent: nat,
    upto: nat,
) -> Seq<char>
    decreases node, 1nat, upto,
{
    if upto == 0 || upto > node.children.len() {
        Seq::empty()
    } else {
        inline_object_items(node, opts, indent, (upto - 1) as nat) + inline_object_item(
            node,
            opts,
            indent,
            upto - 1,
        )
    }
}

/// An object on one line: its members between braces, padded as an inline
/// array is.
pub open spec fn inline_object_text(node: Node, opts: FracturedJsonOptions, indent: nat) -> Seq<
    char,
>
    decreases node, 2nat, 0nat,
{
    indentation(opts, indent) + seq!['{'] + (if node.children.len() > 0 {
        padding(opts.nested_bracket_padding) + inline_object_items(
            node,
            opts,
            indent,
            node.children.len(),
        ) + padding(opts.nested_bracket_padding)
    } else {
        padding(opts.simple_bracket_padding)
    }) + seq!['}']
}

/// The value of child `i` in a list that may align numbers: the aligned
/// number where the list is aligned, `otherwise` where it is not.
pub open spec fn list_value_text(
    node: Node,
    opts: FracturedJsonOptions,
    i: int,
    otherwise: Seq<char>,
) -> Seq<char> {
    if aligns_numbers(node, opts) && node.children[i].kind == JsonItemType::Number {
        aligned_number(node.children[i].value, opts, number_values(node))
    } else {
        otherwise
    }
}

/// The line of element `i` of an expanded array: indentation, the element
/// between its comments, rendered at the next depth or as an aligned
/// number, then the separator and the line ending.
pub open spec fn expanded_array_row(
    node: Node,
    opts: FracturedJsonOptions,
    indent: nat,
    i: int,
) -> Seq<char>
    decreases node, 0nat, 0nat,
{
    if 0 <= i < node.children.len() {
        let child = node.children[i];
        indentation(opts, indent + 1) + prefix_comment_text(child, opts) + list_value_text(
            node,
            opts,
            i,
            item_text(child, opts, indent + 1),
        ) + postfix_comment_text(child, opts) + separator_after(node, opts, i) + opts.eol()
    } else {
        Seq::empty()
    }
}

/// The lines of the first `upto` elements of an expanded array.
pub open spec fn expanded_array_rows(
    node: Node,
    opts: FracturedJsonOptions,
    indent: nat,
    upto: nat,
) -> Seq<char>
    decreases node, 1nat, upto,
{
    if upto == 0 || upto > node.children.len() {
        Seq::empty()
    } else {
        expanded_array_rows(node, opts, indent, (upto - 1) as nat) + expanded_array_row(
            node,
            opts,
            indent,
            upto - 1,
        )
    }
}

/// An array with one element per line: the opening bracket on its own
/// line, the lines of the elements, and the closing bracket at the depth of
/// the array.
pub open spec fn expanded_array_text(node: Node, opts: FracturedJsonOptions, indent: nat) -> Seq<
    char,
>
    decreases node, 2nat, 0nat,
{
    indentation(opts, indent) + seq!['['] + opts.eol() + expanded_array_rows(
        node,
        opts,
        indent,
        node.children.len(),
    ) + indentation(opts, indent) + seq![']']
}

/// The line of member `i` of an expanded object. In an object without
/// members, a comment child stands on a line of its own. In an object with
/// members, a comment or blank-line child is left out. Anything else is a
/// member line: indentation, the comment before it, its padded name and
/// colon, the comment in the middle, the value rendered at the next depth,
/// the comment after it, the separator unless it is the last child written,
/// and the line ending.
pub open spec fn expanded_object_row(
    node: Node,
    opts: FracturedJsonOptions,
    indent: nat,
    i: int,
) -> Seq<char>
    decreases node, 0nat, 0nat,
{
    if 0 <= i < node.children.len() {
        let child = node.children[i];
        if !has_members(node) && child.kind.spec_is_comment() {
            indentation(opts, indent + 1) + item_text(child, opts, indent + 1) + opts.eol()
        } else if has_members(node) && child.kind.spec_is_comment_or_blank() {
            Seq::empty()
        } else {
            indentation(opts, indent + 1) + prefix_comment_text(child, opts) + member_label(
                child,
                opts,
                name_width(node, opts),
            ) + middle_comment_text(child, opts, indent + 1) + item_text(child, opts, indent + 1)
                + postfix_comment_text(child, opts) + member_separator(node, opts, i) + opts.eol()
        }
    } else {
        Seq::empty()
    }
}

/// The lines of the first `upto` members of an expanded object.
pub open spec fn expanded_object_rows(
    node: Node,
    opts: FracturedJsonOptions,
    indent: nat,
    upto: nat,
) -> Seq<char>
    decreases node, 1nat, upto,
{
    if upto == 0 || upto > node.children.len() {
        Seq::empty()
    } else {
        expanded_object_rows(node, opts, indent, (upto - 1) as nat) + expanded_object_row(
            node,
            opts,
            indent,
            upto - 1,
        )
    }
}

/// An object with one member per line, between braces on lines of their
/// own.
pub open spec fn expanded_object_text(node: Node, opts: FracturedJsonOptions, indent: nat) -> Seq<
    char,
>
    decreases node, 2nat, 0nat,
{
    indentation(opts, indent) + seq!['{'] + opts.eol() + expanded_object_rows(
        node,
        opts,
        indent,
        node.children.len(),
    ) + indentation(opts, indent) + seq!['}']
}

/// An object whose members are rows of one shape: one member per line
/// with the names padded to a common width, as in the expanded layout.
pub open spec fn table_object_text(node: Node, opts: FracturedJsonOptions, indent: nat) -> Seq<
    char,
>
    decreases node, 2nat, 1nat,
{
    expanded_object_text(node, opts, indent)
}

/// Element `i` of a compact array that holds `per_row` elements a line:
/// indentation before the first element of a line, the element between its
/// comments, a comma unless it is the last of all, a space under comma
/// padding unless it ends the line, and the line ending after the last
/// element of a line.
pub open spec fn compact_array_item(
    node: Node,
    opts: FracturedJsonOptions,
    indent: nat,
    per_row: nat,
    i: int,
) -> Seq<char>
    decreases node, 0nat, 0nat,
{
    if 0 <= i < node.children.len() && per_row > 0 {
        let child = node.children[i];
        let ends_line = (i + 1) % (per_row as int) == 0 || i == node.children.len() - 1;
        (if i % (per_row as int) == 0 {
            indentation(opts, indent + 1)
        } else {
            Seq::empty()
        }) + prefix_comment_text(child, opts) + list_value_text(
            node,
            opts,
            i,
            inline_value_text(child, opts, 0),
        ) + postfix_comment_text(child, opts) + (if i < node.children.len() - 1 {
            seq![','] + padding(opts.comma_padding && !ends_line)
        } else {
            Seq::empty()
        }) + (if ends_line {
            opts.eol()
        } else {
            Seq::empty()
        })
    } else {
        Seq::empty()
    }
}

/// The first `upto` elements of a compact array.
pub open spec fn compact_array_items(
    node: Node,
    opts: FracturedJsonOptions,
    indent: nat,
    per_row: nat,
    upto: nat,
) -> Seq<char>
    decreases node, 1nat, upto,
{
    if upto == 0 || upto > node.children.len() {
        Seq::empty()
    } else {
        compact_array_items(node, opts, indent, per_row, (upto - 1) as nat) + compact_array_item(
            node,
            opts,
            indent,
            per_row,
            upto - 1,
        )
    }
}

/// An array packed several elements to a line: the opening bracket on its
/// own line, lines of `items_per_row` elements each, and the closing
/// bracket at the depth of the array.
pub open spec fn compact_array_text(node: Node, opts: FracturedJsonOptions, indent: nat) -> Seq<
    char,
>
    decreases node, 2nat, 0nat,
{
    indentation(opts, indent) + seq!['['] + opts.eol() + compact_array_items(
        node,
        opts,
        indent,
        items_per_row(node, opts, indent),
        node.children.len(),
    ) + indentation(opts, indent) + seq![']']
}

/// The lines of the first `upto` rows of a table.
pub open spec fn table_rows(
    rows: Seq<Node>,
    widths: Seq<nat>,
    opts: FracturedJsonOptions,
    indent: nat,
    upto: nat,
) -> Seq<char>
    decreases upto,
{
    if upto == 0 || upto > rows.len() {
        Seq::empty()
    } else {
        table_rows(rows, widths, opts, indent, (upto - 1) as nat) + table_row_text(
            rows[upto - 1],
            widths,
            opts,
            indent,
            upto == rows.len(),
        )
    }
}

/// An array as a table: the opening bracket on its own line, one line per
/// child with the cells padded to the column widths computed at the depth
/// of the rows, and the closing bracket at the depth of the array.
pub open spec fn table_array_text(node: Node, opts: FracturedJsonOptions, indent: nat) -> Seq<
    char,
> {
    indentation(opts, indent) + seq!['['] + opts.eol() + table_rows(
        node.children,
        column_widths(node.children, opts, indent + 1),
        opts,
        indent + 1,
        node.children.len(),
    ) + indentation(opts, indent) + seq![']']
}

/// The whole output for a document: the rendering at depth zero of the
/// tree that is in effect, which under the remove policy is the document
/// without its comments.
pub open spec fn document_text(root: Node, opts: FracturedJsonOptions) -> Seq<char> {
    item_text(crate::removal::effective(root, opts), opts, 0)
}

} // verus!
