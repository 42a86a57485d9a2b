//! The renderers: one routine per layout, each appending to a shared text
//! buffer exactly the text that the `render` module defines for it.

use crate::computed::{
    children_length, complexity, lemma_children_length_grows, lemma_complexity_exceeds_child,
    metrics_fit, ItemRef,
};
use crate::layout::{should_format_as_compact_array, should_format_as_table, should_inline};
use crate::numbers::{format_number_aligned, texts_of};
use crate::options::{CommentPolicy, FracturedJsonOptions, NumberListAlignment};
use crate::removal::{comment_free, effective, lemma_without_comments_free, strip_comments};
use crate::render::{
    aligns_numbers, compact_array_item, compact_array_items, compact_array_text, document_text,
    expanded_array_row, expanded_array_rows, expanded_array_text, expanded_object_row,
    expanded_object_rows, expanded_object_text, has_members, inline_array_item,
    inline_array_items, inline_array_text, inline_object_item, inline_object_items,
    inline_object_text, inline_value_text, item_text, items_per_row, last_written, leaf_text,
    list_value_text, lemma_written_none, lemma_written_step, max_name_length, member_label,
    member_lead, member_separator, written_before, middle_comment_text, name_width, number_values,
    postfix_comment_text, prefix_comment_text, scalar_text, separator_after, table_array_text,
    table_object_text, table_rows,
};
use crate::table::{
    calculate_table_column_widths, column_widths, nodes_of, write_false, write_null,
    write_table_row, write_true,
};
use crate::text::{
    comma, indentation, lemma_join0, lemma_join2, lemma_join3, lemma_join4, lemma_join6,
    lemma_join8, padding, quoted_name, write_comma, write_comma_if, write_eol_if, write_indent,
    write_indent_if, write_padding, write_quoted_property_name, write_quotes, write_spaces,
};
use crate::types::{JsonItem, JsonItemType};
use vstd::pervasive::unreached;
use vstd::prelude::*;
use vstd::string::StringExecFns;

verus! {

/// What the renderers need of an item at depth `indent`: it is paired with
/// its metrics, the depth of anything below it still fits a machine
/// integer, and once comments are removed it holds none.
pub open spec fn renderable(item: &ItemRef, opts: FracturedJsonOptions, indent: nat) -> bool {
    &&& item.wf(opts)
    &&& indent + complexity(item.node()) <= u32::MAX
    &&& opts.keeps_comments() || comment_free(item.node())
}

proof fn lemma_child_renderable(item: &ItemRef, opts: FracturedJsonOptions, indent: nat, i: int)
    requires
        renderable(item, opts, indent),
        item.node().is_container(),
        0 <= i < item.children.len(),
    ensures
        item.node().children.len() == item.children.len(),
        item.children[i].node() == item.node().children[i],
        renderable(&item.children[i], opts, indent + 1),
        renderable(&item.children[i], opts, 0),
        indent + 1 <= u32::MAX,
{
    item.lemma_child(opts, i);
    lemma_complexity_exceeds_child(item.node(), i);
}

/// Appends the comment before the item, if comments are kept.
pub fn write_prefix_comment(item: &ItemRef, options: &FracturedJsonOptions, buffer: &mut String)
    ensures
        final(buffer)@ == old(buffer)@ + prefix_comment_text(item.node(), *options),
{
    if options.comment_policy == CommentPolicy::Preserve {
        if let Some(comment) = item.prefix_comment() {
            write_padding(options.comment_padding, buffer);
            buffer.append(comment);
            write_padding(options.comment_padding, buffer);
        }
    }
    assert(buffer@ =~= old(buffer)@ + prefix_comment_text(item.node(), *options));
}

/// Appends the comment between a member's colon and its value on a line of
/// its own, if comments are kept.
pub fn write_middle_comment(
    item: &ItemRef,
    options: &FracturedJsonOptions,
    indent: usize,
    buffer: &mut String,
)
    ensures
        final(buffer)@ == old(buffer)@ + middle_comment_text(
            item.node(),
            *options,
            indent as nat,
        ),
{
    if options.comment_policy == CommentPolicy::Preserve {
        if let Some(comment) = item.middle_comment() {
            buffer.append(options.eol_string());
            write_indent(options, indent, buffer);
            buffer.append(comment);
            buffer.append(options.eol_string());
            write_indent(options, indent, buffer);
        }
    }
    assert(buffer@ =~= old(buffer)@ + middle_comment_text(item.node(), *options, indent as nat));
}

/// Appends the comment after the item, if comments are kept.
pub fn write_postfix_comment(item: &ItemRef, options: &FracturedJsonOptions, buffer: &mut String)
    ensures
        final(buffer)@ == old(buffer)@ + postfix_comment_text(item.node(), *options),
{
    if options.comment_policy == CommentPolicy::Preserve {
        if let Some(comment) = item.postfix_comment() {
            write_padding(options.comment_padding, buffer);
            buffer.append(comment);
        }
    }
    assert(buffer@ =~= old(buffer)@ + postfix_comment_text(item.node(), *options));
}

/// Appends the text of an item that is no container, without indentation.
fn write_scalar(item: &ItemRef, options: &FracturedJsonOptions, buffer: &mut String)
    requires
        !item.node().is_container(),
    ensures
        final(buffer)@ == old(buffer)@ + scalar_text(item.node(), *options),
{
    match item.item_type() {
        JsonItemType::String => {
            write_quotes(item.value(), buffer);
        },
        JsonItemType::Number => {
            buffer.append(item.value());
        },
        JsonItemType::True => {
            write_true(buffer);
        },
        JsonItemType::False => {
            write_false(buffer);
        },
        JsonItemType::Null => {
            write_null(buffer);
        },
        JsonItemType::LineComment | JsonItemType::BlockComment => {
            if options.comment_policy == CommentPolicy::Preserve {
                buffer.append(item.value());
            }
        },
        _ => {},
    }
    assert(buffer@ =~= old(buffer)@ + scalar_text(item.node(), *options));
}

/// Renders a document tree under the given options. Under the remove
/// policy the tree is rendered without its comments.
pub fn format(item: &JsonItem, options: &FracturedJsonOptions) -> (r: String)
    requires
        metrics_fit(effective(item@, *options), *options),
    ensures
        r@ == document_text(item@, *options),
{
    match try_format(item, options) {
        Some(text) => text,
        None => unreached(),
    }
}

/// Renders a document tree under the given options, or nothing where a
/// metric of the tree that is in effect does not fit its machine integer.
pub fn try_format(item: &JsonItem, options: &FracturedJsonOptions) -> (r: Option<String>)
    ensures
        r is Some <==> metrics_fit(effective(item@, *options), *options),
        r matches Some(text) ==> text@ == document_text(item@, *options),
{
    if options.comment_policy == CommentPolicy::Preserve {
        format_tree(item, options)
    } else {
        let stripped = strip_comments(item);
        proof {
            lemma_without_comments_free(item@);
        }
        format_tree(&stripped, options)
    }
}

/// Renders the tree that is in effect.
fn format_tree(item: &JsonItem, options: &FracturedJsonOptions) -> (r: Option<String>)
    requires
        options.keeps_comments() || comment_free(item@),
    ensures
        r is Some <==> metrics_fit(item@, *options),
        r matches Some(text) ==> text@ == item_text(item@, *options, 0),
{
    match ItemRef::try_from_root(item, options) {
        Some(computed) => {
            let mut buffer = String::new();
            format_item(&computed, options, 0, &mut buffer);
            assert(buffer@ =~= item_text(item@, *options, 0));
            Some(buffer)
        },
        None => None,
    }
}

/// Appends the rendering of an item at depth `indent`, in the layout the
/// selector chooses for it.
pub fn format_item(
    item: &ItemRef,
    options: &FracturedJsonOptions,
    indent: usize,
    buffer: &mut String,
)
    requires
        renderable(item, *options, indent as nat),
    ensures
        final(buffer)@ == old(buffer)@ + item_text(item.node(), *options, indent as nat),
    decreases item, 3nat,
{
    match item.item_type() {
        JsonItemType::Array => {
            if should_inline(item, options, indent) {
                format_inline_array(item, options, indent, buffer);
            } else if should_format_as_compact_array(item, options, indent) {
                format_compact_array(item, options, indent, buffer);
            } else if should_format_as_table(item, options, indent) {
                format_table_array(item, options, indent, buffer);
            } else {
                format_expanded_array(item, options, indent, buffer);
            }
        },
        JsonItemType::Object => {
            if should_inline(item, options, indent) {
                format_inline_object(item, options, indent, buffer);
            } else if should_format_as_table(item, options, indent) {
                format_table_object(item, options, indent, buffer);
            } else {
                format_expanded_object(item, options, indent, buffer);
            }
        },
        JsonItemType::LineComment | JsonItemType::BlockComment => {
            if options.comment_policy == CommentPolicy::Preserve {
                write_indent(options, indent, buffer);
                buffer.append(item.value());
            }
            assert(buffer@ =~= old(buffer)@ + leaf_text(item.node(), *options, indent as nat));
        },
        JsonItemType::BlankLine => {
            buffer.append(options.eol_string());
        },
        _ => {
            write_indent(options, indent, buffer);
            write_scalar(item, options, buffer);
            assert(buffer@ =~= old(buffer)@ + leaf_text(item.node(), *options, indent as nat));
        },
    }
}

/// Appends the rendering of a value inside a line.
pub fn format_inline_value(
    item: &ItemRef,
    options: &FracturedJsonOptions,
    indent: usize,
    buffer: &mut String,
)
    requires
        renderable(item, *options, indent as nat),
    ensures
        final(buffer)@ == old(buffer)@ + inline_value_text(item.node(), *options, indent as nat),
    decreases item, 4nat,
{
    match item.item_type() {
        JsonItemType::Array | JsonItemType::Object => {
            format_item(item, options, indent, buffer);
        },
        _ => {
            write_scalar(item, options, buffer);
        },
    }
}

/// Appends element `i` of an inline array.
fn write_inline_array_item(
    item: &ItemRef,
    options: &FracturedJsonOptions,
    indent: usize,
    i: usize,
    buffer: &mut String,
)
    requires
        renderable(item, *options, indent as nat),
        item.node().kind == JsonItemType::Array,
        i < item.children.len(),
    ensures
        final(buffer)@ == old(buffer)@ + inline_array_item(item.node(), *options, i as int),
    decreases item, 0nat,
{
    proof {
        lemma_child_renderable(item, *options, indent as nat, i as int);
    }
    let child = &item.children[i];
    write_comma_if(i > 0, options, buffer);
    write_prefix_comment(child, options, buffer);
    format_inline_value(child, options, 0, buffer);
    write_postfix_comment(child, options, buffer);
    proof {
        lemma_join4(
            old(buffer)@,
            if i > 0 {
                comma(*options)
            } else {
                Seq::empty()
            },
            prefix_comment_text(child.node(), *options),
            inline_value_text(child.node(), *options, 0),
            postfix_comment_text(child.node(), *options),
        );
    }
}

/// Appends an array on one line.
pub fn format_inline_array(
    item: &ItemRef,
    options: &FracturedJsonOptions,
    indent: usize,
    buffer: &mut String,
)
    requires
        renderable(item, *options, indent as nat),
        item.node().kind == JsonItemType::Array,
    ensures
        final(buffer)@ == old(buffer)@ + inline_array_text(item.node(), *options, indent as nat),
    decreases item, 2nat,
{
    write_indent(options, indent, buffer);
    buffer.push('[');
    if item.children.len() > 0 {
        write_padding(options.nested_bracket_padding, buffer);
        let ghost start = buffer@;
        let mut i: usize = 0;
        while i < item.children.len()
            invariant
                i <= item.children.len(),
                renderable(item, *options, indent as nat),
                item.node().kind == JsonItemType::Array,
                buffer@ == start + inline_array_items(item.node(), *options, i as nat),
            decreases item.children.len() - i,
        {
            write_inline_array_item(item, options, indent, i, buffer);
            proof {
                lemma_join2(
                    start,
                    inline_array_items(item.node(), *options, i as nat),
                    inline_array_item(item.node(), *options, i as int),
                );
                crate::types::lemma_child_count(*item.item);
            }
            i += 1;
        }
        proof {
            item.lemma_child(*options, 0);
        }
        write_padding(options.nested_bracket_padding, buffer);
    } else {
        proof {
            crate::types::lemma_child_count(*item.item);
        }
        write_padding(options.simple_bracket_padding, buffer);
    }
    buffer.push(']');
    assert(buffer@ =~= old(buffer)@ + inline_array_text(item.node(), *options, indent as nat));
}

/// Whether the item has a child that is neither a comment nor a blank
/// line.
pub fn has_properties(item: &ItemRef, options: &FracturedJsonOptions) -> (r: bool)
    requires
        item.wf(*options),
    ensures
        r == has_members(item.node()),
{
    let mut i: usize = 0;
    while i < item.children.len()
        invariant
            i <= item.children.len(),
            item.wf(*options),
            forall|j: int|
                0 <= j < i ==> (#[trigger] item.node().children[j]).kind.spec_is_comment_or_blank(),
        decreases item.children.len() - i,
    {
        proof {
            item.lemma_child(*options, i as int);
        }
        if !item.children[i].item_type().is_comment_or_blank() {
            return true;
        }
        i += 1;
    }
    proof {
        crate::types::lemma_child_count(*item.item);
    }
    false
}

/// A separator where `on` holds, nothing otherwise.
pub open spec fn lead(on: bool, opts: FracturedJsonOptions) -> Seq<char> {
    if on {
        comma(opts)
    } else {
        Seq::empty()
    }
}

/// Appends child `i` of an inline object as a member, after a separator
/// where `wrote` holds.
fn write_inline_member(
    item: &ItemRef,
    options: &FracturedJsonOptions,
    indent: usize,
    i: usize,
    wrote: bool,
    buffer: &mut String,
)
    requires
        renderable(item, *options, indent as nat),
        item.node().kind == JsonItemType::Object,
        i < item.children.len(),
    ensures
        final(buffer)@ == old(buffer)@ + (lead(wrote, *options) + prefix_comment_text(
            item.node().children[i as int],
            *options,
        ) + quoted_name(item.node().children[i as int].name) + seq![':'] + padding(
            options.colon_padding,
        ) + middle_comment_text(item.node().children[i as int], *options, indent as nat)
            + inline_value_text(item.node().children[i as int], *options, 0)
            + postfix_comment_text(item.node().children[i as int], *options)),
    decreases item, 0nat,
{
    proof {
        lemma_child_renderable(item, *options, indent as nat, i as int);
    }
    let child = &item.children[i];
    write_comma_if(wrote, options, buffer);
    write_prefix_comment(child, options, buffer);
    write_quoted_property_name(child.name(), buffer);
    buffer.push(':');
    write_padding(options.colon_padding, buffer);
    write_middle_comment(child, options, indent, buffer);
    format_inline_value(child, options, 0, buffer);
    write_postfix_comment(child, options, buffer);
    proof {
        lemma_join8(
            old(buffer)@,
            lead(wrote, *options),
            prefix_comment_text(child.node(), *options),
            quoted_name(child.node().name),
            seq![':'],
            padding(options.colon_padding),
            middle_comment_text(child.node(), *options, indent as nat),
            inline_value_text(child.node(), *options, 0),
            postfix_comment_text(child.node(), *options),
        );
    }
}

/// Appends child `i` of an inline object as it stands, after a separator
/// where `wrote` holds.
fn write_inline_comment(
    item: &ItemRef,
    options: &FracturedJsonOptions,
    indent: usize,
    i: usize,
    wrote: bool,
    buffer: &mut String,
)
    requires
        renderable(item, *options, indent as nat),
        item.node().kind == JsonItemType::Object,
        i < item.children.len(),
    ensures
        final(buffer)@ == old(buffer)@ + (lead(wrote, *options) + inline_value_text(
            item.node().children[i as int],
            *options,
            0,
        )),
    decreases item, 0nat,
{
    proof {
        lemma_child_renderable(item, *options, indent as nat, i as int);
    }
    let child = &item.children[i];
    write_comma_if(wrote, options, buffer);
    format_inline_value(child, options, 0, buffer);
    proof {
        lemma_join2(
            old(buffer)@,
            lead(wrote, *options),
            inline_value_text(child.node(), *options, 0),
        );
    }
}

/// Appends member `i` of an inline object.
fn write_inline_object_item(
    item: &ItemRef,
    options: &FracturedJsonOptions,
    indent: usize,
    i: usize,
    with_members: bool,
    wrote: bool,
    buffer: &mut String,
)
    requires
        renderable(item, *options, indent as nat),
        item.node().kind == JsonItemType::Object,
        i < item.children.len(),
        with_members == has_members(item.node()),
        wrote == written_before(item.node(), i as nat),
    ensures
        final(buffer)@ == old(buffer)@ + inline_object_item(
            item.node(),
            *options,
            indent as nat,
            i as int,
        ),
    decreases item, 1nat,
{
    proof {
        item.lemma_child(*options, i as int);
    }
    let kind = item.children[i].item_type();
    assert(member_lead(item.node(), *options, i as int) == lead(wrote, *options));
    if !with_members && kind.is_comment() {
        write_inline_comment(item, options, indent, i, wrote, buffer);
    } else if with_members && kind.is_comment_or_blank() {
        proof {
            lemma_join0(buffer@);
        }
    } else {
        write_inline_member(item, options, indent, i, wrote, buffer);
    }
}

/// Appends an object on one line.
pub fn format_inline_object(
    item: &ItemRef,
    options: &FracturedJsonOptions,
    indent: usize,
    buffer: &mut String,
)
    requires
        renderable(item, *options, indent as nat),
        item.node().kind == JsonItemType::Object,
    ensures
        final(buffer)@ == old(buffer)@ + inline_object_text(item.node(), *options, indent as nat),
    decreases item, 2nat,
{
    write_indent(options, indent, buffer);
    buffer.push('{');
    if item.children.len() > 0 {
        let with_members = has_properties(item, options);
        write_padding(options.nested_bracket_padding, buffer);
        let ghost start = buffer@;
        let mut wrote = false;
        let mut i: usize = 0;
        proof {
            lemma_written_none(item.node());
        }
        while i < item.children.len()
            invariant
                i <= item.children.len(),
                renderable(item, *options, indent as nat),
                item.node().kind == JsonItemType::Object,
                with_members == has_members(item.node()),
                wrote == written_before(item.node(), i as nat),
                buffer@ == start + inline_object_items(
                    item.node(),
                    *options,
                    indent as nat,
                    i as nat,
                ),
            decreases item.children.len() - i,
        {
            write_inline_object_item(item, options, indent, i, with_members, wrote, buffer);
            proof {
                lemma_join2(
                    start,
                    inline_object_items(item.node(), *options, indent as nat, i as nat),
                    inline_object_item(item.node(), *options, indent as nat, i as int),
                );
                crate::types::lemma_child_count(*item.item);
                item.lemma_child(*options, i as int);
                lemma_written_step(item.node(), i as int);
            }
            if !(with_members && item.children[i].item_type().is_comment_or_blank()) {
                wrote = true;
            }
            i += 1;
        }
        proof {
            crate::types::lemma_child_count(*item.item);
        }
        write_padding(options.nested_bracket_padding, buffer);
        buffer.push('}');
        proof {
            let inner = padding(options.nested_bracket_padding) + inline_object_items(
                item.node(),
                *options,
                indent as nat,
                item.node().children.len(),
            ) + padding(options.nested_bracket_padding);
            lemma_join3(
                old(buffer)@ + indentation(*options, indent as nat) + seq!['{'],
                padding(options.nested_bracket_padding),
                inline_object_items(
                    item.node(),
                    *options,
                    indent as nat,
                    item.node().children.len(),
                ),
                padding(options.nested_bracket_padding),
            );
            lemma_join3(
                old(buffer)@,
                indentation(*options, indent as nat) + seq!['{'],
                inner,
                seq!['}'],
            );
            lemma_join2(old(buffer)@, indentation(*options, indent as nat), seq!['{']);
            assert(buffer@ == (old(buffer)@ + indentation(*options, indent as nat) + seq!['{']
                + inner).push('}'));
            assert(buffer@ =~= old(buffer)@ + indentation(*options, indent as nat) + seq!['{']
                + inner + seq!['}']);
        }
    } else {
        proof {
            crate::types::lemma_child_count(*item.item);
        }
        write_padding(options.simple_bracket_padding, buffer);
        buffer.push('}');
        assert(buffer@ =~= old(buffer)@ + inline_object_text(
            item.node(),
            *options,
            indent as nat,
        ));
    }
}

/// Whether the children of the item are aligned as a list of numbers.
pub fn should_align_numbers(item: &ItemRef, options: &FracturedJsonOptions) -> (r: bool)
    requires
        item.wf(*options),
    ensures
        r == aligns_numbers(item.node(), *options),
{
    if options.number_list_alignment == NumberListAlignment::Unaligned {
        return false;
    }
    let mut i: usize = 0;
    while i < item.children.len()
        invariant
            i <= item.children.len(),
            item.wf(*options),
            forall|j: int|
                0 <= j < i ==> (#[trigger] item.node().children[j]).kind == JsonItemType::Number,
        decreases item.children.len() - i,
    {
        proof {
            item.lemma_child(*options, i as int);
        }
        if item.children[i].item_type() != JsonItemType::Number {
            return false;
        }
        i += 1;
    }
    proof {
        crate::types::lemma_child_count(*item.item);
    }
    true
}

/// The raw texts of the children of the item, in order.
pub fn child_values<'b>(item: &'b ItemRef, options: &FracturedJsonOptions) -> (r: Vec<&'b str>)
    requires
        item.wf(*options),
    ensures
        texts_of(r@) == number_values(item.node()),
{
    let mut values: Vec<&'b str> = Vec::new();
    let mut i: usize = 0;
    while i < item.children.len()
        invariant
            i <= item.children.len(),
            item.wf(*options),
            values@.len() == i,
            forall|j: int| 0 <= j < i ==> (#[trigger] values@[j])@ == item.node().children[j].value,
        decreases item.children.len() - i,
    {
        proof {
            item.lemma_child(*options, i as int);
        }
        values.push(item.children[i].value());
        i += 1;
    }
    proof {
        crate::types::lemma_child_count(*item.item);
    }
    assert(texts_of(values@) =~= number_values(item.node()));
    values
}

/// Appends the separator that follows child `i` on an expanded line.
fn write_separator_after(item: &ItemRef, options: &FracturedJsonOptions, i: usize, buffer: &mut String)
    requires
        item.wf(*options),
        i < item.children.len(),
    ensures
        final(buffer)@ == old(buffer)@ + separator_after(item.node(), *options, i as int),
{
    proof {
        crate::types::lemma_child_count(*item.item);
    }
    let is_last = i == item.children.len() - 1;
    if !is_last || options.allow_trailing_commas {
        write_comma(options, buffer);
    }
    assert(buffer@ =~= old(buffer)@ + separator_after(item.node(), *options, i as int));
}

/// Appends the line of element `i` of an expanded array.
fn write_expanded_array_row(
    item: &ItemRef,
    options: &FracturedJsonOptions,
    indent: usize,
    i: usize,
    aligned: bool,
    all_numbers: &Vec<&str>,
    buffer: &mut String,
)
    requires
        renderable(item, *options, indent as nat),
        item.node().kind == JsonItemType::Array,
        i < item.children.len(),
        aligned == aligns_numbers(item.node(), *options),
        aligned ==> texts_of(all_numbers@) == number_values(item.node()),
    ensures
        final(buffer)@ == old(buffer)@ + expanded_array_row(
            item.node(),
            *options,
            indent as nat,
            i as int,
        ),
    decreases item, 0nat,
{
    proof {
        lemma_child_renderable(item, *options, indent as nat, i as int);
    }
    let child = &item.children[i];
    write_indent(options, indent + 1, buffer);
    write_prefix_comment(child, options, buffer);
    if aligned && child.item_type() == JsonItemType::Number {
        let text = format_number_aligned(child.value(), options, all_numbers.as_slice());
        buffer.append(text.as_str());
    } else {
        format_item(child, options, indent + 1, buffer);
    }
    write_postfix_comment(child, options, buffer);
    write_separator_after(item, options, i, buffer);
    buffer.append(options.eol_string());
    proof {
        lemma_join6(
            old(buffer)@,
            indentation(*options, (indent + 1) as nat),
            prefix_comment_text(child.node(), *options),
            list_value_text(
                item.node(),
                *options,
                i as int,
                item_text(child.node(), *options, (indent + 1) as nat),
            ),
            postfix_comment_text(child.node(), *options),
            separator_after(item.node(), *options, i as int),
            options.eol(),
        );
    }
}

/// Appends an array with one element per line.
pub fn format_expanded_array(
    item: &ItemRef,
    options: &FracturedJsonOptions,
    indent: usize,
    buffer: &mut String,
)
    requires
        renderable(item, *options, indent as nat),
        item.node().kind == JsonItemType::Array,
    ensures
        final(buffer)@ == old(buffer)@ + expanded_array_text(item.node(), *options, indent as nat),
    decreases item, 2nat,
{
    write_indent(options, indent, buffer);
    buffer.push('[');
    buffer.append(options.eol_string());
    let aligned = should_align_numbers(item, options);
    let all_numbers: Vec<&str> = if aligned {
        child_values(item, options)
    } else {
        Vec::new()
    };
    let ghost start = buffer@;
    let mut i: usize = 0;
    while i < item.children.len()
        invariant
            i <= item.children.len(),
            renderable(item, *options, indent as nat),
            item.node().kind == JsonItemType::Array,
            aligned == aligns_numbers(item.node(), *options),
            aligned ==> texts_of(all_numbers@) == number_values(item.node()),
            buffer@ == start + expanded_array_rows(item.node(), *options, indent as nat, i as nat),
        decreases item.children.len() - i,
    {
        write_expanded_array_row(item, options, indent, i, aligned, &all_numbers, buffer);
        proof {
            lemma_join2(
                start,
                expanded_array_rows(item.node(), *options, indent as nat, i as nat),
                expanded_array_row(item.node(), *options, indent as nat, i as int),
            );
            crate::types::lemma_child_count(*item.item);
        }
        i += 1;
    }
    proof {
        crate::types::lemma_child_count(*item.item);
    }
    write_indent(options, indent, buffer);
    buffer.push(']');
    assert(buffer@ =~= old(buffer)@ + expanded_array_text(item.node(), *options, indent as nat));
}

/// The width to which the member names of the item are padded.
pub fn property_name_width(item: &ItemRef, options: &FracturedJsonOptions) -> (r: usize)
    requires
        item.wf(*options),
    ensures
        r == name_width(item.node(), *options),
{
    let mut longest: usize = 0;
    let mut i: usize = 0;
    while i < item.children.len()
        invariant
            i <= item.children.len(),
            item.wf(*options),
            longest == max_name_length(item.node(), i as nat),
        decreases item.children.len() - i,
    {
        proof {
            item.lemma_child(*options, i as int);
        }
        let len = item.children[i].name_length();
        if len > longest {
            longest = len;
        }
        i += 1;
    }
    proof {
        crate::types::lemma_child_count(*item.item);
    }
    if longest < options.max_prop_name_padding {
        longest
    } else {
        options.max_prop_name_padding
    }
}

/// Appends a member's quoted name and colon, the name padded to `width`.
fn write_member_label(child: &ItemRef, options: &FracturedJsonOptions, width: usize, buffer: &mut String)
    requires
        child.computed.name_length == crate::text::byte_len(child.node().name),
    ensures
        final(buffer)@ == old(buffer)@ + member_label(child.node(), *options, width as nat),
{
    write_quoted_property_name(child.name(), buffer);
    if !options.colon_before_prop_name_padding {
        write_spaces(buffer, width.saturating_sub(child.name_length()));
    } else {
        proof {
            lemma_join0(buffer@);
        }
    }
    buffer.push(':');
    write_padding(options.colon_padding, buffer);
    proof {
        lemma_join4(
            old(buffer)@,
            quoted_name(child.node().name),
            if options.colon_before_prop_name_padding {
                Seq::empty()
            } else {
                crate::text::spaces(
                    crate::text::fill(width as nat, crate::text::byte_len(child.node().name)),
                )
            },
            seq![':'],
            padding(options.colon_padding),
        );
    }
}

/// The position that an optional position stands for, -1 for none.
pub open spec fn position(at: Option<usize>) -> int {
    match at {
        Some(i) => i as int,
        None => -1,
    }
}

/// The position of the last child of an object that is written, if any.
pub fn last_written_child(item: &ItemRef, options: &FracturedJsonOptions, with_members: bool) -> (r:
    Option<usize>)
    requires
        item.wf(*options),
        with_members == has_members(item.node()),
    ensures
        position(r) == last_written(item.node(), item.node().children.len()),
{
    let mut last: Option<usize> = None;
    let mut i: usize = 0;
    proof {
        lemma_written_none(item.node());
    }
    while i < item.children.len()
        invariant
            i <= item.children.len(),
            item.wf(*options),
            with_members == has_members(item.node()),
            position(last) == last_written(item.node(), i as nat),
        decreases item.children.len() - i,
    {
        proof {
            item.lemma_child(*options, i as int);
            lemma_written_step(item.node(), i as int);
        }
        if !(with_members && item.children[i].item_type().is_comment_or_blank()) {
            last = Some(i);
        }
        i += 1;
    }
    proof {
        crate::types::lemma_child_count(*item.item);
    }
    last
}

/// Appends the line of member `i` of an expanded object.
fn write_expanded_object_row(
    item: &ItemRef,
    options: &FracturedJsonOptions,
    indent: usize,
    i: usize,
    width: usize,
    with_members: bool,
    last: Option<usize>,
    buffer: &mut String,
)
    requires
        renderable(item, *options, indent as nat),
        item.node().kind == JsonItemType::Object,
        i < item.children.len(),
        width == name_width(item.node(), *options),
        with_members == has_members(item.node()),
        position(last) == last_written(item.node(), item.node().children.len()),
    ensures
        final(buffer)@ == old(buffer)@ + expanded_object_row(
            item.node(),
            *options,
            indent as nat,
            i as int,
        ),
    decreases item, 0nat,
{
    proof {
        lemma_child_renderable(item, *options, indent as nat, i as int);
    }
    let child = &item.children[i];
    if !with_members && child.item_type().is_comment() {
        write_indent(options, indent + 1, buffer);
        format_item(child, options, indent + 1, buffer);
        buffer.append(options.eol_string());
        proof {
            lemma_join3(
                old(buffer)@,
                indentation(*options, (indent + 1) as nat),
                item_text(child.node(), *options, (indent + 1) as nat),
                options.eol(),
            );
        }
    } else if with_members && child.item_type().is_comment_or_blank() {
        proof {
            lemma_join0(buffer@);
        }
    } else {
        write_indent(options, indent + 1, buffer);
        write_prefix_comment(child, options, buffer);
        write_member_label(child, options, width, buffer);
        write_middle_comment(child, options, indent + 1, buffer);
        format_item(child, options, indent + 1, buffer);
        write_postfix_comment(child, options, buffer);
        let is_last = match last {
            Some(at) => at == i,
            None => false,
        };
        write_comma_if(!is_last || options.allow_trailing_commas, options, buffer);
        buffer.append(options.eol_string());
        proof {
            lemma_join8(
                old(buffer)@,
                indentation(*options, (indent + 1) as nat),
                prefix_comment_text(child.node(), *options),
                member_label(child.node(), *options, width as nat),
                middle_comment_text(child.node(), *options, (indent + 1) as nat),
                item_text(child.node(), *options, (indent + 1) as nat),
                postfix_comment_text(child.node(), *options),
                member_separator(item.node(), *options, i as int),
                options.eol(),
            );
        }
    }
}

/// Appends the lines of the members of an object, one member per line.
fn write_object_rows(
    item: &ItemRef,
    options: &FracturedJsonOptions,
    indent: usize,
    buffer: &mut String,
)
    requires
        renderable(item, *options, indent as nat),
        item.node().kind == JsonItemType::Object,
    ensures
        final(buffer)@ == old(buffer)@ + expanded_object_rows(
            item.node(),
            *options,
            indent as nat,
            item.node().children.len(),
        ),
    decreases item, 1nat,
{
    let width = property_name_width(item, options);
    let with_members = has_properties(item, options);
    let last = last_written_child(item, options, with_members);
    let mut i: usize = 0;
    while i < item.children.len()
        invariant
            i <= item.children.len(),
            renderable(item, *options, indent as nat),
            item.node().kind == JsonItemType::Object,
            width == name_width(item.node(), *options),
            with_members == has_members(item.node()),
            position(last) == last_written(item.node(), item.node().children.len()),
            buffer@ == old(buffer)@ + expanded_object_rows(
                item.node(),
                *options,
                indent as nat,
                i as nat,
            ),
        decreases item.children.len() - i,
    {
        write_expanded_object_row(item, options, indent, i, width, with_members, last, buffer);
        proof {
            lemma_join2(
                old(buffer)@,
                expanded_object_rows(item.node(), *options, indent as nat, i as nat),
                expanded_object_row(item.node(), *options, indent as nat, i as int),
            );
            crate::types::lemma_child_count(*item.item);
        }
        i += 1;
    }
    proof {
        crate::types::lemma_child_count(*item.item);
    }
}

/// Appends an object with one member per line.
pub fn format_expanded_object(
    item: &ItemRef,
    options: &FracturedJsonOptions,
    indent: usize,
    buffer: &mut String,
)
    requires
        renderable(item, *options, indent as nat),
        item.node().kind == JsonItemType::Object,
    ensures
        final(buffer)@ == old(buffer)@ + expanded_object_text(
            item.node(),
            *options,
            indent as nat,
        ),
    decreases item, 2nat,
{
    write_indent(options, indent, buffer);
    buffer.push('{');
    buffer.append(options.eol_string());
    write_object_rows(item, options, indent, buffer);
    write_indent(options, indent, buffer);
    buffer.push('}');
    assert(buffer@ =~= old(buffer)@ + expanded_object_text(item.node(), *options, indent as nat));
}

/// Appends an object whose members are rows of one shape.
pub fn format_table_object(
    item: &ItemRef,
    options: &FracturedJsonOptions,
    indent: usize,
    buffer: &mut String,
)
    requires
        renderable(item, *options, indent as nat),
        item.node().kind == JsonItemType::Object,
    ensures
        final(buffer)@ == old(buffer)@ + table_object_text(item.node(), *options, indent as nat),
    decreases item, 2nat,
{
    write_indent(options, indent, buffer);
    buffer.push('{');
    buffer.append(options.eol_string());
    write_object_rows(item, options, indent, buffer);
    write_indent(options, indent, buffer);
    buffer.push('}');
    assert(buffer@ =~= old(buffer)@ + table_object_text(item.node(), *options, indent as nat));
}

/// How many children a compact array puts on one line.
pub fn calculate_items_per_row(
    item: &ItemRef,
    options: &FracturedJsonOptions,
    indent: usize,
) -> (r: usize)
    requires
        renderable(item, *options, indent as nat),
        item.node().kind == JsonItemType::Array,
    ensures
        r == items_per_row(item.node(), *options, indent as nat),
        r >= 1,
{
    proof {
        crate::types::lemma_child_count(*item.item);
    }
    if item.children.len() == 0 {
        return 1;
    }
    let mut total: usize = 0;
    let mut i: usize = 0;
    while i < item.children.len()
        invariant
            i <= item.children.len(),
            item.wf(*options),
            item.node().kind == JsonItemType::Array,
            item.node().children.len() == item.children.len(),
            total == children_length(item.node(), *options, i as nat),
        decreases item.children.len() - i,
    {
        proof {
            item.lemma_child(*options, i as int);
            lemma_children_length_grows(
                item.node(),
                *options,
                (i + 1) as nat,
                item.node().children.len(),
            );
            assert(children_length(item.node(), *options, (i + 1) as nat) == children_length(
                item.node(),
                *options,
                i as nat,
            ) + crate::computed::child_length(item.node(), *options, i as int));
        }
        total = total + item.children[i].minimum_total_length();
        i += 1;
    }
    let average: usize = total / item.children.len();
    if average == 0 {
        return 1;
    }
    let indent_cost: usize = match (indent + 1).checked_mul(options.indent_spaces) {
        Some(cost) => cost,
        None => {
            return 1;
        },
    };
    if options.max_total_line_length < indent_cost {
        return 1;
    }
    let available: usize = options.max_total_line_length - indent_cost;
    if available < average {
        return 1;
    }
    assert(available / average >= 1) by (nonlinear_arith)
        requires
            available >= average,
            average > 0,
    ;
    available / average
}

/// Appends element `i` of a compact array that holds `per_row` elements a
/// line.
fn write_compact_array_item(
    item: &ItemRef,
    options: &FracturedJsonOptions,
    indent: usize,
    per_row: usize,
    i: usize,
    aligned: bool,
    all_numbers: &Vec<&str>,
    buffer: &mut String,
)
    requires
        renderable(item, *options, indent as nat),
        item.node().kind == JsonItemType::Array,
        i < item.children.len(),
        per_row >= 1,
        aligned == aligns_numbers(item.node(), *options),
        aligned ==> texts_of(all_numbers@) == number_values(item.node()),
    ensures
        final(buffer)@ == old(buffer)@ + compact_array_item(
            item.node(),
            *options,
            indent as nat,
            per_row as nat,
            i as int,
        ),
    decreases item, 0nat,
{
    proof {
        lemma_child_renderable(item, *options, indent as nat, i as int);
    }
    let child = &item.children[i];
    let is_last = i == item.children.len() - 1;
    let ends_line = (i + 1) % per_row == 0 || is_last;
    write_indent_if(i % per_row == 0, options, indent + 1, buffer);
    write_prefix_comment(child, options, buffer);
    if aligned && child.item_type() == JsonItemType::Number {
        let text = format_number_aligned(child.value(), options, all_numbers.as_slice());
        buffer.append(text.as_str());
    } else {
        format_inline_value(child, options, 0, buffer);
    }
    write_postfix_comment(child, options, buffer);
    let ghost tail = buffer@;
    let ghost closing = if !is_last {
        seq![','] + padding(options.comma_padding && !ends_line)
    } else {
        Seq::empty()
    };
    if !is_last {
        buffer.push(',');
        write_padding(options.comma_padding && !ends_line, buffer);
    }
    assert(buffer@ =~= tail + closing);
    write_eol_if(ends_line, options, buffer);
    proof {
        lemma_join6(
            old(buffer)@,
            if i % per_row == 0 {
                indentation(*options, (indent + 1) as nat)
            } else {
                Seq::empty()
            },
            prefix_comment_text(child.node(), *options),
            list_value_text(
                item.node(),
                *options,
                i as int,
                inline_value_text(child.node(), *options, 0),
            ),
            postfix_comment_text(child.node(), *options),
            closing,
            if ends_line {
                options.eol()
            } else {
                Seq::empty()
            },
        );
    }
}

/// Appends an array packed several elements to a line.
pub fn format_compact_array(
    item: &ItemRef,
    options: &FracturedJsonOptions,
    indent: usize,
    buffer: &mut String,
)
    requires
        renderable(item, *options, indent as nat),
        item.node().kind == JsonItemType::Array,
    ensures
        final(buffer)@ == old(buffer)@ + compact_array_text(item.node(), *options, indent as nat),
    decreases item, 2nat,
{
    write_indent(options, indent, buffer);
    buffer.push('[');
    buffer.append(options.eol_string());
    let per_row = calculate_items_per_row(item, options, indent);
    let aligned = should_align_numbers(item, options);
    let all_numbers: Vec<&str> = if aligned {
        child_values(item, options)
    } else {
        Vec::new()
    };
    let ghost start = buffer@;
    let mut i: usize = 0;
    while i < item.children.len()
        invariant
            i <= item.children.len(),
            renderable(item, *options, indent as nat),
            item.node().kind == JsonItemType::Array,
            per_row >= 1,
            per_row == items_per_row(item.node(), *options, indent as nat),
            aligned == aligns_numbers(item.node(), *options),
            aligned ==> texts_of(all_numbers@) == number_values(item.node()),
            buffer@ == start + compact_array_items(
                item.node(),
                *options,
                indent as nat,
                per_row as nat,
                i as nat,
            ),
        decreases item.children.len() - i,
    {
        write_compact_array_item(item, options, indent, per_row, i, aligned, &all_numbers, buffer);
        proof {
            lemma_join2(
                start,
                compact_array_items(
                    item.node(),
                    *options,
                    indent as nat,
                    per_row as nat,
                    i as nat,
                ),
                compact_array_item(
                    item.node(),
                    *options,
                    indent as nat,
                    per_row as nat,
                    i as int,
                ),
            );
            crate::types::lemma_child_count(*item.item);
        }
        i += 1;
    }
    proof {
        crate::types::lemma_child_count(*item.item);
    }
    write_indent(options, indent, buffer);
    buffer.push(']');
    assert(buffer@ =~= old(buffer)@ + compact_array_text(item.node(), *options, indent as nat));
}

/// Appends an array as a table.
pub fn format_table_array(
    item: &ItemRef,
    options: &FracturedJsonOptions,
    indent: usize,
    buffer: &mut String,
)
    requires
        renderable(item, *options, indent as nat),
        item.node().kind == JsonItemType::Array,
    ensures
        final(buffer)@ == old(buffer)@ + table_array_text(item.node(), *options, indent as nat),
{
    write_indent(options, indent, buffer);
    buffer.push('[');
    buffer.append(options.eol_string());
    proof {
        crate::types::lemma_child_count(*item.item);
        assert forall|i: int| 0 <= i < item.children@.len() implies (#[trigger] item.children@[i]).wf(
            *options,
        ) by {
            item.lemma_child(*options, i);
        }
        assert(nodes_of(item.children@) =~= item.node().children) by {
            assert forall|i: int| 0 <= i < item.children@.len() implies nodes_of(item.children@)[i]
                == item.node().children[i] by {
                item.lemma_child(*options, i);
            }
        }
    }
    if item.children.len() > 0 {
        proof {
            lemma_child_renderable(item, *options, indent as nat, 0);
        }
        let widths = calculate_table_column_widths(item.children.as_slice(), indent + 1, options);
        let ghost model = widths@.map_values(|w: usize| w as nat);
        assert(model =~= column_widths(item.node().children, *options, (indent + 1) as nat));
        let ghost start = buffer@;
        let mut i: usize = 0;
        while i < item.children.len()
            invariant
                i <= item.children.len(),
                renderable(item, *options, indent as nat),
                item.node().kind == JsonItemType::Array,
                item.node().children.len() == item.children.len(),
                indent + 1 <= u32::MAX,
                model == widths@.map_values(|w: usize| w as nat),
                buffer@ == start + table_rows(
                    item.node().children,
                    model,
                    *options,
                    (indent + 1) as nat,
                    i as nat,
                ),
            decreases item.children.len() - i,
        {
            proof {
                item.lemma_child(*options, i as int);
            }
            let ghost before = buffer@;
            let is_last = i == item.children.len() - 1;
            write_table_row(&item.children[i], &widths, options, indent + 1, is_last, buffer);
            assert(buffer@ =~= start + table_rows(
                item.node().children,
                model,
                *options,
                (indent + 1) as nat,
                (i + 1) as nat,
            ));
            i += 1;
        }
    }
    write_indent(options, indent, buffer);
    buffer.push(']');
    assert(buffer@ =~= old(buffer)@ + table_array_text(item.node(), *options, indent as nat));
}

} // verus!
