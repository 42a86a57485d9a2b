//! The table layout: which columns a run of rows has, how wide each column
//! is, and the text of a row whose cells are padded to those widths.

use crate::computed::ItemRef;
use crate::options::{FracturedJsonOptions, TableCommaPlacement};
use crate::text::{
    byte_len, capped, comma, fill, indentation, lemma_byte_len_concat, lemma_byte_len_spaces,
    lemma_escape_plain, quoted, spaces, text_len, write_quotes,
};
use crate::text::is_plain;
use crate::types::{JsonItemType, Node};
use vstd::prelude::*;
use vstd::string::StringExecFns;

verus! {

/// The text `true`.
pub open spec fn true_text() -> Seq<char> {
    seq!['t', 'r', 'u', 'e']
}

/// The text `false`.
pub open spec fn false_text() -> Seq<char> {
    seq!['f', 'a', 'l', 's', 'e']
}

/// The text `null`.
pub open spec fn null_text() -> Seq<char> {
    seq!['n', 'u', 'l', 'l']
}

/// The text of a table cell: a scalar as it is written, an object or array
/// in its collapsed form `{}` or `[]`, nothing for a comment or blank line.
pub open spec fn simple_value_text(node: Node) -> Seq<char> {
    match node.kind {
        JsonItemType::String => quoted(node.value),
        JsonItemType::Number => node.value,
        JsonItemType::True => true_text(),
        JsonItemType::False => false_text(),
        JsonItemType::Null => null_text(),
        JsonItemType::Object => seq!['{', '}'],
        JsonItemType::Array => seq!['[', ']'],
        _ => Seq::empty(),
    }
}

/// The estimated length of a value in a table cell. For a string it
/// allows for some escaping: twice the raw length, or the raw length and a
/// fifth of it and ten, whichever is less. For the other scalars it is the
/// raw length, for an object or array two, for anything else nothing.
pub open spec fn display_length(node: Node) -> nat {
    match node.kind {
        JsonItemType::String => {
            let base = byte_len(node.value);
            if 2 * base < base + base / 5 + 10 {
                2 * base
            } else {
                base + base / 5 + 10
            }
        },
        JsonItemType::Number
        | JsonItemType::True
        | JsonItemType::False
        | JsonItemType::Null => byte_len(node.value),
        JsonItemType::Object | JsonItemType::Array => 2,
        _ => 0,
    }
}

/// The number of columns a row has: one per child of an object or array,
/// one for a scalar.
pub open spec fn column_count(row: Node) -> nat {
    match row.kind {
        JsonItemType::Object | JsonItemType::Array => row.children.len(),
        _ => 1,
    }
}

/// The cells of a row: the children of an object or array, or the row
/// itself for a scalar.
pub open spec fn cell_values(row: Node) -> Seq<Seq<char>> {
    match row.kind {
        JsonItemType::Object | JsonItemType::Array => Seq::new(
            row.children.len(),
            |i: int| simple_value_text(row.children[i]),
        ),
        _ => seq![simple_value_text(row)],
    }
}

/// The estimated width of the cell of `row` in column `c` at depth
/// `indent`, zero if the row has no such cell. A member of an object
/// counts its name, its value and four more for quotes, colon and space;
/// an element of an array or a scalar row counts its value and two more.
/// The indentation is counted in, and the whole is capped.
pub open spec fn cell_estimate(row: Node, opts: FracturedJsonOptions, indent: nat, c: int) -> nat {
    match row.kind {
        JsonItemType::Object => if 0 <= c < row.children.len() {
            capped(
                byte_len(row.children[c].name) + display_length(row.children[c]) + 4 + indent
                    * opts.indent_spaces,
            )
        } else {
            0
        },
        JsonItemType::Array => if 0 <= c < row.children.len() {
            capped(display_length(row.children[c]) + 2 + indent * opts.indent_spaces)
        } else {
            0
        },
        _ => if c == 0 {
            capped(display_length(row) + 2 + indent * opts.indent_spaces)
        } else {
            0
        },
    }
}

/// The largest estimate for column `c` among the first `upto` rows.
pub open spec fn column_width(
    rows: Seq<Node>,
    opts: FracturedJsonOptions,
    indent: nat,
    c: int,
    upto: nat,
) -> nat
    decreases upto,
{
    if upto == 0 || upto > rows.len() {
        0
    } else {
        let last = cell_estimate(rows[upto - 1], opts, indent, c);
        let rest = column_width(rows, opts, indent, c, (upto - 1) as nat);
        if last > rest {
            last
        } else {
            rest
        }
    }
}

/// The widths of the columns of a table: as many as the first row has
/// columns, each the largest estimate any row has for it.
pub open spec fn column_widths(rows: Seq<Node>, opts: FracturedJsonOptions, indent: nat) -> Seq<
    nat,
> {
    if rows.len() == 0 {
        Seq::empty()
    } else {
        Seq::new(column_count(rows[0]), |c: int| column_width(rows, opts, indent, c, rows.len()))
    }
}

/// The width of column `c`, zero for a column the table does not have.
pub open spec fn width_at(widths: Seq<nat>, c: int) -> nat {
    if 0 <= c < widths.len() {
        widths[c]
    } else {
        0
    }
}

/// The text of cell `c` of a row: the value, and for every cell but the
/// last the spaces that bring it to the column width, then the separator.
pub open spec fn cell_text(
    values: Seq<Seq<char>>,
    widths: Seq<nat>,
    opts: FracturedJsonOptions,
    c: int,
) -> Seq<char> {
    if c < values.len() - 1 {
        values[c] + spaces(fill(width_at(widths, c), byte_len(values[c]))) + comma(opts)
    } else {
        values[c]
    }
}

/// The text of the first `upto` cells of a row.
pub open spec fn cells_text(
    values: Seq<Seq<char>>,
    widths: Seq<nat>,
    opts: FracturedJsonOptions,
    upto: nat,
) -> Seq<char>
    decreases upto,
{
    if upto == 0 || upto > values.len() {
        Seq::empty()
    } else {
        cells_text(values, widths, opts, (upto - 1) as nat) + cell_text(
            values,
            widths,
            opts,
            upto - 1,
        )
    }
}

/// The line of one table row at depth `indent`: indentation, the cells,
/// a comma if another row follows and commas go to the end of the line,
/// and the line ending.
pub open spec fn table_row_text(
    row: Node,
    widths: Seq<nat>,
    opts: FracturedJsonOptions,
    indent: nat,
    last: bool,
) -> Seq<char> {
    indentation(opts, indent) + cells_text(
        cell_values(row),
        widths,
        opts,
        cell_values(row).len(),
    ) + (if !last && opts.table_comma_placement == TableCommaPlacement::EndOfLine {
        seq![',']
    } else {
        Seq::empty()
    }) + opts.eol()
}

/// Whether the estimate for a value allows for what escaping adds to it
/// and for what stands around it: a string is covered when its escaped
/// form is no longer than the estimate, a boolean or null when its raw text
/// is at least two bytes long; numbers, objects and arrays always are.
pub open spec fn value_is_covered(cell: Node) -> bool {
    match cell.kind {
        JsonItemType::String => byte_len(crate::text::escape_text(cell.value)) <= display_length(
            cell,
        ),
        JsonItemType::True | JsonItemType::Null => byte_len(cell.value) + 2 >= 4,
        JsonItemType::False => byte_len(cell.value) + 2 >= 5,
        _ => true,
    }
}

/// The node whose value stands in column `c` of a row.
pub open spec fn cell_node(row: Node, c: int) -> Node {
    match row.kind {
        JsonItemType::Object | JsonItemType::Array => row.children[c],
        _ => row,
    }
}

proof fn lemma_literal_lengths()
    ensures
        byte_len(true_text()) == 4,
        byte_len(false_text()) == 5,
        byte_len(null_text()) == 4,
        byte_len(seq!['{', '}']) == 2,
        byte_len(seq!['[', ']']) == 2,
        byte_len(seq!['"']) == 1,
{
    assert(vstd::utf8::is_ascii_chars(true_text()));
    vstd::utf8::is_ascii_chars_encode_utf8(true_text());
    assert(vstd::utf8::is_ascii_chars(false_text()));
    vstd::utf8::is_ascii_chars_encode_utf8(false_text());
    assert(vstd::utf8::is_ascii_chars(null_text()));
    vstd::utf8::is_ascii_chars_encode_utf8(null_text());
    assert(vstd::utf8::is_ascii_chars(seq!['{', '}']));
    vstd::utf8::is_ascii_chars_encode_utf8(seq!['{', '}']);
    assert(vstd::utf8::is_ascii_chars(seq!['[', ']']));
    vstd::utf8::is_ascii_chars_encode_utf8(seq!['[', ']']);
    assert(vstd::utf8::is_ascii_chars(seq!['"']));
    vstd::utf8::is_ascii_chars_encode_utf8(seq!['"']);
}

/// The text of a value is at most two bytes longer than its estimate
/// whenever the estimate covers the value.
pub proof fn lemma_value_text_length(cell: Node)
    requires
        value_is_covered(cell),
    ensures
        byte_len(simple_value_text(cell)) <= display_length(cell) + 2,
{
    lemma_literal_lengths();
    if cell.kind == JsonItemType::String {
        let inner = crate::text::escape_text(cell.value);
        lemma_byte_len_concat(seq!['"'], inner);
        lemma_byte_len_concat(seq!['"'] + inner, seq!['"']);
    }
}

/// A string is covered by its estimate exactly when escaping adds no more
/// to it than the estimate allows for: as many bytes as the text has, or a
/// fifth of them and ten, whichever is less.
pub proof fn lemma_string_cover(cell: Node)
    requires
        cell.kind == JsonItemType::String,
    ensures
        value_is_covered(cell) <==> crate::text::escape_overhead(cell.value) <= (if byte_len(
            cell.value,
        ) < byte_len(cell.value) / 5 + 10 {
            byte_len(cell.value)
        } else {
            byte_len(cell.value) / 5 + 10
        }),
{
    crate::text::lemma_escaped_length(cell.value);
}

/// A string that needs no escaping is covered by its estimate.
pub proof fn lemma_plain_string_is_covered(cell: Node)
    requires
        cell.kind == JsonItemType::String,
        is_plain(cell.value),
    ensures
        value_is_covered(cell),
{
    lemma_escape_plain(cell.value);
}

/// The width of a column is at least the estimate of every row for it.
pub proof fn lemma_column_width_covers(
    rows: Seq<Node>,
    opts: FracturedJsonOptions,
    indent: nat,
    c: int,
    upto: nat,
    r: int,
)
    requires
        0 <= r < upto <= rows.len(),
    ensures
        cell_estimate(rows[r], opts, indent, c) <= column_width(rows, opts, indent, c, upto),
    decreases upto,
{
    if r < upto - 1 {
        lemma_column_width_covers(rows, opts, indent, c, (upto - 1) as nat, r);
    }
}

/// In a table, no cell whose estimate covers its value is longer than the
/// width computed for its column, and padding brings each such cell to
/// exactly that width: the columns of all rows line up.
pub proof fn lemma_table_width_safe(
    rows: Seq<Node>,
    opts: FracturedJsonOptions,
    indent: nat,
    r: int,
    c: int,
)
    requires
        0 <= r < rows.len(),
        0 <= c < cell_values(rows[r]).len(),
        c < column_widths(rows, opts, indent).len(),
        value_is_covered(cell_node(rows[r], c)),
        byte_len(simple_value_text(cell_node(rows[r], c))) <= usize::MAX,
    ensures
        byte_len(cell_values(rows[r])[c]) <= column_widths(rows, opts, indent)[c],
        byte_len(
            cell_values(rows[r])[c] + spaces(
                fill(column_widths(rows, opts, indent)[c], byte_len(cell_values(rows[r])[c])),
            ),
        ) == column_widths(rows, opts, indent)[c],
{
    let row = rows[r];
    let cell = cell_node(row, c);
    let text = cell_values(row)[c];
    let width = column_widths(rows, opts, indent)[c];
    assert(text == simple_value_text(cell));
    lemma_value_text_length(cell);
    lemma_column_width_covers(rows, opts, indent, c, rows.len(), r);
    assert(indent * opts.indent_spaces >= 0) by (nonlinear_arith);
    assert(byte_len(text) <= cell_estimate(row, opts, indent, c));
    lemma_byte_len_concat(text, spaces(fill(width, byte_len(text))));
    lemma_byte_len_spaces(fill(width, byte_len(text)));
}

/// The models of the items of a slice, in order.
pub open spec fn nodes_of(items: Seq<ItemRef<'_>>) -> Seq<Node> {
    Seq::new(items.len(), |i: int| items[i].node())
}

/// The estimated length of the item's value in a table cell, capped.
pub fn calculate_value_display_length(item: &ItemRef) -> (r: usize)
    ensures
        r == capped(display_length(item.node()) as int),
{
    match item.item_type() {
        JsonItemType::String => {
            let base_len = text_len(item.value());
            let doubled = base_len.saturating_add(base_len);
            let widened = base_len.saturating_add(base_len / 5).saturating_add(10);
            if doubled < widened {
                doubled
            } else {
                widened
            }
        },
        JsonItemType::Number | JsonItemType::True | JsonItemType::False | JsonItemType::Null => {
            text_len(item.value())
        },
        JsonItemType::Object => 2,
        JsonItemType::Array => 2,
        _ => 0,
    }
}

/// The number of columns the item has as a table row.
pub fn get_column_count(item: &ItemRef, options: &FracturedJsonOptions) -> (r: usize)
    requires
        item.wf(*options),
    ensures
        r == column_count(item.node()),
{
    match item.item_type() {
        JsonItemType::Object => item.children.len(),
        JsonItemType::Array => item.children.len(),
        _ => 1,
    }
}

/// The text of the item as a table cell.
pub fn format_value_simple(item: &ItemRef) -> (r: String)
    ensures
        r@ == simple_value_text(item.node()),
{
    let mut text = String::new();
    match item.item_type() {
        JsonItemType::String => {
            write_quotes(item.value(), &mut text);
        },
        JsonItemType::Number => {
            text.append(item.value());
        },
        JsonItemType::True => {
            write_true(&mut text);
        },
        JsonItemType::False => {
            write_false(&mut text);
        },
        JsonItemType::Null => {
            write_null(&mut text);
        },
        JsonItemType::Object => {
            text.push('{');
            text.push('}');
        },
        JsonItemType::Array => {
            text.push('[');
            text.push(']');
        },
        _ => {},
    }
    assert(text@ =~= simple_value_text(item.node()));
    text
}

/// Appends the text `true`.
pub fn write_true(buffer: &mut String)
    ensures
        final(buffer)@ == old(buffer)@ + true_text(),
{
    proof {
        reveal_strlit("true");
    }
    buffer.append("true");
    assert(buffer@ =~= old(buffer)@ + true_text());
}

/// Appends the text `false`.
pub fn write_false(buffer: &mut String)
    ensures
        final(buffer)@ == old(buffer)@ + false_text(),
{
    proof {
        reveal_strlit("false");
    }
    buffer.append("false");
    assert(buffer@ =~= old(buffer)@ + false_text());
}

/// Appends the text `null`.
pub fn write_null(buffer: &mut String)
    ensures
        final(buffer)@ == old(buffer)@ + null_text(),
{
    proof {
        reveal_strlit("null");
    }
    buffer.append("null");
    assert(buffer@ =~= old(buffer)@ + null_text());
}

/// The texts of the cells of the item as a table row.
pub fn get_column_values(item: &ItemRef, options: &FracturedJsonOptions) -> (r: Vec<String>)
    requires
        item.wf(*options),
    ensures
        r@.len() == cell_values(item.node()).len(),
        forall|i: int| 0 <= i < r@.len() ==> (#[trigger] r@[i])@ == cell_values(item.node())[i],
{
    let mut values: Vec<String> = Vec::new();
    match item.item_type() {
        JsonItemType::Object | JsonItemType::Array => {
            let mut i: usize = 0;
            while i < item.children.len()
                invariant
                    i <= item.children.len(),
                    item.wf(*options),
                    item.node().is_container(),
                    values@.len() == i,
                    forall|j: int|
                        0 <= j < i ==> (#[trigger] values@[j])@ == simple_value_text(
                            item.node().children[j],
                        ),
                decreases item.children.len() - i,
            {
                proof {
                    item.lemma_child(*options, i as int);
                }
                values.push(format_value_simple(&item.children[i]));
                i += 1;
            }
            assert(item.node().children.len() == item.children.len());
        },
        _ => {
            values.push(format_value_simple(item));
        },
    }
    values
}

/// The widths of the columns of the table whose rows are `items`, at depth
/// `indent`.
pub fn calculate_table_column_widths(
    items: &[ItemRef],
    indent: usize,
    options: &FracturedJsonOptions,
) -> (r: Vec<usize>)
    requires
        forall|i: int| 0 <= i < items@.len() ==> (#[trigger] items@[i]).wf(*options),
    ensures
        r@.len() == column_widths(nodes_of(items@), *options, indent as nat).len(),
        forall|c: int|
            0 <= c < r@.len() ==> (#[trigger] r@[c]) == column_widths(
                nodes_of(items@),
                *options,
                indent as nat,
            )[c],
{
    let mut widths: Vec<usize> = Vec::new();
    if items.len() == 0 {
        return widths;
    }
    let ghost rows = nodes_of(items@);
    let column_count = get_column_count(&items[0], options);
    let mut filled: usize = 0;
    while filled < column_count
        invariant
            filled <= column_count,
            widths@.len() == filled,
            forall|c: int| 0 <= c < filled ==> (#[trigger] widths@[c]) == 0,
        decreases column_count - filled,
    {
        widths.push(0);
        filled += 1;
    }
    let indent_cost: usize = match indent.checked_mul(options.indent_spaces) {
        Some(cost) => cost,
        None => usize::MAX,
    };
    assert(indent_cost == capped(indent * options.indent_spaces)) by {
        assert(indent * options.indent_spaces >= 0) by (nonlinear_arith);
    }
    let mut row: usize = 0;
    while row < items.len()
        invariant
            row <= items@.len(),
            rows == nodes_of(items@),
            rows.len() == items@.len(),
            widths@.len() == column_count,
            indent_cost == capped(indent * options.indent_spaces),
            indent * options.indent_spaces >= 0,
            forall|i: int| 0 <= i < items@.len() ==> (#[trigger] items@[i]).wf(*options),
            forall|c: int|
                0 <= c < widths@.len() ==> (#[trigger] widths@[c]) == column_width(
                    rows,
                    *options,
                    indent as nat,
                    c,
                    row as nat,
                ),
        decreases items@.len() - row,
    {
        let item = &items[row];
        assert(item.node() == rows[row as int]);
        match item.item_type() {
            JsonItemType::Object | JsonItemType::Array => {
                let in_object = item.item_type() == JsonItemType::Object;
                let mut col: usize = 0;
                while col < item.children.len() && col < widths.len()
                    invariant
                        col <= item.children.len(),
                        col <= widths@.len(),
                        row < items@.len(),
                        rows.len() == items@.len(),
                        item.wf(*options),
                        item.node() == rows[row as int],
                        item.node().is_container(),
                        in_object == (item.node().kind == JsonItemType::Object),
                        widths@.len() == column_count,
                        indent_cost == capped(indent * options.indent_spaces),
                        indent * options.indent_spaces >= 0,
                        forall|c: int|
                            0 <= c < col ==> (#[trigger] widths@[c]) == column_width(
                                rows,
                                *options,
                                indent as nat,
                                c,
                                (row + 1) as nat,
                            ),
                        forall|c: int|
                            col <= c < widths@.len() ==> (#[trigger] widths@[c]) == column_width(
                                rows,
                                *options,
                                indent as nat,
                                c,
                                row as nat,
                            ),
                    decreases item.children.len() - col,
                {
                    proof {
                        item.lemma_child(*options, col as int);
                    }
                    let child = &item.children[col];
                    let display = calculate_value_display_length(child);
                    let estimate: usize = if in_object {
                        text_len(child.name()).saturating_add(display).saturating_add(
                            4,
                        ).saturating_add(indent_cost)
                    } else {
                        display.saturating_add(2).saturating_add(indent_cost)
                    };
                    assert(estimate == cell_estimate(
                        rows[row as int],
                        *options,
                        indent as nat,
                        col as int,
                    ));
                    if estimate > widths[col] {
                        widths.set(col, estimate);
                    }
                    col += 1;
                }
                assert(item.node().children.len() == item.children.len());
            },
            _ => {
                let display = calculate_value_display_length(item);
                let estimate: usize = display.saturating_add(2).saturating_add(indent_cost);
                if widths.len() > 0 {
                    if estimate > widths[0] {
                        widths.set(0, estimate);
                    }
                }
            },
        }
        row += 1;
    }
    widths
}

/// Appends the line of one table row whose cells are padded to `widths`.
pub fn write_table_row(
    item: &ItemRef,
    widths: &Vec<usize>,
    options: &FracturedJsonOptions,
    indent: usize,
    last: bool,
    buffer: &mut String,
)
    requires
        item.wf(*options),
    ensures
        final(buffer)@ == old(buffer)@ + table_row_text(
            item.node(),
            widths@.map_values(|w: usize| w as nat),
            *options,
            indent as nat,
            last,
        ),
{
    let ghost model = widths@.map_values(|w: usize| w as nat);
    crate::text::write_indent(options, indent, buffer);
    let ghost start = buffer@;
    let values = get_column_values(item, options);
    let ghost cells = cell_values(item.node());
    let mut col: usize = 0;
    while col < values.len()
        invariant
            col <= values@.len(),
            values@.len() == cells.len(),
            model == widths@.map_values(|w: usize| w as nat),
            forall|i: int| 0 <= i < values@.len() ==> (#[trigger] values@[i])@ == cells[i],
            buffer@ == start + cells_text(cells, model, *options, col as nat),
        decreases values@.len() - col,
    {
        let ghost before = buffer@;
        let value = &values[col];
        assert(value@ == cells[col as int]);
        buffer.append(value.as_str());
        if col < values.len() - 1 {
            let width: usize = if col < widths.len() {
                widths[col]
            } else {
                0
            };
            assert(width == width_at(model, col as int));
            crate::text::write_spaces(buffer, width.saturating_sub(text_len(value.as_str())));
            crate::text::write_comma(options, buffer);
        }
        assert(buffer@ =~= before + cell_text(cells, model, *options, col as int));
        assert(buffer@ =~= start + cells_text(cells, model, *options, (col + 1) as nat));
        col += 1;
    }
    if !last && options.table_comma_placement == TableCommaPlacement::EndOfLine {
        buffer.push(',');
    }
    buffer.append(options.eol_string());
    assert(buffer@ =~= old(buffer)@ + table_row_text(
        item.node(),
        model,
        *options,
        indent as nat,
        last,
    ));
}

} // verus!
