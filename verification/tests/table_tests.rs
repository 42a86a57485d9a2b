use fractured_json_rs::computed::ItemRef;
use fractured_json_rs::table::{
    calculate_table_column_widths, calculate_value_display_length, format_value_simple,
    get_column_count, get_column_values, write_table_row,
};
use fractured_json_rs::{FracturedJsonOptions, JsonItem, JsonItemType, TableCommaPlacement};

fn scalar(kind: JsonItemType, text: &str) -> JsonItem {
    JsonItem::new(kind).with_value(text.to_string())
}

fn num(text: &str) -> JsonItem {
    scalar(JsonItemType::Number, text)
}

fn text(value: &str) -> JsonItem {
    scalar(JsonItemType::String, value)
}

fn arr(children: Vec<JsonItem>) -> JsonItem {
    let mut item = JsonItem::new(JsonItemType::Array);
    item.children = children;
    item
}

fn obj(members: Vec<(&str, JsonItem)>) -> JsonItem {
    let mut item = JsonItem::new(JsonItemType::Object);
    for (name, value) in members {
        item.children.push(value.with_name(name.to_string()));
    }
    item
}

fn display(item: JsonItem) -> usize {
    let options = FracturedJsonOptions::default();
    calculate_value_display_length(&ItemRef::from_root(&item, &options))
}

fn simple(item: JsonItem) -> String {
    let options = FracturedJsonOptions::default();
    format_value_simple(&ItemRef::from_root(&item, &options))
}

#[test]
fn string_display_length_is_the_smaller_estimate() {
    assert_eq!(display(text("")), 0);
    assert_eq!(display(text("a")), 2);
    assert_eq!(display(text("abc")), 6);
    assert_eq!(display(text("0123456789")), 20);
    assert_eq!(display(text("0123456789ab")), 24);
    assert_eq!(display(text("0123456789abc")), 13 + 2 + 10);
    assert_eq!(display(text(&"x".repeat(20))), 20 + 4 + 10);
    assert_eq!(display(text(&"x".repeat(100))), 100 + 20 + 10);
}

#[test]
fn string_display_length_counts_bytes() {
    assert_eq!(display(text("é")), 4);
}

#[test]
fn other_display_lengths() {
    assert_eq!(display(num("12345")), 5);
    assert_eq!(display(scalar(JsonItemType::True, "true")), 4);
    assert_eq!(display(scalar(JsonItemType::False, "false")), 5);
    assert_eq!(display(scalar(JsonItemType::Null, "null")), 4);
    assert_eq!(display(JsonItem::new(JsonItemType::True)), 0);
    assert_eq!(display(arr(vec![num("1"), num("2")])), 2);
    assert_eq!(display(obj(vec![("a", num("1"))])), 2);
    assert_eq!(display(scalar(JsonItemType::LineComment, "// c")), 0);
    assert_eq!(display(scalar(JsonItemType::BlankLine, "x")), 0);
}

#[test]
fn the_estimate_covers_strings_without_escapes() {
    for value in ["", "a", "plain text", "é世界", &"y".repeat(300)] {
        let rendered = simple(text(value));
        assert!(rendered.len() <= display(text(value)) + 2);
    }
}

#[test]
fn the_estimate_does_not_cover_heavy_escaping() {
    let value = "\u{1}";
    let rendered = simple(text(value));
    assert_eq!(rendered, "\"\\u0001\"");
    assert_eq!(display(text(value)), 2);
    assert!(rendered.len() > display(text(value)) + 2);
}

#[test]
fn simple_values() {
    assert_eq!(simple(text("a\"b")), "\"a\\\"b\"");
    assert_eq!(simple(num("1e5")), "1e5");
    assert_eq!(simple(JsonItem::new(JsonItemType::True)), "true");
    assert_eq!(simple(JsonItem::new(JsonItemType::False)), "false");
    assert_eq!(simple(JsonItem::new(JsonItemType::Null)), "null");
    assert_eq!(simple(obj(vec![("a", num("1"))])), "{}");
    assert_eq!(simple(arr(vec![num("1")])), "[]");
    assert_eq!(simple(scalar(JsonItemType::LineComment, "// c")), "");
    assert_eq!(simple(scalar(JsonItemType::BlockComment, "/* c */")), "");
    assert_eq!(simple(JsonItem::new(JsonItemType::BlankLine)), "");
}

#[test]
fn column_counts() {
    let options = FracturedJsonOptions::default();
    let count = |item: JsonItem| get_column_count(&ItemRef::from_root(&item, &options), &options);
    assert_eq!(count(arr(vec![num("1"), num("2"), num("3")])), 3);
    assert_eq!(count(obj(vec![("a", num("1")), ("b", num("2"))])), 2);
    assert_eq!(count(arr(vec![])), 0);
    assert_eq!(count(num("1")), 1);
    assert_eq!(count(text("x")), 1);
}

#[test]
fn column_values() {
    let options = FracturedJsonOptions::default();
    let values = |item: JsonItem| get_column_values(&ItemRef::from_root(&item, &options), &options);
    assert_eq!(
        values(obj(vec![("a", num("1")), ("b", text("x")), ("c", arr(vec![num("1")]))])),
        vec!["1", "\"x\"", "[]"]
    );
    assert_eq!(values(arr(vec![num("1"), obj(vec![])])), vec!["1", "{}"]);
    assert_eq!(values(num("7")), vec!["7"]);
    assert_eq!(values(arr(vec![])), Vec::<String>::new());
}

#[test]
fn column_widths_of_object_rows() {
    let options = FracturedJsonOptions::default();
    let table = arr(vec![
        obj(vec![("x", num("1")), ("yy", num("2"))]),
        obj(vec![("x", num("10")), ("yy", num("20000"))]),
    ]);
    let paired = ItemRef::from_root(&table, &options);
    let widths = calculate_table_column_widths(&paired.children, 1, &options);
    assert_eq!(widths, vec![1 + 2 + 4 + 4, 2 + 5 + 4 + 4]);
    let deeper = calculate_table_column_widths(&paired.children, 3, &options);
    assert_eq!(deeper, vec![1 + 2 + 4 + 12, 2 + 5 + 4 + 12]);
}

#[test]
fn column_widths_of_array_rows() {
    let options = FracturedJsonOptions { indent_spaces: 2, ..FracturedJsonOptions::default() };
    let table = arr(vec![
        arr(vec![num("1"), text("ab"), num("3")]),
        arr(vec![num("400"), text("c"), num("6")]),
    ]);
    let paired = ItemRef::from_root(&table, &options);
    let widths = calculate_table_column_widths(&paired.children, 1, &options);
    assert_eq!(widths, vec![3 + 2 + 2, 4 + 2 + 2, 1 + 2 + 2]);
}

#[test]
fn column_widths_of_scalar_rows() {
    let options = FracturedJsonOptions::default();
    let table = arr(vec![num("1"), num("22"), num("333")]);
    let paired = ItemRef::from_root(&table, &options);
    let widths = calculate_table_column_widths(&paired.children, 0, &options);
    assert_eq!(widths, vec![3 + 2]);
}

#[test]
fn columns_are_those_of_the_first_row() {
    let options = FracturedJsonOptions::default();
    let table = arr(vec![arr(vec![num("1")]), arr(vec![num("22"), num("3"), num("4")])]);
    let paired = ItemRef::from_root(&table, &options);
    let widths = calculate_table_column_widths(&paired.children, 0, &options);
    assert_eq!(widths, vec![2 + 2]);
    let wide_first = arr(vec![arr(vec![num("1"), num("2")]), arr(vec![num("333")])]);
    let paired = ItemRef::from_root(&wide_first, &options);
    let widths = calculate_table_column_widths(&paired.children, 0, &options);
    assert_eq!(widths, vec![3 + 2, 1 + 2]);
}

#[test]
fn no_rows_no_columns() {
    let options = FracturedJsonOptions::default();
    let empty: Vec<ItemRef> = Vec::new();
    assert_eq!(calculate_table_column_widths(&empty, 0, &options), Vec::<usize>::new());
}

#[test]
fn column_widths_saturate() {
    let options = FracturedJsonOptions {
        indent_spaces: usize::MAX,
        ..FracturedJsonOptions::default()
    };
    let table = arr(vec![num("1")]);
    let paired = ItemRef::from_root(&table, &options);
    assert_eq!(calculate_table_column_widths(&paired.children, 2, &options), vec![usize::MAX]);
}

#[test]
fn a_table_row_pads_all_cells_but_the_last() {
    let options = FracturedJsonOptions::default();
    let row = arr(vec![num("1"), text("ab"), num("3")]);
    let paired = ItemRef::from_root(&row, &options);
    let mut buffer = String::from(">");
    write_table_row(&paired, &vec![4, 6, 9], &options, 1, false, &mut buffer);
    assert_eq!(buffer, ">    1   , \"ab\"  , 3,\n");
}

#[test]
fn the_last_table_row_has_no_comma() {
    let options = FracturedJsonOptions::default();
    let row = arr(vec![num("1"), num("2")]);
    let paired = ItemRef::from_root(&row, &options);
    let mut buffer = String::new();
    write_table_row(&paired, &vec![3, 3], &options, 0, true, &mut buffer);
    assert_eq!(buffer, "1  , 2\n");
}

#[test]
fn next_line_placement_writes_no_row_comma() {
    let options = FracturedJsonOptions {
        table_comma_placement: TableCommaPlacement::NextLine,
        ..FracturedJsonOptions::default()
    };
    let row = arr(vec![num("1"), num("2")]);
    let paired = ItemRef::from_root(&row, &options);
    let mut buffer = String::new();
    write_table_row(&paired, &vec![3, 3], &options, 0, false, &mut buffer);
    assert_eq!(buffer, "1  , 2\n");
}

#[test]
fn a_cell_wider_than_its_column_gets_no_padding() {
    let options = FracturedJsonOptions { comma_padding: false, ..FracturedJsonOptions::default() };
    let row = arr(vec![num("123456"), num("2")]);
    let paired = ItemRef::from_root(&row, &options);
    let mut buffer = String::new();
    write_table_row(&paired, &vec![3, 3], &options, 0, true, &mut buffer);
    assert_eq!(buffer, "123456,2\n");
}

#[test]
fn cells_beyond_the_known_columns_get_no_padding() {
    let options = FracturedJsonOptions::default();
    let row = arr(vec![num("1"), num("2"), num("3")]);
    let paired = ItemRef::from_root(&row, &options);
    let mut buffer = String::new();
    write_table_row(&paired, &vec![3], &options, 0, true, &mut buffer);
    assert_eq!(buffer, "1  , 2, 3\n");
}

#[test]
fn covered_cells_line_up_across_rows() {
    let options = FracturedJsonOptions::default();
    let table = arr(vec![
        arr(vec![text("a"), num("1"), num("7")]),
        arr(vec![text("long text"), num("123456"), num("8")]),
        arr(vec![text("mid"), num("22"), num("9")]),
    ]);
    let paired = ItemRef::from_root(&table, &options);
    let widths = calculate_table_column_widths(&paired.children, 1, &options);
    let mut first_commas: Vec<Vec<usize>> = Vec::new();
    for (i, row) in paired.children.iter().enumerate() {
        let cells = get_column_values(row, &options);
        for (c, cell) in cells.iter().enumerate().take(widths.len()) {
            assert!(cell.len() <= widths[c]);
        }
        let mut line = String::new();
        write_table_row(row, &widths, &options, 1, i == 2, &mut line);
        first_commas.push(line.match_indices(", ").map(|(at, _)| at).collect());
    }
    assert_eq!(first_commas[0], first_commas[1]);
    assert_eq!(first_commas[1], first_commas[2]);
}
