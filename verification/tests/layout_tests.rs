use fractured_json_rs::computed::ItemRef;
use fractured_json_rs::layout::{
    can_format_as_table_array, can_format_as_table_object, get_item_type_for_table,
    same_property_names, select_layout, should_format_as_compact_array, should_format_as_table,
    should_inline, LayoutMode,
};
use fractured_json_rs::{CommentPolicy, FracturedJsonOptions, JsonItem, JsonItemType};

fn scalar(kind: JsonItemType, text: &str) -> JsonItem {
    JsonItem::new(kind).with_value(text.to_string())
}

fn num(text: &str) -> JsonItem {
    scalar(JsonItemType::Number, text)
}

fn text(value: &str) -> JsonItem {
    scalar(JsonItemType::String, value)
}

fn arr(children: Vec<JsonItem>) -> JsonItem {
    let mut item = JsonItem::new(JsonItemType::Array);
    item.children = children;
    item
}

fn obj(members: Vec<(&str, JsonItem)>) -> JsonItem {
    let mut item = JsonItem::new(JsonItemType::Object);
    for (name, value) in members {
        item.children.push(value.with_name(name.to_string()));
    }
    item
}

fn commented(mut item: JsonItem) -> JsonItem {
    item.prefix_comment = Some("// c".to_string());
    item
}

fn mode(tree: &JsonItem, options: &FracturedJsonOptions, indent: usize) -> LayoutMode {
    select_layout(&ItemRef::from_root(tree, options), options, indent)
}

fn no_inline() -> FracturedJsonOptions {
    FracturedJsonOptions { max_inline_complexity: 0, ..FracturedJsonOptions::default() }
}

#[test]
fn short_simple_array_is_inline() {
    let tree = arr(vec![num("1"), num("2"), num("3")]);
    assert_eq!(mode(&tree, &FracturedJsonOptions::default(), 0), LayoutMode::Inline);
}

#[test]
fn inline_needs_the_complexity_budget() {
    let tree = arr(vec![arr(vec![num("1")])]);
    let options = FracturedJsonOptions::default();
    assert!(!should_inline(&ItemRef::from_root(&tree, &options), &options, 0));
    let generous = FracturedJsonOptions { max_inline_complexity: 2, ..options };
    assert!(should_inline(&ItemRef::from_root(&tree, &generous), &generous, 0));
}

#[test]
fn inline_needs_the_line_to_fit() {
    let tree = arr(vec![num("1"), num("2"), num("3")]);
    let exact = FracturedJsonOptions { max_total_line_length: 11, ..FracturedJsonOptions::default() };
    assert!(should_inline(&ItemRef::from_root(&tree, &exact), &exact, 0));
    let short = FracturedJsonOptions { max_total_line_length: 10, ..FracturedJsonOptions::default() };
    assert!(!should_inline(&ItemRef::from_root(&tree, &short), &short, 0));
}

#[test]
fn inline_counts_the_indentation() {
    let tree = arr(vec![num("1"), num("2"), num("3")]);
    let options = FracturedJsonOptions { max_total_line_length: 15, ..FracturedJsonOptions::default() };
    let paired = ItemRef::from_root(&tree, &options);
    assert!(should_inline(&paired, &options, 0));
    assert!(should_inline(&paired, &options, 1));
    assert!(!should_inline(&paired, &options, 2));
}

#[test]
fn inline_with_huge_indentation_does_not_overflow() {
    let tree = arr(vec![num("1")]);
    let options = FracturedJsonOptions {
        indent_spaces: usize::MAX,
        max_total_line_length: usize::MAX,
        ..FracturedJsonOptions::default()
    };
    let paired = ItemRef::from_root(&tree, &options);
    assert!(should_inline(&paired, &options, 0));
    assert!(!should_inline(&paired, &options, 1));
    assert!(!should_inline(&paired, &options, 2));
}

#[test]
fn a_zero_line_budget_expands_everything() {
    let options = FracturedJsonOptions {
        max_total_line_length: 0,
        max_table_row_complexity: 0,
        ..FracturedJsonOptions::default()
    };
    let tree = arr(vec![num("1"), num("2")]);
    assert_eq!(mode(&tree, &options, 0), LayoutMode::Expanded);
    assert_eq!(mode(&obj(vec![("a", num("1"))]), &options, 0), LayoutMode::Expanded);
}

#[test]
fn own_comment_prevents_inline() {
    let options = FracturedJsonOptions::default();
    let tree = commented(arr(vec![num("1")]));
    assert!(!should_inline(&ItemRef::from_root(&tree, &options), &options, 0));
}

#[test]
fn removed_comments_do_not_prevent_inline() {
    let options = FracturedJsonOptions {
        comment_policy: CommentPolicy::Remove,
        ..FracturedJsonOptions::default()
    };
    let tree = commented(arr(vec![commented(num("1"))]));
    assert_eq!(mode(&tree, &options, 0), LayoutMode::Inline);
}

#[test]
fn long_enough_array_is_compact() {
    let tree = arr(vec![num("1"), num("2"), num("3"), num("4")]);
    let options = no_inline();
    assert!(should_format_as_compact_array(&ItemRef::from_root(&tree, &options), &options, 0));
    assert_eq!(mode(&tree, &options, 0), LayoutMode::CompactArray);
}

#[test]
fn compact_needs_enough_children() {
    let tree = arr(vec![num("1"), num("2"), num("3")]);
    let options = no_inline();
    assert!(!should_format_as_compact_array(&ItemRef::from_root(&tree, &options), &options, 0));
    let fewer = FracturedJsonOptions { min_compact_array_row_items: 3, ..no_inline() };
    assert!(should_format_as_compact_array(&ItemRef::from_root(&tree, &fewer), &fewer, 0));
}

#[test]
fn compact_is_for_arrays_only() {
    let tree = obj(vec![("a", num("1")), ("b", num("2")), ("c", num("3")), ("d", num("4"))]);
    let options = no_inline();
    assert!(!should_format_as_compact_array(&ItemRef::from_root(&tree, &options), &options, 0));
    assert_ne!(mode(&tree, &options, 0), LayoutMode::CompactArray);
}

#[test]
fn compact_needs_the_complexity_budget() {
    let row = || arr(vec![arr(vec![num("1")])]);
    let tree = arr(vec![row(), row(), row(), row()]);
    let options = no_inline();
    assert!(!should_format_as_compact_array(&ItemRef::from_root(&tree, &options), &options, 0));
    let generous = FracturedJsonOptions { max_compact_array_complexity: 3, ..no_inline() };
    assert!(should_format_as_compact_array(&ItemRef::from_root(&tree, &generous), &generous, 0));
}

#[test]
fn empty_array_is_never_compact() {
    let options = FracturedJsonOptions {
        min_compact_array_row_items: 0,
        max_inline_complexity: 0,
        ..FracturedJsonOptions::default()
    };
    let tree = arr(vec![]);
    assert!(!should_format_as_compact_array(&ItemRef::from_root(&tree, &options), &options, 0));
}

#[test]
fn comments_below_an_array_leave_only_expanded() {
    let tree = arr(vec![commented(num("1")), num("2"), num("3"), num("4")]);
    for options in [
        FracturedJsonOptions::default(),
        no_inline(),
        FracturedJsonOptions { min_compact_array_row_items: 1, ..FracturedJsonOptions::default() },
        FracturedJsonOptions { max_table_row_complexity: 5, ..no_inline() },
    ] {
        for indent in 0..3 {
            assert_eq!(mode(&tree, &options, indent), LayoutMode::Expanded);
        }
    }
}

#[test]
fn uniform_scalars_make_a_table() {
    let tree = arr(vec![num("1"), num("2"), num("3")]);
    let options = no_inline();
    assert!(can_format_as_table_array(&ItemRef::from_root(&tree, &options), &options));
    assert!(should_format_as_table(&ItemRef::from_root(&tree, &options), &options, 0));
    assert_eq!(mode(&tree, &options, 0), LayoutMode::Table);
}

#[test]
fn mixed_scalars_make_no_table() {
    let tree = arr(vec![num("1"), text("a"), scalar(JsonItemType::True, "true")]);
    let options = no_inline();
    assert!(!can_format_as_table_array(&ItemRef::from_root(&tree, &options), &options));
    assert_eq!(mode(&tree, &options, 0), LayoutMode::Expanded);
}

#[test]
fn true_and_false_are_different_row_kinds() {
    let tree = arr(vec![scalar(JsonItemType::True, "true"), scalar(JsonItemType::False, "false")]);
    let options = no_inline();
    assert!(!can_format_as_table_array(&ItemRef::from_root(&tree, &options), &options));
}

#[test]
fn an_empty_row_disqualifies_the_table() {
    let options = FracturedJsonOptions { max_table_row_complexity: 2, ..no_inline() };
    let tree = arr(vec![arr(vec![num("1")]), arr(vec![])]);
    assert!(!can_format_as_table_array(&ItemRef::from_root(&tree, &options), &options));
    let first_empty = arr(vec![obj(vec![]), obj(vec![("a", num("1"))])]);
    assert!(!can_format_as_table_array(&ItemRef::from_root(&first_empty, &options), &options));
}

#[test]
fn comment_rows_make_no_table() {
    let options = no_inline();
    let tree = arr(vec![scalar(JsonItemType::LineComment, "// a")]);
    assert!(!can_format_as_table_array(&ItemRef::from_root(&tree, &options), &options));
}

#[test]
fn table_needs_the_complexity_budget() {
    let tree = arr(vec![arr(vec![num("1")]), arr(vec![num("2")])]);
    let options = no_inline();
    assert!(can_format_as_table_array(&ItemRef::from_root(&tree, &options), &options));
    assert!(!should_format_as_table(&ItemRef::from_root(&tree, &options), &options, 0));
    let generous = FracturedJsonOptions { max_table_row_complexity: 2, ..no_inline() };
    assert!(should_format_as_table(&ItemRef::from_root(&tree, &generous), &generous, 0));
}

#[test]
fn table_row_kinds() {
    let options = FracturedJsonOptions::default();
    let kind = |item: JsonItem| get_item_type_for_table(&ItemRef::from_root(&item, &options));
    assert_eq!(kind(num("1")), Some(JsonItemType::Number));
    assert_eq!(kind(text("a")), Some(JsonItemType::String));
    assert_eq!(kind(scalar(JsonItemType::True, "true")), Some(JsonItemType::True));
    assert_eq!(kind(scalar(JsonItemType::False, "false")), Some(JsonItemType::False));
    assert_eq!(kind(scalar(JsonItemType::Null, "null")), Some(JsonItemType::Null));
    assert_eq!(kind(arr(vec![num("1")])), Some(JsonItemType::Array));
    assert_eq!(kind(obj(vec![("a", num("1"))])), Some(JsonItemType::Object));
    assert_eq!(kind(arr(vec![])), None);
    assert_eq!(kind(obj(vec![])), None);
    assert_eq!(kind(scalar(JsonItemType::LineComment, "//")), None);
    assert_eq!(kind(scalar(JsonItemType::BlockComment, "/**/")), None);
    assert_eq!(kind(JsonItem::new(JsonItemType::BlankLine)), None);
}

#[test]
fn objects_with_the_same_members_make_a_table() {
    let options = FracturedJsonOptions { max_table_row_complexity: 2, ..no_inline() };
    let tree = obj(vec![
        ("a", obj(vec![("x", num("1")), ("y", num("2"))])),
        ("b", obj(vec![("x", num("3")), ("y", text("four"))])),
    ]);
    assert!(can_format_as_table_object(&ItemRef::from_root(&tree, &options), &options));
    assert_eq!(mode(&tree, &options, 0), LayoutMode::Table);
}

#[test]
fn member_order_matters_for_object_tables() {
    let options = FracturedJsonOptions { max_table_row_complexity: 2, ..no_inline() };
    let tree = obj(vec![
        ("a", obj(vec![("x", num("1")), ("y", num("2"))])),
        ("b", obj(vec![("y", num("3")), ("x", num("4"))])),
    ]);
    assert!(!can_format_as_table_object(&ItemRef::from_root(&tree, &options), &options));
    assert_eq!(mode(&tree, &options, 0), LayoutMode::Expanded);
}

#[test]
fn object_tables_need_object_children_with_members() {
    let options = FracturedJsonOptions { max_table_row_complexity: 2, ..no_inline() };
    let scalars = obj(vec![("a", num("1")), ("b", num("2"))]);
    assert!(!can_format_as_table_object(&ItemRef::from_root(&scalars, &options), &options));
    let empties = obj(vec![("a", obj(vec![])), ("b", obj(vec![]))]);
    assert!(!can_format_as_table_object(&ItemRef::from_root(&empties, &options), &options));
    let arrays = obj(vec![("a", arr(vec![num("1")])), ("b", arr(vec![num("2")]))]);
    assert!(!can_format_as_table_object(&ItemRef::from_root(&arrays, &options), &options));
    assert!(!can_format_as_table_object(&ItemRef::from_root(&obj(vec![]), &options), &options));
}

#[test]
fn an_object_with_comments_can_still_be_a_table() {
    let options = FracturedJsonOptions { max_table_row_complexity: 2, ..FracturedJsonOptions::default() };
    let tree = obj(vec![
        ("a", commented(obj(vec![("x", num("1"))]))),
        ("b", obj(vec![("x", num("2"))])),
    ]);
    let paired = ItemRef::from_root(&tree, &options);
    assert!(paired.requires_multiple_lines());
    assert_eq!(select_layout(&paired, &options, 0), LayoutMode::Table);
}

#[test]
fn an_array_with_comments_cannot_be_a_table() {
    let options = FracturedJsonOptions { max_table_row_complexity: 2, ..FracturedJsonOptions::default() };
    let tree = arr(vec![
        commented(obj(vec![("x", num("1"))])),
        obj(vec![("x", num("2"))]),
    ]);
    let paired = ItemRef::from_root(&tree, &options);
    assert!(!should_format_as_table(&paired, &options, 0));
    assert_eq!(select_layout(&paired, &options, 0), LayoutMode::Expanded);
}

#[test]
fn scalars_are_never_tables_or_compact() {
    let options = no_inline();
    let paired_item = num("1");
    let paired = ItemRef::from_root(&paired_item, &options);
    assert!(!should_format_as_table(&paired, &options, 0));
    assert!(!should_format_as_compact_array(&paired, &options, 0));
}

#[test]
fn same_property_names_compares_names_in_order() {
    let options = FracturedJsonOptions::default();
    let a = obj(vec![("x", num("1")), ("y", num("2"))]);
    let b = obj(vec![("x", text("p")), ("y", arr(vec![]))]);
    let c = obj(vec![("x", num("1"))]);
    let d = obj(vec![("x", num("1")), ("z", num("2"))]);
    let pa = ItemRef::from_root(&a, &options);
    let pb = ItemRef::from_root(&b, &options);
    let pc = ItemRef::from_root(&c, &options);
    let pd = ItemRef::from_root(&d, &options);
    assert!(same_property_names(&pa, &pb, &options));
    assert!(!same_property_names(&pa, &pc, &options));
    assert!(!same_property_names(&pa, &pd, &options));
}

#[test]
fn items_that_are_no_objects_have_no_property_names() {
    let options = FracturedJsonOptions::default();
    let a = arr(vec![num("1").with_name("x".to_string())]);
    let b = num("2");
    let empty = obj(vec![]);
    let pa = ItemRef::from_root(&a, &options);
    let pb = ItemRef::from_root(&b, &options);
    let pe = ItemRef::from_root(&empty, &options);
    assert!(same_property_names(&pa, &pb, &options));
    assert!(same_property_names(&pa, &pe, &options));
}

#[test]
fn every_container_gets_a_mode_under_odd_options() {
    let trees = vec![
        arr(vec![]),
        obj(vec![]),
        arr(vec![num("1"), text("two"), arr(vec![obj(vec![("k", num("3"))])])]),
        obj(vec![("a", commented(arr(vec![num("1")])))]),
    ];
    let odd = vec![
        FracturedJsonOptions { max_total_line_length: 0, ..FracturedJsonOptions::default() },
        FracturedJsonOptions { indent_spaces: usize::MAX, ..FracturedJsonOptions::default() },
        FracturedJsonOptions { min_compact_array_row_items: 0, ..no_inline() },
        FracturedJsonOptions {
            max_inline_complexity: u32::MAX,
            max_compact_array_complexity: u32::MAX,
            max_table_row_complexity: u32::MAX,
            max_total_line_length: usize::MAX,
            ..FracturedJsonOptions::default()
        },
    ];
    for tree in &trees {
        for options in &odd {
            for indent in [0usize, 1, 7] {
                let chosen = mode(tree, options, indent);
                let paired = ItemRef::from_root(tree, options);
                let inline = should_inline(&paired, options, indent);
                let compact = should_format_as_compact_array(&paired, options, indent);
                let table = should_format_as_table(&paired, options, indent);
                let expected = if inline {
                    LayoutMode::Inline
                } else if compact {
                    LayoutMode::CompactArray
                } else if table {
                    LayoutMode::Table
                } else {
                    LayoutMode::Expanded
                };
                assert_eq!(chosen, expected);
            }
        }
    }
}
