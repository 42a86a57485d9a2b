use fractured_json_rs::computed::ItemRef;
use fractured_json_rs::{CommentPolicy, FracturedJsonOptions, JsonItem, JsonItemType};

fn scalar(kind: JsonItemType, text: &str) -> JsonItem {
    JsonItem::new(kind).with_value(text.to_string())
}

fn num(text: &str) -> JsonItem {
    scalar(JsonItemType::Number, text)
}

fn arr(children: Vec<JsonItem>) -> JsonItem {
    let mut item = JsonItem::new(JsonItemType::Array);
    item.children = children;
    item
}

fn obj(members: Vec<(&str, JsonItem)>) -> JsonItem {
    let mut item = JsonItem::new(JsonItemType::Object);
    for (name, value) in members {
        item.children.push(value.with_name(name.to_string()));
    }
    item
}

fn with_prefix(mut item: JsonItem, comment: &str) -> JsonItem {
    item.prefix_comment = Some(comment.to_string());
    item
}

fn tight() -> FracturedJsonOptions {
    FracturedJsonOptions {
        comma_padding: false,
        simple_bracket_padding: false,
        ..FracturedJsonOptions::default()
    }
}

#[test]
fn leaves_have_complexity_zero() {
    let options = FracturedJsonOptions::default();
    for kind in [
        JsonItemType::Null,
        JsonItemType::True,
        JsonItemType::False,
        JsonItemType::String,
        JsonItemType::Number,
        JsonItemType::LineComment,
        JsonItemType::BlockComment,
        JsonItemType::BlankLine,
    ] {
        let item = scalar(kind, "text");
        assert_eq!(ItemRef::from_root(&item, &options).complexity(), 0);
    }
}

#[test]
fn container_complexity_is_one_more_than_the_deepest_child() {
    let options = FracturedJsonOptions::default();
    assert_eq!(ItemRef::from_root(&arr(vec![]), &options).complexity(), 1);
    assert_eq!(ItemRef::from_root(&obj(vec![]), &options).complexity(), 1);
    assert_eq!(ItemRef::from_root(&arr(vec![num("1")]), &options).complexity(), 1);
    let nested = arr(vec![num("1"), arr(vec![arr(vec![])]), obj(vec![("a", num("1"))])]);
    assert_eq!(ItemRef::from_root(&nested, &options).complexity(), 3);
}

#[test]
fn complexity_strictly_exceeds_every_child() {
    let options = FracturedJsonOptions::default();
    let tree = obj(vec![
        ("a", arr(vec![num("1"), arr(vec![num("2")])])),
        ("b", obj(vec![("c", obj(vec![]))])),
        ("d", num("3")),
    ]);
    fn check(item: &ItemRef) {
        for child in &item.children {
            if item.item_type().is_structural() {
                assert!(item.complexity() > child.complexity());
            }
            check(child);
        }
    }
    check(&ItemRef::from_root(&tree, &options));
}

#[test]
fn scalar_minimum_length_is_the_byte_length() {
    let options = FracturedJsonOptions::default();
    assert_eq!(ItemRef::from_root(&num("12345"), &options).minimum_total_length(), 5);
    let text = scalar(JsonItemType::String, "é世");
    assert_eq!(ItemRef::from_root(&text, &options).minimum_total_length(), 5);
    let comment = scalar(JsonItemType::LineComment, "// hi");
    assert_eq!(ItemRef::from_root(&comment, &options).minimum_total_length(), 5);
}

#[test]
fn blank_line_minimum_length_is_zero() {
    let options = FracturedJsonOptions::default();
    let blank = scalar(JsonItemType::BlankLine, "ignored");
    assert_eq!(ItemRef::from_root(&blank, &options).minimum_total_length(), 0);
}

#[test]
fn array_minimum_length_with_padding() {
    let options = FracturedJsonOptions::default();
    let tree = arr(vec![num("1"), num("2"), num("3")]);
    assert_eq!(ItemRef::from_root(&tree, &options).minimum_total_length(), 3 + 2 * 2 + 2 + 2);
}

#[test]
fn array_minimum_length_without_padding() {
    let tree = arr(vec![num("1"), num("2"), num("3")]);
    assert_eq!(ItemRef::from_root(&tree, &tight()).minimum_total_length(), 3 + 2 + 2);
}

#[test]
fn empty_container_minimum_length() {
    let options = FracturedJsonOptions::default();
    assert_eq!(ItemRef::from_root(&arr(vec![]), &options).minimum_total_length(), 4);
    assert_eq!(ItemRef::from_root(&obj(vec![]), &options).minimum_total_length(), 4);
    assert_eq!(ItemRef::from_root(&arr(vec![]), &tight()).minimum_total_length(), 2);
    assert_eq!(ItemRef::from_root(&obj(vec![]), &tight()).minimum_total_length(), 2);
}

#[test]
fn object_minimum_length_counts_names_quotes_and_colons() {
    let options = FracturedJsonOptions::default();
    let tree = obj(vec![("a", num("1")), ("bc", num("22"))]);
    let members = (1 + 1 + 2 + 1) + (2 + 1 + 2 + 2);
    assert_eq!(ItemRef::from_root(&tree, &options).minimum_total_length(), members + 2 + 2 + 2);
    assert_eq!(ItemRef::from_root(&tree, &tight()).minimum_total_length(), members + 1 + 2);
}

#[test]
fn nested_minimum_length_adds_up() {
    let tree = obj(vec![("k", arr(vec![num("10"), num("20")]))]);
    let inner = 2 + 2 + 1 + 2;
    assert_eq!(ItemRef::from_root(&tree, &tight()).minimum_total_length(), (1 + 3 + inner) + 2);
}

#[test]
fn array_elements_do_not_count_names() {
    let tree = arr(vec![num("1").with_name("stray".to_string())]);
    assert_eq!(ItemRef::from_root(&tree, &tight()).minimum_total_length(), 1 + 2);
}

#[test]
fn comment_on_a_child_forces_the_parent() {
    let options = FracturedJsonOptions::default();
    let tree = arr(vec![with_prefix(num("1"), "// c"), num("2")]);
    let paired = ItemRef::from_root(&tree, &options);
    assert!(paired.requires_multiple_lines());
    assert!(!paired.children[0].requires_multiple_lines());
    assert!(!paired.children[1].requires_multiple_lines());
}

#[test]
fn middle_and_postfix_comments_force_too() {
    let options = FracturedJsonOptions::default();
    let mut middle = num("1");
    middle.middle_comment = Some("/* m */".to_string());
    assert!(ItemRef::from_root(&arr(vec![middle]), &options).requires_multiple_lines());
    let mut postfix = num("1");
    postfix.postfix_comment = Some("// p".to_string());
    assert!(ItemRef::from_root(&obj(vec![("a", postfix)]), &options).requires_multiple_lines());
}

#[test]
fn forcing_reaches_every_ancestor() {
    let options = FracturedJsonOptions::default();
    let deep = arr(vec![with_prefix(num("1"), "// deep")]);
    let tree = obj(vec![("a", arr(vec![obj(vec![("b", deep)])])), ("c", arr(vec![num("2")]))]);
    let paired = ItemRef::from_root(&tree, &options);
    assert!(paired.requires_multiple_lines());
    assert!(paired.children[0].requires_multiple_lines());
    assert!(paired.children[0].children[0].requires_multiple_lines());
    assert!(paired.children[0].children[0].children[0].requires_multiple_lines());
    assert!(!paired.children[1].requires_multiple_lines());
}

#[test]
fn a_comment_on_the_node_itself_does_not_force_it() {
    let options = FracturedJsonOptions::default();
    let tree = with_prefix(arr(vec![num("1")]), "// on the array");
    assert!(!ItemRef::from_root(&tree, &options).requires_multiple_lines());
}

#[test]
fn comment_children_force_their_container() {
    let options = FracturedJsonOptions::default();
    let line = arr(vec![scalar(JsonItemType::LineComment, "// alone")]);
    assert!(ItemRef::from_root(&line, &options).requires_multiple_lines());
    let block = obj(vec![("a", num("1"))]);
    let mut block = block;
    block.children.push(scalar(JsonItemType::BlockComment, "/* tail */"));
    assert!(ItemRef::from_root(&block, &options).requires_multiple_lines());
    let outer = arr(vec![arr(vec![scalar(JsonItemType::LineComment, "// deep")])]);
    assert!(ItemRef::from_root(&outer, &options).requires_multiple_lines());
}

#[test]
fn blank_line_children_do_not_force() {
    let options = FracturedJsonOptions::default();
    let tree = arr(vec![JsonItem::new(JsonItemType::BlankLine)]);
    assert!(!ItemRef::from_root(&tree, &options).requires_multiple_lines());
}

#[test]
fn removed_comments_do_not_force() {
    let options = FracturedJsonOptions {
        comment_policy: CommentPolicy::Remove,
        ..FracturedJsonOptions::default()
    };
    let tree = arr(vec![arr(vec![with_prefix(num("1"), "// c")])]);
    let paired = ItemRef::from_root(&tree, &options);
    assert!(!paired.requires_multiple_lines());
    assert!(!paired.children[0].requires_multiple_lines());
}

#[test]
fn scalars_never_force() {
    let options = FracturedJsonOptions::default();
    let item = with_prefix(num("1"), "// c");
    assert!(!ItemRef::from_root(&item, &options).requires_multiple_lines());
}

#[test]
fn pairing_mirrors_the_tree() {
    let options = FracturedJsonOptions::default();
    let tree = obj(vec![("first", arr(vec![num("1"), num("2")])), ("second", num("3"))]);
    let paired = ItemRef::from_root(&tree, &options);
    assert_eq!(paired.children.len(), 2);
    assert_eq!(paired.children[0].children.len(), 2);
    assert_eq!(paired.children[0].name(), "first");
    assert_eq!(paired.children[1].name(), "second");
    assert_eq!(paired.children[1].value(), "3");
    assert_eq!(paired.children[0].children[1].value(), "2");
    assert_eq!(paired.item_type(), JsonItemType::Object);
    assert_eq!(paired.children[0].item_type(), JsonItemType::Array);
}

#[test]
fn getters_report_the_item() {
    let options = FracturedJsonOptions::default();
    let mut item = scalar(JsonItemType::String, "héllo").with_name("ké".to_string());
    item.prefix_comment = Some("// p".to_string());
    item.middle_comment = Some("/* m */".to_string());
    item.postfix_comment = Some("// q".to_string());
    item.is_post_comment_line_style = true;
    let paired = ItemRef::from_root(&item, &options);
    assert_eq!(paired.name(), "ké");
    assert_eq!(paired.value(), "héllo");
    assert_eq!(paired.name_length(), 3);
    assert_eq!(paired.value_length(), 6);
    assert!(paired.has_comments());
    assert!(!paired.is_empty());
    assert_eq!(paired.prefix_comment(), Some("// p"));
    assert_eq!(paired.middle_comment(), Some("/* m */"));
    assert_eq!(paired.postfix_comment(), Some("// q"));
    assert!(paired.is_post_comment_line_style());
    assert_eq!(paired.complexity(), 0);
    assert_eq!(paired.minimum_total_length(), 6);
    assert!(!paired.requires_multiple_lines());
}

#[test]
fn getters_report_missing_comments() {
    let options = FracturedJsonOptions::default();
    let item = arr(vec![]);
    let paired = ItemRef::from_root(&item, &options);
    assert!(!paired.has_comments());
    assert!(paired.is_empty());
    assert_eq!(paired.prefix_comment(), None);
    assert_eq!(paired.middle_comment(), None);
    assert_eq!(paired.postfix_comment(), None);
    assert!(!paired.is_post_comment_line_style());
}

#[test]
fn try_from_root_agrees_with_from_root() {
    let options = FracturedJsonOptions::default();
    let tree = obj(vec![("a", arr(vec![num("1"), num("22")]))]);
    let checked = ItemRef::try_from_root(&tree, &options).expect("the metrics fit");
    let plain = ItemRef::from_root(&tree, &options);
    assert_eq!(checked.complexity(), plain.complexity());
    assert_eq!(checked.minimum_total_length(), plain.minimum_total_length());
    assert_eq!(checked.requires_multiple_lines(), plain.requires_multiple_lines());
    assert_eq!(checked.children.len(), plain.children.len());
}

#[test]
fn a_pairing_can_be_cloned() {
    let options = FracturedJsonOptions::default();
    let tree = obj(vec![("a", arr(vec![num("1"), num("22")]))]);
    let paired = ItemRef::from_root(&tree, &options);
    let copy = paired.clone();
    assert_eq!(copy.complexity(), paired.complexity());
    assert_eq!(copy.minimum_total_length(), paired.minimum_total_length());
    assert_eq!(copy.children.len(), 1);
    assert_eq!(copy.children[0].children[1].value(), "22");
    assert_eq!(copy.computed.clone().name_length, paired.computed.name_length);
}
