use fractured_json_rs::syntax::{SyntaxKind, SyntaxNode};
use fractured_json_rs::transform::{
    as_comment, attach_pending_comment, is_line_comment, transform, transform_array,
    transform_container, transform_leaf, transform_node, transform_object,
};
use fractured_json_rs::{JsonItem, JsonItemType};

fn leaf(kind: SyntaxKind, text: &str) -> SyntaxNode {
    let mut node = SyntaxNode::new(kind);
    node.text = text.to_string();
    node
}

fn token(c: char) -> SyntaxNode {
    leaf(SyntaxKind::Token, &c.to_string())
}

fn space() -> SyntaxNode {
    leaf(SyntaxKind::Whitespace, " ")
}

fn newline() -> SyntaxNode {
    leaf(SyntaxKind::Newline, "\n")
}

fn number(text: &str) -> SyntaxNode {
    leaf(SyntaxKind::NumberLit, text)
}

fn string(decoded: &str) -> SyntaxNode {
    let mut node = leaf(SyntaxKind::StringLit, &format!("\"{}\"", decoded));
    node.decoded = Some(decoded.to_string());
    node
}

fn boolean(truth: bool) -> SyntaxNode {
    let mut node = leaf(SyntaxKind::BooleanLit, if truth { "true" } else { "false" });
    node.truth = truth;
    node
}

fn comment(text: &str) -> SyntaxNode {
    leaf(SyntaxKind::Comment, text)
}

fn container(kind: SyntaxKind, children: Vec<SyntaxNode>) -> SyntaxNode {
    let mut node = SyntaxNode::new(kind);
    node.children = children;
    node
}

fn array(mut inner: Vec<SyntaxNode>) -> SyntaxNode {
    let mut children = vec![token('[')];
    children.append(&mut inner);
    children.push(token(']'));
    container(SyntaxKind::Array, children)
}

fn object(mut inner: Vec<SyntaxNode>) -> SyntaxNode {
    let mut children = vec![token('{')];
    children.append(&mut inner);
    children.push(token('}'));
    container(SyntaxKind::Object, children)
}

fn prop(name: &str, value: SyntaxNode) -> SyntaxNode {
    let mut node = container(SyntaxKind::ObjectProp, vec![string(name), token(':'), space(), value]);
    node.decoded = Some(name.to_string());
    node.value_index = Some(3);
    node
}

fn root(children: Vec<SyntaxNode>) -> SyntaxNode {
    container(SyntaxKind::Root, children)
}

fn item(kind: JsonItemType, value: &str) -> JsonItem {
    JsonItem::new(kind).with_value(value.to_string())
}

#[test]
fn line_comments_start_with_two_slashes() {
    assert!(is_line_comment("// x"));
    assert!(is_line_comment("//"));
    assert!(is_line_comment("///"));
    assert!(!is_line_comment("/* x */"));
    assert!(!is_line_comment("/"));
    assert!(!is_line_comment(""));
    assert!(!is_line_comment(" //"));
    assert!(!is_line_comment("é//"));
}

#[test]
fn as_comment_gives_the_text_of_comments_only() {
    assert_eq!(as_comment(&comment("// c")), Some("// c"));
    assert_eq!(as_comment(&number("1")), None);
    assert_eq!(as_comment(&space()), None);
    assert_eq!(as_comment(&array(vec![])), None);
}

#[test]
fn leaves_become_items() {
    assert_eq!(transform_leaf(&string("a\nb")), item(JsonItemType::String, "a\nb"));
    assert_eq!(transform_leaf(&number("1e3")), item(JsonItemType::Number, "1e3"));
    assert_eq!(transform_leaf(&boolean(true)), item(JsonItemType::True, "true"));
    assert_eq!(transform_leaf(&boolean(false)), item(JsonItemType::False, "false"));
    assert_eq!(
        transform_leaf(&leaf(SyntaxKind::NullKeyword, "null")),
        item(JsonItemType::Null, "null")
    );
    assert_eq!(transform_leaf(&comment("// c")), item(JsonItemType::LineComment, "// c"));
    assert_eq!(transform_leaf(&comment("/* c */")), item(JsonItemType::BlockComment, "/* c */"));
    assert_eq!(transform_leaf(&space()), JsonItem::new(JsonItemType::BlankLine));
    assert_eq!(transform_leaf(&newline()), JsonItem::new(JsonItemType::BlankLine));
    assert_eq!(
        transform_leaf(&leaf(SyntaxKind::WordLit, "word")),
        JsonItem::new(JsonItemType::Null)
    );
    assert_eq!(transform_leaf(&token(',')), JsonItem::new(JsonItemType::Null));
}

#[test]
fn a_string_that_does_not_decode_is_empty() {
    let broken = leaf(SyntaxKind::StringLit, "\"\\q\"");
    assert_eq!(transform_leaf(&broken), item(JsonItemType::String, ""));
}

#[test]
fn a_boolean_goes_by_its_value_not_its_text() {
    let mut odd = leaf(SyntaxKind::BooleanLit, "false");
    odd.truth = true;
    assert_eq!(transform_leaf(&odd), item(JsonItemType::True, "true"));
}

#[test]
fn root_and_property_nodes_in_value_position_become_null() {
    assert_eq!(transform_container(&root(vec![number("1")])), JsonItem::new(JsonItemType::Null));
    assert_eq!(transform_node(&prop("a", number("1"))), JsonItem::new(JsonItemType::Null));
}

#[test]
fn an_empty_document_is_null() {
    assert_eq!(transform(&root(vec![])), JsonItem::new(JsonItemType::Null));
    assert_eq!(
        transform(&root(vec![space(), newline(), comment("// only"), newline()])),
        JsonItem::new(JsonItemType::Null)
    );
}

#[test]
fn the_document_value_is_the_first_child_that_is_no_trivia() {
    let tree = root(vec![newline(), comment("/* head */"), space(), number("7"), newline(), number("8")]);
    assert_eq!(transform(&tree), item(JsonItemType::Number, "7"));
}

#[test]
fn array_elements_skip_tokens_and_blanks() {
    let tree = array(vec![number("1"), token(','), space(), string("two"), token(','), newline(), boolean(false)]);
    let result = transform_array(&tree);
    assert_eq!(result.item_type, JsonItemType::Array);
    assert_eq!(
        result.children,
        vec![
            item(JsonItemType::Number, "1"),
            item(JsonItemType::String, "two"),
            item(JsonItemType::False, "false"),
        ]
    );
    assert_eq!(result.name, "");
    assert_eq!(result.value, "");
}

#[test]
fn a_comment_before_an_element_becomes_its_prefix() {
    let tree = array(vec![newline(), comment("// c"), newline(), number("1"), token(','), number("2")]);
    let result = transform_array(&tree);
    assert_eq!(result.children.len(), 2);
    assert_eq!(result.children[0].prefix_comment, Some("// c".to_string()));
    assert!(result.children[0].is_post_comment_line_style);
    assert_eq!(result.children[0].value, "1");
    assert_eq!(result.children[1], item(JsonItemType::Number, "2"));
}

#[test]
fn a_block_comment_prefix_is_not_line_style() {
    let tree = array(vec![comment("/* c */"), number("1")]);
    let result = transform_array(&tree);
    assert_eq!(result.children[0].prefix_comment, Some("/* c */".to_string()));
    assert!(!result.children[0].is_post_comment_line_style);
}

#[test]
fn of_several_comments_before_an_element_the_last_wins() {
    let tree = array(vec![comment("// one"), newline(), comment("/* two */"), newline(), comment("// three"), newline(), number("42")]);
    let result = transform_array(&tree);
    assert_eq!(result.children.len(), 1);
    assert_eq!(result.children[0].prefix_comment, Some("// three".to_string()));
}

#[test]
fn a_comment_after_the_last_element_stands_alone() {
    let tree = array(vec![number("1"), token(','), number("2"), newline(), comment("// at end"), newline()]);
    let result = transform_array(&tree);
    assert_eq!(
        result.children,
        vec![
            item(JsonItemType::Number, "1"),
            item(JsonItemType::Number, "2"),
            item(JsonItemType::LineComment, "// at end"),
        ]
    );
}

#[test]
fn a_comment_in_an_empty_array_stands_alone() {
    let tree = array(vec![newline(), comment("/* lonely */"), newline()]);
    let result = transform_array(&tree);
    assert_eq!(result.children, vec![item(JsonItemType::BlockComment, "/* lonely */")]);
}

#[test]
fn nested_containers_are_transformed_and_take_prefixes() {
    let inner = array(vec![number("1")]);
    let tree = array(vec![comment("// list"), newline(), inner, token(','), object(vec![])]);
    let result = transform_array(&tree);
    assert_eq!(result.children.len(), 2);
    assert_eq!(result.children[0].item_type, JsonItemType::Array);
    assert_eq!(result.children[0].prefix_comment, Some("// list".to_string()));
    assert_eq!(result.children[0].children, vec![item(JsonItemType::Number, "1")]);
    assert_eq!(result.children[1], JsonItem::new(JsonItemType::Object));
}

#[test]
fn object_members_take_names_and_values() {
    let tree = object(vec![prop("a", number("1")), token(','), space(), prop("b", array(vec![string("x")]))]);
    let result = transform_object(&tree);
    assert_eq!(result.item_type, JsonItemType::Object);
    assert_eq!(result.children.len(), 2);
    assert_eq!(result.children[0], item(JsonItemType::Number, "1").with_name("a".to_string()));
    assert_eq!(result.children[1].name, "b");
    assert_eq!(result.children[1].item_type, JsonItemType::Array);
    assert_eq!(result.children[1].children, vec![item(JsonItemType::String, "x")]);
}

#[test]
fn a_property_without_a_value_is_null() {
    let mut bare = container(SyntaxKind::ObjectProp, vec![string("a"), token(':')]);
    bare.decoded = Some("a".to_string());
    let result = transform_object(&object(vec![bare]));
    assert_eq!(result.children, vec![JsonItem::new(JsonItemType::Null).with_name("a".to_string())]);
}

#[test]
fn a_value_position_outside_the_property_is_null() {
    let mut odd = prop("a", number("1"));
    odd.value_index = Some(99);
    let result = transform_object(&object(vec![odd]));
    assert_eq!(result.children, vec![JsonItem::new(JsonItemType::Null).with_name("a".to_string())]);
}

#[test]
fn a_property_without_a_name_is_left_out() {
    let mut nameless = prop("", number("1"));
    nameless.decoded = Some(String::new());
    let mut undecoded = prop("x", number("2"));
    undecoded.decoded = None;
    let result = transform_object(&object(vec![nameless, token(','), undecoded, token(','), prop("c", number("3"))]));
    assert_eq!(result.children, vec![item(JsonItemType::Number, "3").with_name("c".to_string())]);
}

#[test]
fn comments_inside_a_property_are_middle_and_postfix() {
    let mut one = container(
        SyntaxKind::ObjectProp,
        vec![string("k"), token(':'), space(), comment("/* mid */"), space(), string("v")],
    );
    one.decoded = Some("k".to_string());
    one.value_index = Some(5);
    let result = transform_object(&object(vec![one]));
    assert_eq!(result.children[0].middle_comment, Some("/* mid */".to_string()));
    assert_eq!(result.children[0].postfix_comment, None);
    assert_eq!(result.children[0].value, "v");

    let mut three = container(
        SyntaxKind::ObjectProp,
        vec![string("k"), comment("/* a */"), token(':'), comment("/* b */"), number("1"), comment("// c")],
    );
    three.decoded = Some("k".to_string());
    three.value_index = Some(4);
    let result = transform_object(&object(vec![three]));
    assert_eq!(result.children[0].middle_comment, Some("/* a */".to_string()));
    assert_eq!(result.children[0].postfix_comment, Some("// c".to_string()));
    assert!(result.children[0].is_post_comment_line_style);
}

#[test]
fn a_comment_between_properties_is_the_prefix_of_the_next() {
    let tree = object(vec![
        newline(),
        comment("// first"),
        newline(),
        prop("a", number("1")),
        token(','),
        comment("/* second */"),
        prop("b", number("2")),
        newline(),
        comment("// never attached"),
    ]);
    let result = transform_object(&tree);
    assert_eq!(result.children.len(), 2);
    assert_eq!(result.children[0].prefix_comment, Some("// first".to_string()));
    assert!(result.children[0].is_post_comment_line_style);
    assert_eq!(result.children[1].prefix_comment, Some("/* second */".to_string()));
    assert!(!result.children[1].is_post_comment_line_style);
}

#[test]
fn comments_in_an_object_without_members_stand_alone() {
    let tree = object(vec![newline(), comment("// empty object"), newline(), comment("/* too */")]);
    let result = transform_object(&tree);
    assert_eq!(
        result.children,
        vec![
            item(JsonItemType::LineComment, "// empty object"),
            item(JsonItemType::BlockComment, "/* too */"),
        ]
    );
}

#[test]
fn prefixes_go_by_property_position_even_past_nameless_ones() {
    let mut nameless = prop("", number("0"));
    nameless.decoded = None;
    let tree = object(vec![
        comment("// for the nameless"),
        nameless,
        token(','),
        comment("// for a"),
        prop("a", number("1")),
        token(','),
        prop("b", number("2")),
    ]);
    let result = transform_object(&tree);
    assert_eq!(result.children.len(), 2);
    assert_eq!(result.children[0].name, "a");
    assert_eq!(result.children[0].prefix_comment, Some("// for the nameless".to_string()));
    assert_eq!(result.children[1].name, "b");
    assert_eq!(result.children[1].prefix_comment, Some("// for a".to_string()));
}

#[test]
fn attach_pending_comment_moves_the_comment() {
    let mut target = item(JsonItemType::Number, "1");
    let mut pending = Some("// c".to_string());
    let mut line = Some(true);
    attach_pending_comment(&mut target, &mut pending, &mut line);
    assert_eq!(target.prefix_comment, Some("// c".to_string()));
    assert!(target.is_post_comment_line_style);
    assert_eq!(target.value, "1");
    assert_eq!(pending, None);
    assert_eq!(line, None);
}

#[test]
fn attach_pending_comment_without_a_comment_changes_nothing() {
    let mut target = item(JsonItemType::Number, "1");
    target.prefix_comment = Some("/* kept */".to_string());
    let before = target.clone();
    let mut pending = None;
    let mut line = None;
    attach_pending_comment(&mut target, &mut pending, &mut line);
    assert_eq!(target, before);
    assert_eq!(pending, None);
    assert_eq!(line, None);
}

#[test]
fn the_built_tree_keeps_the_data_model_invariant() {
    fn check(item: &JsonItem, in_object: bool) {
        if !in_object {
            assert_eq!(item.name, "");
        }
        if !item.item_type.is_structural() {
            assert!(item.children.is_empty());
        }
        for child in &item.children {
            check(child, item.item_type == JsonItemType::Object);
        }
    }
    let tree = root(vec![object(vec![
        comment("// head"),
        prop("list", array(vec![comment("/* x */"), number("1"), token(','), object(vec![prop("k", string("v"))])])),
        token(','),
        prop("flag", boolean(true)),
        comment("// tail"),
    ])]);
    check(&transform(&tree), false);
}

#[test]
fn attach_pending_comment_without_a_flag_keeps_the_flag() {
    let mut target = item(JsonItemType::Number, "1");
    target.is_post_comment_line_style = true;
    let mut pending = Some("/* c */".to_string());
    let mut line = None;
    attach_pending_comment(&mut target, &mut pending, &mut line);
    assert_eq!(target.prefix_comment, Some("/* c */".to_string()));
    assert!(target.is_post_comment_line_style);
    assert_eq!(pending, None);
    assert_eq!(line, None);
}

#[test]
fn attach_pending_comment_leaves_a_lone_flag_waiting() {
    let mut target = item(JsonItemType::Number, "1");
    let mut pending = None;
    let mut line = Some(true);
    attach_pending_comment(&mut target, &mut pending, &mut line);
    assert_eq!(target, item(JsonItemType::Number, "1"));
    assert_eq!(line, Some(true));
}

#[test]
fn built_items_stand_at_the_origin() {
    fn check(item: &JsonItem) {
        assert_eq!(item.input_position.line, 0);
        assert_eq!(item.input_position.column, 0);
        for child in &item.children {
            check(child);
        }
    }
    let tree = root(vec![object(vec![
        comment("// head"),
        prop("list", array(vec![number("1"), token(','), object(vec![prop("k", string("v"))])])),
    ])]);
    check(&transform(&tree));
}
