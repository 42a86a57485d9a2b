use fractured_json_rs::{
    CommentPolicy, EolStyle, FracturedJsonOptions, NumberListAlignment, TableCommaPlacement,
};

#[test]
fn default_options_have_their_values() {
    let options = FracturedJsonOptions::default();
    assert_eq!(options.json_eol_style, EolStyle::Default);
    assert_eq!(options.max_total_line_length, 120);
    assert_eq!(options.max_inline_complexity, 1);
    assert_eq!(options.max_compact_array_complexity, 2);
    assert_eq!(options.max_table_row_complexity, 1);
    assert_eq!(options.max_prop_name_padding, 40);
    assert!(!options.colon_before_prop_name_padding);
    assert_eq!(options.table_comma_placement, TableCommaPlacement::EndOfLine);
    assert_eq!(options.min_compact_array_row_items, 4);
    assert_eq!(options.always_expand_depth, 0);
    assert!(options.nested_bracket_padding);
    assert!(options.simple_bracket_padding);
    assert!(options.colon_padding);
    assert!(options.comma_padding);
    assert!(options.comment_padding);
    assert_eq!(options.number_list_alignment, NumberListAlignment::Unaligned);
    assert_eq!(options.indent_spaces, 4);
    assert!(!options.use_tab_to_indent);
    assert_eq!(options.prefix_string, "");
    assert_eq!(options.comment_policy, CommentPolicy::Preserve);
    assert!(options.preserve_blank_lines);
    assert!(!options.allow_trailing_commas);
}

#[test]
fn eol_string_follows_the_style() {
    let mut options = FracturedJsonOptions::default();
    assert_eq!(options.eol_string(), "\n");
    options.json_eol_style = EolStyle::Lf;
    assert_eq!(options.eol_string(), "\n");
    options.json_eol_style = EolStyle::Crlf;
    assert_eq!(options.eol_string(), "\r\n");
}

#[test]
fn options_can_be_cloned() {
    let options = FracturedJsonOptions {
        prefix_string: "> ".to_string(),
        indent_spaces: 2,
        ..FracturedJsonOptions::default()
    };
    let copy = options.clone();
    assert_eq!(copy.prefix_string, "> ");
    assert_eq!(copy.indent_spaces, 2);
    assert_eq!(copy.max_total_line_length, 120);
}
