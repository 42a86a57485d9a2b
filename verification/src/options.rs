//! Layout preferences: size budgets, padding toggles and the enumerations
//! that fix low-level output details.

use vstd::prelude::*;

verus! {

/// Which line ending the output uses.
#[derive(Debug, Clone, Copy, PartialEq, Eq, Structural)]
pub enum EolStyle {
    Lf,
    Crlf,
    Default,
}

/// Where the comma that separates two table rows is placed.
#[derive(Debug, Clone, Copy, PartialEq, Eq, Structural)]
pub enum TableCommaPlacement {
    EndOfLine,
    NextLine,
}

/// How the numbers of an all-number list are aligned.
#[derive(Debug, Clone, Copy, PartialEq, Eq, Structural)]
pub enum NumberListAlignment {
    Unaligned,
    Left,
    Decimal,
}

/// Whether comments are written out or dropped.
#[derive(Debug, Clone, Copy, PartialEq, Eq, Structural)]
pub enum CommentPolicy {
    Preserve,
    Remove,
}

/// All layout preferences of one formatting call.
#[derive(Debug, Clone)]
pub struct FracturedJsonOptions {
    pub json_eol_style: EolStyle,
    pub max_total_line_length: usize,
    pub max_inline_complexity: u32,
    pub max_compact_array_complexity: u32,
    pub max_table_row_complexity: u32,
    pub max_prop_name_padding: usize,
    pub colon_before_prop_name_padding: bool,
    pub table_comma_placement: TableCommaPlacement,
    pub min_compact_array_row_items: usize,
    pub always_expand_depth: i32,
    pub nested_bracket_padding: bool,
    pub simple_bracket_padding: bool,
    pub colon_padding: bool,
    pub comma_padding: bool,
    pub comment_padding: bool,
    pub number_list_alignment: NumberListAlignment,
    pub indent_spaces: usize,
    pub use_tab_to_indent: bool,
    pub prefix_string: String,
    pub comment_policy: CommentPolicy,
    pub preserve_blank_lines: bool,
    pub allow_trailing_commas: bool,
}

impl Default for FracturedJsonOptions {
    fn default() -> (r: Self)
        ensures
            r.json_eol_style == EolStyle::Default,
            r.max_total_line_length == 120,
            r.max_inline_complexity == 1,
            r.max_compact_array_complexity == 2,
            r.max_table_row_complexity == 1,
            r.max_prop_name_padding == 40,
            !r.colon_before_prop_name_padding,
            r.table_comma_placement == TableCommaPlacement::EndOfLine,
            r.min_compact_array_row_items == 4,
            r.always_expand_depth == 0,
            r.nested_bracket_padding,
            r.simple_bracket_padding,
            r.colon_padding,
            r.comma_padding,
            r.comment_padding,
            r.number_list_alignment == NumberListAlignment::Unaligned,
            r.indent_spaces == 4,
            !r.use_tab_to_indent,
            r.prefix_string@ == Seq::<char>::empty(),
            r.comment_policy == CommentPolicy::Preserve,
            r.preserve_blank_lines,
            !r.allow_trailing_commas,
    {
        FracturedJsonOptions {
            json_eol_style: EolStyle::Default,
            max_total_line_length: 120,
            max_inline_complexity: 1,
            max_compact_array_complexity: 2,
            max_table_row_complexity: 1,
            max_prop_name_padding: 40,
            colon_before_prop_name_padding: false,
            table_comma_placement: TableCommaPlacement::EndOfLine,
            min_compact_array_row_items: 4,
            always_expand_depth: 0,
            nested_bracket_padding: true,
            simple_bracket_padding: true,
            colon_padding: true,
            comma_padding: true,
            comment_padding: true,
            number_list_alignment: NumberListAlignment::Unaligned,
            indent_spaces: 4,
            use_tab_to_indent: false,
            prefix_string: String::new(),
            comment_policy: CommentPolicy::Preserve,
            preserve_blank_lines: true,
            allow_trailing_commas: false,
        }
    }
}

impl FracturedJsonOptions {
    /// The line ending as a character sequence: carriage return and line
    /// feed for `Crlf`, a single line feed otherwise.
    pub open spec fn eol(&self) -> Seq<char> {
        match self.json_eol_style {
            EolStyle::Crlf => seq!['\r', '\n'],
            _ => seq!['\n'],
        }
    }

    /// Whether comments take part in the output and in layout decisions.
    pub open spec fn keeps_comments(&self) -> bool {
        self.comment_policy == CommentPolicy::Preserve
    }

    /// The line ending selected by `json_eol_style`.
    pub fn eol_string(&self) -> (r: &'static str)
        ensures
            r@ == self.eol(),
    {
        match self.json_eol_style {
            EolStyle::Lf => {
                proof {
                    reveal_strlit("\n");
                }
                assert("\n"@ =~= seq!['\n']);
                "\n"
            },
            EolStyle::Crlf => {
                proof {
                    reveal_strlit("\r\n");
                }
                assert("\r\n"@ =~= seq!['\r', '\n']);
                "\r\n"
            },
            EolStyle::Default => {
                proof {
                    reveal_strlit("\n");
                }
                assert("\n"@ =~= seq!['\n']);
                "\n"
            },
        }
    }
}

} // verus!
