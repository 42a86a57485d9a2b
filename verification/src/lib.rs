//! Layout engine that renders a comment-annotated JSON document tree as
//! human-friendly text.
//!
//! Every object and array is laid out on its own: on one line, packed
//! several elements to a line, as a table of aligned columns, or expanded
//! with one child per line. The choice follows from three metrics of the
//! subtree (its complexity, its minimum length, and whether a comment
//! forces it onto several lines) and from the budgets in the options.
//!
//! - [`types`] and [`options`] hold the document tree and the layout
//!   preferences.
//! - [`computed`] is the metrics pass, [`layout`] the layout selector.
//! - [`render`] defines, as mathematical text, what every item renders to;
//!   [`formatter`] holds the renderers, which are proved to write exactly
//!   that. [`text`], [`numbers`] and [`table`] are their tools.
//! - [`lines`] and [`removal`] prove what inline layout and comment removal
//!   mean for the rendered text.
//! - [`syntax`], [`parser`] and [`transform`] lead from source text to the
//!   document tree.

pub mod computed;
pub mod error;
pub mod formatter;
pub mod layout;
pub mod lines;
pub mod numbers;
pub mod options;
pub mod parser;
pub mod removal;
pub mod render;
pub mod syntax;
pub mod table;
pub mod text;
pub mod transform;
pub mod types;

pub use error::FracturedJsonError;
pub use transform::transform;
pub use options::{
    CommentPolicy, EolStyle, FracturedJsonOptions, NumberListAlignment, TableCommaPlacement,
};
pub use types::{InputPosition, JsonItem, JsonItemType, Node};

use crate::computed::metrics_fit;
use crate::removal::effective;
use crate::render::document_text;
use crate::syntax::{syntax_depth, Syntax, SyntaxNode};
use crate::transform::document_item;
use vstd::prelude::*;
use vstd::string::StringExecFns;

verus! {

/// What formatting a syntax tree gives: the rendering of its document
/// tree, or a formatting error where a metric of the tree that is in effect
/// does not fit its machine integer.
pub open spec fn formatted(
    tree: Syntax,
    opts: FracturedJsonOptions,
    r: Result<String, FracturedJsonError>,
) -> bool {
    match r {
        Ok(text) => metrics_fit(effective(document_item(tree), opts), opts) && text@
            == document_text(document_item(tree), opts),
        Err(error) => !metrics_fit(effective(document_item(tree), opts), opts)
            && error is FormattingError,
    }
}

/// Formats a syntax tree: builds its document tree and renders it under
/// the options.
pub fn format_syntax(tree: &SyntaxNode, options: &FracturedJsonOptions) -> (r: Result<
    String,
    FracturedJsonError,
>)
    ensures
        formatted(tree@, *options, r),
{
    let json_item = transform(tree);
    match formatter::try_format(&json_item, options) {
        Some(text) => Ok(text),
        None => Err(
            FracturedJsonError::FormattingError(
                String::from_str("the document is too large to lay out"),
            ),
        ),
    }
}

/// Formats JSONC source text under the options. A text that the parser
/// refuses gives the parser's error. A text that parses is formatted as the
/// syntax tree the parser has for it; a tree deeper than
/// `MAX_SYNTAX_DEPTH`, or a document too large to lay out, gives a
/// formatting error.
pub fn format_jsonc(input: &str, options: &FracturedJsonOptions) -> (r: Result<
    String,
    FracturedJsonError,
>)
    ensures
        match parser::parsed_syntax(input@) {
            None => r matches Err(error) && error is ParseError,
            Some(tree) => if syntax_depth(tree) <= parser::MAX_SYNTAX_DEPTH {
                formatted(tree, *options, r)
            } else {
                r matches Err(error) && error is FormattingError
            },
        },
{
    match parser::parse_syntax(input) {
        Ok(Some(tree)) => format_syntax(&tree, options),
        Ok(None) => Err(
            FracturedJsonError::FormattingError(
                String::from_str("the document is nested too deeply"),
            ),
        ),
        Err(error) => Err(FracturedJsonError::ParseError(error)),
    }
}

} // verus!
