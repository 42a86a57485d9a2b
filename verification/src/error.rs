//! The errors that formatting source text can end in.

use vstd::prelude::*;

verus! {

/// The error of the JSONC parser; nothing of it is read here.
#[verifier::external_type_specification]
#[verifier::external_body]
pub struct ExParseError(jsonc_parser::errors::ParseError);

/// The error of an input or output operation; nothing of it is read here.
#[verifier::external_type_specification]
#[verifier::external_body]
pub struct ExIoError(std::io::Error);

/// Why source text could not be formatted.
#[derive(Debug)]
pub enum FracturedJsonError {
    /// The source text is not a JSONC document.
    ParseError(jsonc_parser::errors::ParseError),
    /// An option has a value that cannot be used.
    InvalidOption(String),
    /// Reading the input or writing the output failed.
    Io(std::io::Error),
    /// The document cannot be laid out.
    FormattingError(String),
}

} // verus!
