//! Highlighting through `crossterm`.
//!
//! How a styled text is spelled out depends on the terminal and on the
//! environment of the process, so nothing is claimed about the strings that
//! come back: callers treat them as opaque labels.

use crossterm::style::Stylize;
use vstd::prelude::*;

verus! {

/// `crossterm::style::Stylize::blue` applied to a text, and the styled text
/// written out as a string. Nothing is assumed about the result.
#[verifier::external_body]
pub(crate) fn blue(text: &str) -> (styled: String) {
    text.blue().to_string()
}

/// `crossterm::style::Stylize::underlined` and then `Stylize::blue` applied
/// to one character, and the styled character written out as a string.
/// Nothing is assumed about the result.
#[verifier::external_body]
pub(crate) fn underlined_blue(ch: char) -> (styled: String) {
    ch.underlined().blue().to_string()
}

} // verus!
