//! Trusted wrappers around the `colored` crate's terminal styling.
//!
//! Whether colouring is applied depends on the environment (a terminal, the
//! colour override variables), so nothing exact can be promised of the
//! rendered text.  What holds of every outcome, per `colored`'s `Display`
//! implementation: the input text is written verbatim — either alone, or
//! between an escape prefix and the reset sequence — provided the input
//! itself holds no terminal escape character (an inner reset sequence would
//! be rewritten); and characters are only ever added, never removed.

use crate::text::contains_seq;
use crate::text::has_escape;
use colored::Colorize;
use vstd::prelude::*;

verus! {

/// Relies on colored's Colorize::bright_green for &str: the rendered string
/// keeps the input text intact when it holds no escape character.
#[verifier::external_body]
pub(crate) fn paint_bright_green(s: &str) -> (r: String)
    ensures
        r@.len() >= s@.len(),
        r@ == s@ || has_escape(r@),
        !has_escape(s@) ==> contains_seq(r@, s@),
{
    s.bright_green().to_string()
}

/// Relies on colored's Colorize::green for &str: the rendered string keeps
/// the input text intact when it holds no escape character.
#[verifier::external_body]
pub(crate) fn paint_green(s: &str) -> (r: String)
    ensures
        r@.len() >= s@.len(),
        r@ == s@ || has_escape(r@),
        !has_escape(s@) ==> contains_seq(r@, s@),
{
    s.green().to_string()
}

/// Relies on colored's Colorize::red for &str: the rendered string keeps
/// the input text intact when it holds no escape character.
#[verifier::external_body]
pub(crate) fn paint_red(s: &str) -> (r: String)
    ensures
        r@.len() >= s@.len(),
        r@ == s@ || has_escape(r@),
        !has_escape(s@) ==> contains_seq(r@, s@),
{
    s.red().to_string()
}

/// Relies on colored's Colorize::blue for &str: the rendered string keeps
/// the input text intact when it holds no escape character.
#[verifier::external_body]
pub(crate) fn paint_blue(s: &str) -> (r: String)
    ensures
        r@.len() >= s@.len(),
        r@ == s@ || has_escape(r@),
        !has_escape(s@) ==> contains_seq(r@, s@),
{
    s.blue().to_string()
}

/// Relies on colored's Colorize::purple for &str: the rendered string keeps
/// the input text intact when it holds no escape character.
#[verifier::external_body]
pub(crate) fn paint_purple(s: &str) -> (r: String)
    ensures
        r@.len() >= s@.len(),
        r@ == s@ || has_escape(r@),
        !has_escape(s@) ==> contains_seq(r@, s@),
{
    s.purple().to_string()
}

/// Relies on colored's Colorize::white for &str: the rendered string keeps
/// the input text intact when it holds no escape character.
#[verifier::external_body]
pub(crate) fn paint_white(s: &str) -> (r: String)
    ensures
        r@.len() >= s@.len(),
        r@ == s@ || has_escape(r@),
        !has_escape(s@) ==> contains_seq(r@, s@),
{
    s.white().to_string()
}

/// Relies on colored's Colorize::yellow for &str: the rendered string keeps
/// the input text intact when it holds no escape character.
#[verifier::external_body]
pub(crate) fn paint_yellow(s: &str) -> (r: String)
    ensures
        r@.len() >= s@.len(),
        r@ == s@ || has_escape(r@),
        !has_escape(s@) ==> contains_seq(r@, s@),
{
    s.yellow().to_string()
}

/// Relies on colored's Colorize::bold for &str: the rendered string keeps
/// the input text intact when it holds no escape character.
#[verifier::external_body]
pub(crate) fn paint_bold(s: &str) -> (r: String)
    ensures
        r@.len() >= s@.len(),
        r@ == s@ || has_escape(r@),
        !has_escape(s@) ==> contains_seq(r@, s@),
{
    s.bold().to_string()
}

} // verus!
