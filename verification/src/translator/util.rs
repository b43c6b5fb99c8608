//! Canonical bodies of catalog strings.

pub mod stat;

use crate::pattern::{regex_replaced, replace_all};
use crate::text::{contains, has_infix};
use vstd::prelude::*;

verus! {

/// Separates the lines of a modifier that spans several lines.
pub const LINE_SEPARATOR: &'static str = "\n";

/// The pattern of the characters that a canonical body leaves out: every
/// ASCII character but the percent sign.
pub const ASCII_BUT_PERCENT: &'static str = r"[\u{0000}-\u{0024}\u{0026}-\u{007F}]";

/// The canonical body of a text: the text with every match of
/// [`ASCII_BUT_PERCENT`] taken out.
pub open spec fn zh_body(text: Seq<char>) -> Seq<char> {
    match regex_replaced(ASCII_BUT_PERCENT@, text, seq![]) {
        Some(body) => body,
        None => text,
    }
}

/// The canonical body of a catalog string or of a string to look up: the
/// text with every ASCII character but the percent sign taken out, so that
/// a template and the texts that fit it meet under one body.
pub fn get_zh_body(text: &str) -> (body: String)
    ensures
        body@ == zh_body(text@),
{
    let empty = "";
    proof {
        reveal_strlit("");
        assert(empty@ == Seq::<char>::empty());
    }
    match replace_all(ASCII_BUT_PERCENT, text, empty) {
        Some(body) => body,
        None => text.to_owned(),
    }
}

/// Whether a property name carries a first parameter slot.
pub fn is_dynamic_property(text: &str) -> (r: bool)
    ensures
        r == has_infix(text@, "{0}"@),
{
    contains(text, "{0}")
}

} // verus!
