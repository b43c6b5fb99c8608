//! The build document: its parts and how each is written.

pub mod build_head;
pub mod config;
pub mod items;
pub mod path_of_building;
pub mod skills;
pub mod slot;
pub mod tree;

use crate::pattern::{captures, regex_groups};
use crate::text::{parse_i32, parsed_i32};
use vstd::prelude::*;

verus! {

/// Matches a run of digits.
pub const DIGITS: &'static str = r"\d+";

/// The number that the first run of digits in a text denotes.
pub open spec fn first_number(s: Seq<char>) -> Option<i32> {
    match regex_groups(DIGITS@, s) {
        Some(groups) => if groups.len() > 0 && groups[0] is Some {
            parsed_i32(groups[0]->0)
        } else {
            None
        },
        None => None,
    }
}

/// Reads the first run of digits in a text as a number, if there is one
/// and it fits.
pub fn extract_number(s: &str) -> (r: Option<i32>)
    ensures
        r == first_number(s@),
{
    match captures(DIGITS, s) {
        Some(groups) => {
            if groups.len() > 0 {
                assert(groups.deep_view()[0] == groups[0].deep_view());
                match &groups[0] {
                    Some(digits) => parse_i32(digits.as_str()),
                    None => None,
                }
            } else {
                None
            }
        },
        None => None,
    }
}

/// A part of the build document.
pub trait Xml {
    /// The text of the part.
    spec fn xml(&self) -> Seq<char>;

    /// Writes the part.
    fn to_string(&self) -> (text: String)
        ensures
            text@ == self.xml(),
    ;
}

/// The first `n` texts with a separator between each two.
pub open spec fn joined(parts: Seq<Seq<char>>, sep: Seq<char>, n: int) -> Seq<char>
    decreases n,
{
    if n <= 0 {
        seq![]
    } else if n == 1 {
        parts[0]
    } else {
        joined(parts, sep, n - 1) + sep + parts[n - 1]
    }
}

/// The texts of some parts.
pub open spec fn texts_of<T: Xml>(list: Seq<T>) -> Seq<Seq<char>> {
    Seq::new(list.len(), |i: int| list[i].xml())
}

/// Writes the parts of a list with a separator between each two.
pub fn join_parts<T: Xml>(list: &Vec<T>, sep: &str) -> (r: String)
    ensures
        r@ == joined(texts_of(list@), sep@, list.len() as int),
{
    let mut r = String::new();
    let mut i: usize = 0;
    while i < list.len()
        invariant
            i <= list.len(),
            r@ == joined(texts_of(list@), sep@, i as int),
        decreases list.len() - i,
    {
        let part = list[i].to_string();
        if i > 0 {
            r.append(sep);
        }
        r.append(part.as_str());
        assert(Seq::<char>::empty() + part@ =~= part@);
        i += 1;
    }
    r
}

/// Writes some texts with a separator between each two.
pub fn join_texts(list: &Vec<String>, sep: &str) -> (r: String)
    ensures
        r@ == joined(list.deep_view(), sep@, list.len() as int),
{
    let mut r = String::new();
    let mut i: usize = 0;
    while i < list.len()
        invariant
            i <= list.len(),
            r@ == joined(list.deep_view(), sep@, i as int),
        decreases list.len() - i,
    {
        if i > 0 {
            r.append(sep);
        }
        r.append(list[i].as_str());
        assert(list.deep_view()[i as int] == list[i as int]@);
        assert(Seq::<char>::empty() + list[i as int]@ =~= list[i as int]@);
        i += 1;
    }
    r
}

/// How a flag is written.
pub open spec fn flag_text(b: bool) -> Seq<char> {
    if b {
        "true"@
    } else {
        "false"@
    }
}

/// Appends a flag.
pub fn push_flag(out: &mut String, b: bool)
    ensures
        final(out)@ == old(out)@ + flag_text(b),
{
    if b {
        out.append("true");
    } else {
        out.append("false");
    }
}

} // verus!
