//! The shapes of the four record lines, and the search for them.
//!
//! The shapes are regular expressions, and the `regex` crate does the
//! searching. What it finds is not spelled out here: it goes by the name
//! [`regex_captures`].

use vstd::prelude::*;

verus! {

/// The shape of a vertex line: `v` and three numbers.
pub const VERTEX_PATTERN: &'static str =
    r"v[ ]*(?P<x>(([-]?\d*\.?\d*)(e-\d*)?)) (?P<y>(([-]?\d*\.?\d*)(e-\d*)?)) (?P<z>(([-]?\d*\.?\d*)(e-\d*)?))";

/// The shape of a texture coordinate line: `vt` and one to three numbers.
pub const TEXCOORD_PATTERN: &'static str =
    r"vt[ ]*(?P<u>(([-]?\d*\.?\d*)(e-\d*)?))[ ]*(?P<v>(([-]?\d*\.?\d*)(e-\d*)?))?[ ]*(?P<w>(([-]?\d*\.?\d*)(e-\d*)?))?";

/// The shape of a normal line: `vn` and three numbers.
pub const NORMAL_PATTERN: &'static str =
    r"vn[ ]*(?P<x>(([-]?\d*\.?\d*)(e-\d*)?)) (?P<y>(([-]?\d*\.?\d*)(e-\d*)?)) (?P<z>(([-]?\d*\.?\d*)(e-\d*)?))";

/// The shape of a face line: `f` and three corners, each written as
/// `point/texture/normal`.
pub const FACE_PATTERN: &'static str =
    r"f[ ]*(?P<px>\d*)/(?P<tx>\d*)/(?P<nx>\d*) (?P<py>\d*)/(?P<ty>\d*)/(?P<ny>\d*) (?P<pz>\d*)/(?P<tz>\d*)/(?P<nz>\d*)";

/// In the patterns for numbers, the group that holds the first number.
pub const FIRST_NUMBER: usize = 1;

/// In the patterns for numbers, the group that holds the second number.
pub const SECOND_NUMBER: usize = 5;

/// In the patterns for numbers, the group that holds the third number.
pub const THIRD_NUMBER: usize = 9;

/// What a search found: for each capture group of the pattern, in the order
/// in which the groups open, the text it matched, or `None` where the group
/// took no part. Group 0 is the whole match.
pub type Groups = Seq<Option<Seq<char>>>;

/// What the `regex` crate finds when it searches `text` for `pattern`: the
/// groups of the leftmost match, or `None` where `text` holds no match or
/// `pattern` is no regular expression.
pub uninterp spec fn regex_captures(pattern: Seq<char>, text: Seq<char>) -> Option<Seq<Option<Seq<char>>>>;

/// The texts of a list of groups.
pub open spec fn groups_view(groups: Seq<Option<String>>) -> Groups {
    Seq::new(
        groups.len(),
        |i: int|
            match groups[i] {
                Some(text) => Some(text@),
                None => None,
            },
    )
}

/// The texts of what a search found.
pub open spec fn captures_view(found: Option<Vec<Option<String>>>) -> Option<Groups> {
    match found {
        Some(groups) => Some(groups_view(groups@)),
        None => None,
    }
}

/// The text of group `index`, where there is such a group and it took part
/// in the match.
pub open spec fn group(groups: Groups, index: int) -> Option<Seq<char>> {
    if 0 <= index < groups.len() {
        groups[index]
    } else {
        None
    }
}

/// Searches `text` for `pattern`.
///
/// Not verified: compiles the pattern with `regex::Regex::new`, searches with
/// `Regex::captures` and copies the text of each group that
/// `Captures::iter` yields. The contract only gives the outcome its name.
#[verifier::external_body]
pub(crate) fn captures(pattern: &str, text: &str) -> (found: Option<Vec<Option<String>>>)
    ensures
        captures_view(found) == regex_captures(pattern@, text@),
{
    let compiled = regex::Regex::new(pattern).ok()?;
    let found = compiled.captures(text)?;
    Some(found.iter().map(|group| group.map(|part| part.as_str().to_string())).collect())
}

/// The text of group `index` of `groups`.
pub fn group_text(groups: &Vec<Option<String>>, index: usize) -> (text: Option<&str>)
    ensures
        match text {
            Some(text) => group(groups_view(groups@), index as int) == Some(text@),
            None => group(groups_view(groups@), index as int) is None,
        },
{
    if index < groups.len() {
        match &groups[index] {
            Some(text) => Some(text.as_str()),
            None => None,
        }
    } else {
        None
    }
}

} // verus!
