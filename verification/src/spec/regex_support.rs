//! Regular expressions, through the `regex` crate.
use vstd::prelude::*;

use crate::spec::text::Text;

verus! {

#[verifier::external_type_specification]
#[verifier::external_body]
pub struct ExRegex(regex::Regex);

/// Whether `regex::Regex::new` accepts the pattern `p`.
pub uninterp spec fn regex_valid(p: Seq<char>) -> bool;

/// Whether the regular expression `p` matches somewhere in `t`
/// (`Regex::is_match`).
pub uninterp spec fn regex_is_match(p: Seq<char>, t: Seq<char>) -> bool;

/// The text of capture group `i` of the first match of `p` in `t`
/// (`Regex::captures`, then `Captures::get`): `None` if there is no match,
/// `Some(None)` if the group took part in no match.
pub uninterp spec fn regex_capture_index(p: Seq<char>, t: Seq<char>, i: usize) -> Option<
    Option<Seq<char>>,
>;

/// The text of the capture group named `n` of the first match of `p` in `t`
/// (`Regex::captures`, then `Captures::name`).
pub uninterp spec fn regex_capture_name(p: Seq<char>, t: Seq<char>, n: Seq<char>) -> Option<
    Option<Seq<char>>,
>;

/// A compiled regular expression together with its pattern.
pub struct CompiledPattern {
    pattern: Text,
    re: regex::Regex,
}

impl CompiledPattern {
    /// The pattern this was compiled from.
    pub closed spec fn pattern_view(&self) -> Seq<char> {
        self.pattern@
    }

    /// The pattern this was compiled from.
    pub fn pattern(&self) -> (r: &Text)
        ensures
            r@ == self.pattern_view(),
    {
        &self.pattern
    }
}

/// `regex::Regex::new(pattern)`: `Some` exactly when the pattern is valid.
#[verifier::external_body]
pub(crate) fn compile_regex(pattern: &Text) -> (r: Option<CompiledPattern>)
    ensures
        r is Some <==> regex_valid(pattern@),
        r matches Some(c) ==> c.pattern_view() == pattern@,
{
    match regex::Regex::new(pattern.as_str()) {
        Ok(re) => Some(CompiledPattern { pattern: pattern.clone(), re }),
        Err(_) => None,
    }
}

/// `Regex::is_match`.
#[verifier::external_body]
pub(crate) fn regex_matches(c: &CompiledPattern, text: &Text) -> (r: bool)
    ensures
        r == regex_is_match(c.pattern_view(), text@),
{
    c.re.is_match(text.as_str())
}

/// `Regex::captures` and `Captures::get`.
#[verifier::external_body]
pub(crate) fn regex_group_by_index(c: &CompiledPattern, text: &Text, i: usize) -> (r: Option<Option<String>>)
    ensures
        match r {
            None => regex_capture_index(c.pattern_view(), text@, i) is None,
            Some(None) => regex_capture_index(c.pattern_view(), text@, i) == Some(None::<Seq<char>>),
            Some(Some(s)) => regex_capture_index(c.pattern_view(), text@, i) == Some(Some(s@)),
        },
{
    match c.re.captures(text.as_str()) {
        None => None,
        Some(caps) => match caps.get(i) {
            None => Some(None),
            Some(m) => Some(Some(m.as_str().to_string())),
        },
    }
}

/// `Regex::captures` and `Captures::name`.
#[verifier::external_body]
pub(crate) fn regex_group_by_name(c: &CompiledPattern, text: &Text, name: &Text) -> (r: Option<Option<String>>)
    ensures
        match r {
            None => regex_capture_name(c.pattern_view(), text@, name@) is None,
            Some(None) => regex_capture_name(c.pattern_view(), text@, name@) == Some(None::<Seq<char>>),
            Some(Some(s)) => regex_capture_name(c.pattern_view(), text@, name@) == Some(Some(s@)),
        },
{
    match c.re.captures(text.as_str()) {
        None => None,
        Some(caps) => match caps.name(name.as_str()) {
            None => Some(None),
            Some(m) => Some(Some(m.as_str().to_string())),
        },
    }
}

} // verus!
