//! Event patterns: compiled match expressions and the fields they yield.
use vstd::prelude::*;
use regex::bytes::Regex;

verus! {

/// regex::bytes::Regex, carried opaquely: a compiled match expression.
#[verifier::external_type_specification]
#[verifier::external_body]
pub struct ExRegex(regex::bytes::Regex);

/// regex::bytes::RegexSet, carried opaquely: several expressions compiled together.
#[verifier::external_type_specification]
#[verifier::external_body]
pub struct ExRegexSet(regex::bytes::RegexSet);

/// regex::Error, the failure of a compilation; only its presence is used.
#[verifier::external_type_specification]
#[verifier::external_body]
pub struct ExRegexError(regex::Error);

/// Whether the regex crate accepts `pattern` as a match expression.
pub uninterp spec fn compiles(pattern: Seq<char>) -> bool;

/// The capture groups (group 0 first) of the leftmost match of `pattern` in
/// `line`, or `None` when the pattern does not match anywhere in the line.
pub uninterp spec fn captures_of(pattern: Seq<char>, line: Seq<u8>) -> Option<Seq<Option<Seq<u8>>>>;

/// The event categories that can be tracked.
#[derive(Clone, Copy, Debug, PartialEq, Eq, Structural)]
pub enum Category {
    /// Appends to a log, with a first offset and a byte count.
    Append,
    /// Named scheduled tasks, counted per name.
    Named,
}

/// A match expression that failed to compile.
#[derive(Clone, Copy, Debug, PartialEq, Eq, Structural)]
pub struct PatternError {
    /// The category whose expression failed, or `None` for the combined set
    /// of all tracked expressions.
    pub category: Option<Category>,
}

/// The text of the match expression used for a category unless another is
/// configured.
pub open spec fn default_source(category: Category) -> Seq<char> {
    match category {
        Category::Append => r"^.* with first offset: ([0-9]+).*value=([0-9]+).*$"@,
        Category::Named => r".* scheduled task '(.+?)'.*"@,
    }
}

/// The match expression used for a category unless another is configured.
pub fn default_pattern(category: Category) -> (r: &'static str)
    ensures
        r@ == default_source(category),
{
    match category {
        Category::Append => r"^.* with first offset: ([0-9]+).*value=([0-9]+).*$",
        Category::Named => r".* scheduled task '(.+?)'.*",
    }
}

/// One compiled event pattern, together with the text it was compiled from.
/// The regex is only ever built from `source`, by `EventPattern::new`.
pub struct EventPattern {
    category: Category,
    source: String,
    regex: Regex,
}

/// The view of a list of optional captured groups.
pub open spec fn groups_view(g: Seq<Option<Vec<u8>>>) -> Seq<Option<Seq<u8>>> {
    g.map_values(|o: Option<Vec<u8>>| match o {
        Some(b) => Some(b@),
        None => None,
    })
}

/// The view of a capture result.
pub open spec fn captures_view(c: Option<Vec<Option<Vec<u8>>>>) -> Option<Seq<Option<Seq<u8>>>> {
    match c {
        Some(g) => Some(groups_view(g@)),
        None => None,
    }
}

/// Relies on regex::bytes::Regex::new: success depends on the pattern text alone.
#[verifier::external_body]
fn compile_regex(source: &str) -> (r: Result<Regex, regex::Error>)
    ensures
        r.is_ok() == compiles(source@),
{
    Regex::new(source)
}

/// Relies on regex::bytes::Regex::captures (and Captures::iter to list the
/// groups): the groups of the leftmost match, which depend on the pattern and
/// the line alone.
#[verifier::external_body]
fn regex_captures(p: &EventPattern, line: &[u8]) -> (r: Option<Vec<Option<Vec<u8>>>>)
    ensures
        captures_view(r) == captures_of(p.source@, line@),
{
    p.regex.captures(line).map(|c| c.iter().map(|m| m.map(|m| m.as_bytes().to_vec())).collect())
}

impl EventPattern {
    pub closed spec fn category_spec(&self) -> Category {
        self.category
    }

    pub closed spec fn source_spec(&self) -> Seq<char> {
        self.source@
    }

    /// Compiles `source` as the match expression of `category`.
    pub fn new(category: Category, source: &str) -> (r: Result<EventPattern, PatternError>)
        ensures
            r.is_ok() == compiles(source@),
            r matches Ok(p) ==> p.category_spec() == category && p.source_spec() == source@,
            r matches Err(e) ==> e.category == Some(category),
    {
        match compile_regex(source) {
            Ok(regex) => Ok(EventPattern { category, source: source.to_string(), regex }),
            Err(_) => Err(PatternError { category: Some(category) }),
        }
    }

    pub fn category(&self) -> (r: Category)
        ensures
            r == self.category_spec(),
    {
        self.category
    }

    pub fn source(&self) -> (r: &str)
        ensures
            r@ == self.source_spec(),
    {
        self.source.as_str()
    }

    /// The capture groups of this pattern's leftmost match in `line`.
    pub fn captures(&self, line: &[u8]) -> (r: Option<Vec<Option<Vec<u8>>>>)
        ensures
            captures_view(r) == captures_of(self.source_spec(), line@),
    {
        regex_captures(self, line)
    }
}

} // verus!
