//! Line classification: which enabled categories a line belongs to, and the
//! fields it yields for each, by either of two interchangeable strategies.
use vstd::prelude::*;
use crate::fields::{decimal_value, parse_u64, parses_as_u64};
use crate::pattern::{
    captures_of, captures_view, compiles, default_pattern, default_source, Category, EventPattern,
    PatternError,
};
use regex::bytes::RegexSet;

verus! {

/// Group `i` of a capture list; `None` where the list has no such group.
pub open spec fn group_at(caps: Seq<Option<Seq<u8>>>, i: int) -> Option<Seq<u8>> {
    if 0 <= i < caps.len() {
        caps[i]
    } else {
        None
    }
}

/// The fields of an append event: the first offset (group 1) and the byte
/// count (group 2), both unsigned integers. `Err` when a group is missing or
/// does not parse.
pub open spec fn append_fields_of(caps: Option<Seq<Option<Seq<u8>>>>) -> Result<Option<(u64, u64)>, ()> {
    match caps {
        None => Ok(None),
        Some(c) => match (group_at(c, 1), group_at(c, 2)) {
            (Some(a), Some(b)) => if parses_as_u64(a) && parses_as_u64(b) {
                Ok(Some((decimal_value(a) as u64, decimal_value(b) as u64)))
            } else {
                Err(())
            },
            _ => Err(()),
        },
    }
}

/// The field of a named event: the name (group 1). `Err` when it is missing.
pub open spec fn named_key_of(caps: Option<Seq<Option<Seq<u8>>>>) -> Result<Option<Seq<u8>>, ()> {
    match caps {
        None => Ok(None),
        Some(c) => match group_at(c, 1) {
            Some(k) => Ok(Some(k)),
            None => Err(()),
        },
    }
}

/// What a line yields for the append category, when it is tracked with `source`.
pub open spec fn append_outcome(source: Option<Seq<char>>, line: Seq<u8>) -> Result<Option<(u64, u64)>, ()> {
    match source {
        None => Ok(None),
        Some(s) => append_fields_of(captures_of(s, line)),
    }
}

/// What a line yields for the named category, when it is tracked with `source`.
pub open spec fn named_outcome(source: Option<Seq<char>>, line: Seq<u8>) -> Result<Option<Seq<u8>>, ()> {
    match source {
        None => Ok(None),
        Some(s) => named_key_of(captures_of(s, line)),
    }
}

/// The classification of one line: the fields of every tracked category, or
/// the first category (append before named) whose fields fail to convert.
pub open spec fn line_outcome(append: Option<Seq<char>>, named: Option<Seq<char>>, line: Seq<u8>) -> Result<(Option<(u64, u64)>, Option<Seq<u8>>), Category> {
    match append_outcome(append, line) {
        Err(_) => Err(Category::Append),
        Ok(a) => match named_outcome(named, line) {
            Err(_) => Err(Category::Named),
            Ok(n) => Ok((a, n)),
        },
    }
}

/// Reads the append fields out of a capture list.
pub fn extract_append(caps: &Option<Vec<Option<Vec<u8>>>>) -> (r: Result<Option<(u64, u64)>, ()>)
    ensures
        r == append_fields_of(captures_view(*caps)),
{
    match caps {
        None => Ok(None),
        Some(g) => {
            let ghost c = captures_view(*caps)->Some_0;
            if g.len() < 3 {
                return Err(());
            }
            assert(group_at(c, 1) == match g@[1] { Some(b) => Some(b@), None => None::<Seq<u8>> });
            assert(group_at(c, 2) == match g@[2] { Some(b) => Some(b@), None => None::<Seq<u8>> });
            match (&g[1], &g[2]) {
                (Some(a), Some(b)) => match (parse_u64(a.as_slice()), parse_u64(b.as_slice())) {
                    (Some(x), Some(y)) => Ok(Some((x, y))),
                    _ => Err(()),
                },
                _ => Err(()),
            }
        },
    }
}

/// Reads the named-event key out of a capture list.
pub fn extract_named(caps: Option<Vec<Option<Vec<u8>>>>) -> (r: Result<Option<Vec<u8>>, ()>)
    ensures
        named_key_view(r) == named_key_of(captures_view(caps)),
{
    match caps {
        None => Ok(None),
        Some(g) => {
            let ghost c = captures_view(caps)->Some_0;
            if g.len() < 2 {
                return Err(());
            }
            assert(group_at(c, 1) == match g@[1] { Some(b) => Some(b@), None => None::<Seq<u8>> });
            let mut g = g;
            match g.swap_remove(1) {
                Some(k) => Ok(Some(k)),
                None => Err(()),
            }
        },
    }
}

/// The view of an extracted named-event key.
pub open spec fn named_key_view(r: Result<Option<Vec<u8>>, ()>) -> Result<Option<Seq<u8>>, ()> {
    match r {
        Ok(Some(k)) => Ok(Some(k@)),
        Ok(None) => Ok(None),
        Err(()) => Err(()),
    }
}

} // verus!

verus! {

/// How a line is matched against the tracked patterns. Both strategies give
/// the same classification; they differ in how many scans a line costs.
#[derive(Clone, Copy, Debug, PartialEq, Eq, Structural)]
pub enum Strategy {
    /// Each tracked pattern is run on its own against every line.
    Sequential,
    /// One scan of all tracked patterns together tells which of them match;
    /// only those are then run for their capture groups.
    Combined,
}

/// The tracked patterns compiled into one set. `set` is only ever built from
/// `sources`, by `CombinedScan::new`.
pub struct CombinedScan {
    sources: Vec<String>,
    set: RegexSet,
}

/// The views of a list of strings.
pub open spec fn strings_view(v: Seq<String>) -> Seq<Seq<char>> {
    v.map_values(|s: String| s@)
}

/// Relies on regex::bytes::RegexSet::matches: entry `i` tells whether the
/// `i`-th expression of the set matches anywhere in the line, as that
/// expression compiled alone would.
#[verifier::external_body]
fn set_matches(scan: &CombinedScan, line: &[u8]) -> (r: Vec<bool>)
    ensures
        r@.len() == scan.sources@.len(),
        forall|i: int|
            0 <= i < scan.sources@.len() ==> r@[i] == (#[trigger] captures_of(
                scan.sources@[i]@,
                line@,
            )).is_some(),
{
    let m = scan.set.matches(line);
    (0..scan.sources.len()).map(|i| m.matched(i)).collect()
}

/// Whether the regex crate accepts the expressions `patterns`, compiled
/// together as one set.
pub uninterp spec fn set_compiles(patterns: Seq<Seq<char>>) -> bool;

/// Relies on regex::bytes::RegexSet::new to build one set from the given
/// texts: success depends on the texts alone.
#[verifier::external_body]
fn compile_set(sources: &Vec<String>) -> (r: Result<RegexSet, regex::Error>)
    ensures
        r.is_ok() == set_compiles(strings_view(sources@)),
{
    RegexSet::new(sources)
}

impl CombinedScan {
    pub closed spec fn sources_spec(&self) -> Seq<Seq<char>> {
        strings_view(self.sources@)
    }

    fn new(sources: Vec<String>) -> (r: Option<CombinedScan>)
        ensures
            r is Some == set_compiles(strings_view(sources@)),
            r matches Some(c) ==> c.sources_spec() == strings_view(sources@),
    {
        match compile_set(&sources) {
            Ok(set) => Some(CombinedScan { sources, set }),
            Err(_) => None,
        }
    }

    fn matches(&self, line: &[u8]) -> (r: Vec<bool>)
        ensures
            r@.len() == self.sources_spec().len(),
            forall|i: int|
                0 <= i < self.sources_spec().len() ==> r@[i] == (#[trigger] captures_of(
                    self.sources_spec()[i],
                    line@,
                )).is_some(),
    {
        set_matches(self, line)
    }
}

/// The sources of the tracked patterns, append first.
pub open spec fn enabled_sources(append: Option<Seq<char>>, named: Option<Seq<char>>) -> Seq<Seq<char>> {
    (match append {
        Some(a) => seq![a],
        None => Seq::empty(),
    }) + (match named {
        Some(n) => seq![n],
        None => Seq::empty(),
    })
}

/// The default expression of `category` when it is tracked, else `None`.
pub open spec fn tracked_default(track: bool, category: Category) -> Option<Seq<char>> {
    if track {
        Some(default_source(category))
    } else {
        None
    }
}

/// The view of an optional string.
pub open spec fn opt_view(s: Option<&str>) -> Option<Seq<char>> {
    match s {
        Some(t) => Some(t@),
        None => None,
    }
}

/// The fields that one line yields, for each tracked category that matched.
pub struct LineFields {
    pub append: Option<(u64, u64)>,
    pub named: Option<Vec<u8>>,
}

/// The view of a line's classification.
pub open spec fn line_fields_view(r: Result<LineFields, Category>) -> Result<(Option<(u64, u64)>, Option<Seq<u8>>), Category> {
    match r {
        Ok(f) => Ok((
            f.append,
            match f.named {
                Some(k) => Some(k@),
                None => None,
            },
        )),
        Err(c) => Err(c),
    }
}

/// The compiled patterns of the tracked categories and the chosen strategy.
pub struct Classifier {
    append: Option<EventPattern>,
    named: Option<EventPattern>,
    scan: Option<CombinedScan>,
}

impl Classifier {
    /// The match expression of the append category, if it is tracked.
    pub closed spec fn append_source(&self) -> Option<Seq<char>> {
        match self.append {
            Some(p) => Some(p.source_spec()),
            None => None,
        }
    }

    /// The match expression of the named category, if it is tracked.
    pub closed spec fn named_source(&self) -> Option<Seq<char>> {
        match self.named {
            Some(p) => Some(p.source_spec()),
            None => None,
        }
    }

    /// The strategy this classifier was built with.
    pub closed spec fn strategy_spec(&self) -> Strategy {
        if self.scan is Some {
            Strategy::Combined
        } else {
            Strategy::Sequential
        }
    }

    pub closed spec fn wf(&self) -> bool {
        &&& (self.scan matches Some(s) ==> s.sources_spec() == enabled_sources(
            self.append_source(),
            self.named_source(),
        ))
    }

    /// Compiles the given match expressions of the tracked categories (`None`
    /// leaves a category untracked). A malformed expression is reported for
    /// the first category, append before named, that has one; with the
    /// combined strategy the set of all tracked expressions must compile too.
    pub fn new(strategy: Strategy, append: Option<&str>, named: Option<&str>) -> (r: Result<
        Classifier,
        PatternError,
    >)
        ensures
            r matches Ok(c) ==> {
                &&& c.wf()
                &&& c.append_source() == opt_view(append)
                &&& c.named_source() == opt_view(named)
                &&& c.strategy_spec() == strategy
            },
            (append matches Some(a) && !compiles(a@)) ==> r == Err::<Classifier, PatternError>(
                PatternError { category: Some(Category::Append) },
            ),
            (append matches Some(a) ==> compiles(a@)) && (named matches Some(n) && !compiles(n@))
                ==> r == Err::<Classifier, PatternError>(
                PatternError { category: Some(Category::Named) },
            ),
            (append matches Some(a) ==> compiles(a@)) && (named matches Some(n) ==> compiles(n@)) ==> (
            r is Ok || (strategy == Strategy::Combined && r == Err::<Classifier, PatternError>(
                PatternError { category: None },
            ))),
            strategy == Strategy::Combined && (append matches Some(a) ==> compiles(a@)) && (
            named matches Some(n) ==> compiles(n@)) ==> (r is Ok <==> set_compiles(
                enabled_sources(opt_view(append), opt_view(named)),
            )),
            strategy == Strategy::Sequential && (append matches Some(a) ==> compiles(a@)) && (
            named matches Some(n) ==> compiles(n@)) ==> r is Ok,
    {
        let ap = match append {
            Some(a) => match EventPattern::new(Category::Append, a) {
                Ok(p) => Some(p),
                Err(_) => {
                    return Err(PatternError { category: Some(Category::Append) });
                },
            },
            None => None,
        };
        let np = match named {
            Some(n) => match EventPattern::new(Category::Named, n) {
                Ok(p) => Some(p),
                Err(_) => {
                    return Err(PatternError { category: Some(Category::Named) });
                },
            },
            None => None,
        };
        let scan = match strategy {
            Strategy::Sequential => None,
            Strategy::Combined => {
                let mut sources: Vec<String> = Vec::new();
                match &ap {
                    Some(p) => sources.push(p.source().to_string()),
                    None => {},
                }
                match &np {
                    Some(p) => sources.push(p.source().to_string()),
                    None => {},
                }
                let ghost want = enabled_sources(opt_view(append), opt_view(named));
                assert(strings_view(sources@) =~= want);
                match CombinedScan::new(sources) {
                    Some(s) => Some(s),
                    None => {
                        return Err(PatternError { category: None });
                    },
                }
            },
        };
        Ok(Classifier { append: ap, named: np, scan })
    }

    /// A classifier for the tracked categories with their default expressions.
    /// It fails exactly as `Classifier::new` does on those expressions.
    pub fn with_defaults(strategy: Strategy, track_append: bool, track_named: bool) -> (r: Result<
        Classifier,
        PatternError,
    >)
        ensures
            r matches Ok(c) ==> {
                &&& c.wf()
                &&& c.append_source() == tracked_default(track_append, Category::Append)
                &&& c.named_source() == tracked_default(track_named, Category::Named)
                &&& c.strategy_spec() == strategy
            },
            (track_append && !compiles(default_source(Category::Append))) ==> r == Err::<
                Classifier,
                PatternError,
            >(PatternError { category: Some(Category::Append) }),
            (track_append ==> compiles(default_source(Category::Append))) && (track_named
                && !compiles(default_source(Category::Named))) ==> r == Err::<
                Classifier,
                PatternError,
            >(PatternError { category: Some(Category::Named) }),
            (track_append ==> compiles(default_source(Category::Append))) && (track_named
                ==> compiles(default_source(Category::Named))) ==> (r is Ok || (strategy
                == Strategy::Combined && r == Err::<Classifier, PatternError>(
                PatternError { category: None },
            ))),
            strategy == Strategy::Sequential && (track_append ==> compiles(
                default_source(Category::Append),
            )) && (track_named ==> compiles(default_source(Category::Named))) ==> r is Ok,
            strategy == Strategy::Combined && (track_append ==> compiles(
                default_source(Category::Append),
            )) && (track_named ==> compiles(default_source(Category::Named))) ==> (r is Ok
                <==> set_compiles(
                enabled_sources(
                    tracked_default(track_append, Category::Append),
                    tracked_default(track_named, Category::Named),
                ),
            )),
    {
        let a = if track_append {
            Some(default_pattern(Category::Append))
        } else {
            None
        };
        let n = if track_named {
            Some(default_pattern(Category::Named))
        } else {
            None
        };
        assert(opt_view(a) == tracked_default(track_append, Category::Append));
        assert(opt_view(n) == tracked_default(track_named, Category::Named));
        Classifier::new(strategy, a, n)
    }

    /// The strategy this classifier was built with.
    pub fn strategy(&self) -> (r: Strategy)
        ensures
            r == self.strategy_spec(),
    {
        match self.scan {
            Some(_) => Strategy::Combined,
            None => Strategy::Sequential,
        }
    }

    /// Classifies one line: the fields of each tracked category that matches
    /// it, or the first category whose captured fields do not convert. The
    /// result does not depend on the strategy.
    pub fn classify(&self, line: &[u8]) -> (r: Result<LineFields, Category>)
        requires
            self.wf(),
        ensures
            line_fields_view(r) == line_outcome(self.append_source(), self.named_source(), line@),
    {
        let mut run_append = true;
        let mut run_named = true;
        match &self.scan {
            None => {},
            Some(s) => {
                let m = s.matches(line);
                let ghost src = s.sources_spec();
                let mut i: usize = 0;
                if self.append.is_some() {
                    assert(src[0] == self.append_source()->Some_0);
                    run_append = m[0];
                    i = 1;
                }
                if self.named.is_some() {
                    assert(src[i as int] == self.named_source()->Some_0);
                    run_named = m[i];
                }
            },
        }
        let a = match &self.append {
            None => Ok(None),
            Some(p) => if run_append {
                extract_append(&p.captures(line))
            } else {
                Ok(None)
            },
        };
        match a {
            Err(_) => {
                return Err(Category::Append);
            },
            Ok(_) => {},
        }
        let n = match &self.named {
            None => Ok(None),
            Some(p) => if run_named {
                extract_named(p.captures(line))
            } else {
                Ok(None)
            },
        };
        match (a, n) {
            (Ok(av), Ok(nv)) => Ok(LineFields { append: av, named: nv }),
            _ => Err(Category::Named),
        }
    }
}

} // verus!
