//! The pass over the input: each line is counted, classified, and its fields
//! folded into the statistics, strictly in order.
use vstd::prelude::*;
use crate::classify::{line_outcome, Classifier};
use crate::pattern::Category;
use crate::stats::{Stats, StatsView};

verus! {

/// A matched line whose captured field does not convert to its declared type.
#[derive(Clone, Copy, Debug, PartialEq, Eq, Structural)]
pub struct FieldParseError {
    /// The number of the line, counting from one.
    pub line: u64,
    /// The category whose field failed.
    pub category: Category,
}

/// The statistics before any line.
pub open spec fn empty_view() -> StatsView {
    StatsView { lines: 0, offsets: Seq::empty(), sizes: Seq::empty(), names: Seq::empty() }
}

/// The statistics after one more line that yielded fields `f`.
pub open spec fn apply_fields(v: StatsView, f: (Option<(u64, u64)>, Option<Seq<u8>>)) -> StatsView {
    StatsView {
        lines: v.lines + 1,
        offsets: match f.0 {
            Some(a) => v.offsets.push(a.0),
            None => v.offsets,
        },
        sizes: match f.0 {
            Some(a) => v.sizes.push(a.1),
            None => v.sizes,
        },
        names: match f.1 {
            Some(k) => v.names.push(k),
            None => v.names,
        },
    }
}

/// The outcome of a pass over `lines` with the given tracked expressions: the
/// statistics of all lines, or the first line whose fields fail to convert.
pub open spec fn run_spec(append: Option<Seq<char>>, named: Option<Seq<char>>, lines: Seq<Seq<u8>>) -> Result<StatsView, FieldParseError>
    decreases lines.len(),
{
    if lines.len() == 0 {
        Ok(empty_view())
    } else {
        match run_spec(append, named, lines.drop_last()) {
            Err(e) => Err(e),
            Ok(v) => match line_outcome(append, named, lines.last()) {
                Err(c) => Err(FieldParseError { line: lines.len() as u64, category: c }),
                Ok(f) => Ok(apply_fields(v, f)),
            },
        }
    }
}

/// The views of a list of lines.
pub open spec fn lines_view(lines: Seq<Vec<u8>>) -> Seq<Seq<u8>> {
    lines.map_values(|l: Vec<u8>| l@)
}

/// Processes one line: counts it, classifies it and records its fields. On
/// a field that fails to convert nothing is recorded, not even the line.
pub fn scrape_line(c: &Classifier, stats: &mut Stats, line: &[u8]) -> (r: Result<(), FieldParseError>)
    requires
        c.wf(),
        old(stats).wf(),
        old(stats)@.lines < u64::MAX,
    ensures
        final(stats).wf(),
        match line_outcome(c.append_source(), c.named_source(), line@) {
            Err(cat) => r == Err::<(), FieldParseError>(
                FieldParseError { line: (old(stats)@.lines + 1) as u64, category: cat },
            ) && final(stats)@ == old(stats)@,
            Ok(f) => r is Ok && final(stats)@ == apply_fields(old(stats)@, f),
        },
{
    let n = stats.no_lines();
    match c.classify(line) {
        Err(cat) => Err(FieldParseError { line: n + 1, category: cat }),
        Ok(f) => {
            proof {
                stats.lemma_counts_bounded();
            }
            stats.record_line();
            match f.append {
                Some((off, nbytes)) => stats.record_append(off, nbytes),
                None => {},
            }
            match f.named {
                Some(k) => stats.record_named(k),
                None => {},
            }
            Ok(())
        },
    }
}

/// After any sequence of lines, a successful pass has counted every line,
/// and no category has more events than there are lines.
pub proof fn lemma_counts_within_lines(append: Option<Seq<char>>, named: Option<Seq<char>>, lines: Seq<Seq<u8>>)
    ensures
        run_spec(append, named, lines) matches Ok(v) ==> {
            &&& v.lines == lines.len()
            &&& v.offsets.len() <= v.lines
            &&& v.names.len() <= v.lines
            &&& v.sizes.len() == v.offsets.len()
        },
    decreases lines.len(),
{
    if lines.len() > 0 {
        lemma_counts_within_lines(append, named, lines.drop_last());
    }
}

proof fn lemma_run_err_extends(append: Option<Seq<char>>, named: Option<Seq<char>>, lines: Seq<Seq<u8>>, i: int)
    requires
        0 <= i <= lines.len(),
        run_spec(append, named, lines.take(i)) is Err,
    ensures
        run_spec(append, named, lines) == run_spec(append, named, lines.take(i)),
    decreases lines.len() - i,
{
    if i < lines.len() {
        assert(lines.take(i + 1).drop_last() =~= lines.take(i));
        lemma_run_err_extends(append, named, lines, i + 1);
    } else {
        assert(lines.take(i) =~= lines);
    }
}

/// Runs a whole pass over `lines` in order and returns the statistics, or
/// the first line whose fields fail to convert.
pub fn scrape(c: &Classifier, lines: &Vec<Vec<u8>>) -> (r: Result<Stats, FieldParseError>)
    requires
        c.wf(),
        lines@.len() < u64::MAX,
    ensures
        match r {
            Ok(s) => s.wf() && run_spec(c.append_source(), c.named_source(), lines_view(lines@)) == Ok::<
                StatsView,
                FieldParseError,
            >(s@),
            Err(e) => run_spec(c.append_source(), c.named_source(), lines_view(lines@)) == Err::<
                StatsView,
                FieldParseError,
            >(e),
        },
{
    let ghost a = c.append_source();
    let ghost n = c.named_source();
    let ghost all = lines_view(lines@);
    let mut stats = Stats::new();
    let mut i: usize = 0;
    while i < lines.len()
        invariant
            c.wf(),
            stats.wf(),
            a == c.append_source(),
            n == c.named_source(),
            all == lines_view(lines@),
            lines@.len() < u64::MAX,
            0 <= i <= lines@.len(),
            stats@.lines == i,
            run_spec(a, n, all.take(i as int)) == Ok::<StatsView, FieldParseError>(stats@),
        decreases lines@.len() - i,
    {
        assert(all.take(i as int + 1).drop_last() =~= all.take(i as int));
        assert(all.take(i as int + 1).last() == lines@[i as int]@);
        match scrape_line(c, &mut stats, lines[i].as_slice()) {
            Err(e) => {
                proof {
                    lemma_run_err_extends(a, n, all, i as int + 1);
                }
                return Err(e);
            },
            Ok(()) => {},
        }
        i += 1;
    }
    assert(all.take(i as int) =~= all);
    Ok(stats)
}

/// A pass in progress: the classifier and the statistics of the lines fed so
/// far. `finish` consumes it, so no line can be recorded after the pass ends.
pub struct Scraper {
    classifier: Classifier,
    stats: Stats,
}

impl Scraper {
    pub closed spec fn wf(&self) -> bool {
        self.classifier.wf() && self.stats.wf()
    }

    /// The tracked append expression.
    pub closed spec fn append_source(&self) -> Option<Seq<char>> {
        self.classifier.append_source()
    }

    /// The tracked named-event expression.
    pub closed spec fn named_source(&self) -> Option<Seq<char>> {
        self.classifier.named_source()
    }

    /// The statistics of the lines fed so far.
    pub closed spec fn stats_view(&self) -> StatsView {
        self.stats@
    }

    /// Starts a pass with no line seen.
    pub fn new(classifier: Classifier) -> (r: Scraper)
        requires
            classifier.wf(),
        ensures
            r.wf(),
            r.append_source() == classifier.append_source(),
            r.named_source() == classifier.named_source(),
            r.stats_view() == empty_view(),
    {
        Scraper { classifier, stats: Stats::new() }
    }

    /// The number of lines fed so far.
    pub fn lines_seen(&self) -> (r: u64)
        ensures
            r == self.stats_view().lines,
    {
        self.stats.no_lines()
    }

    /// Feeds the next line of the pass.
    pub fn feed(&mut self, line: &[u8]) -> (r: Result<(), FieldParseError>)
        requires
            old(self).wf(),
            old(self).stats_view().lines < u64::MAX,
        ensures
            final(self).wf(),
            final(self).append_source() == old(self).append_source(),
            final(self).named_source() == old(self).named_source(),
            match line_outcome(old(self).append_source(), old(self).named_source(), line@) {
                Err(cat) => r == Err::<(), FieldParseError>(
                    FieldParseError { line: (old(self).stats_view().lines + 1) as u64, category: cat },
                ) && final(self).stats_view() == old(self).stats_view(),
                Ok(f) => r is Ok && final(self).stats_view() == apply_fields(old(self).stats_view(), f),
            },
    {
        scrape_line(&self.classifier, &mut self.stats, line)
    }

    /// Ends the pass and hands out its statistics.
    pub fn finish(self) -> (r: Stats)
        requires
            self.wf(),
        ensures
            r.wf(),
            r@ == self.stats_view(),
    {
        self.stats
    }
}

} // verus!
