//! Running statistics over the lines of one pass.
use vstd::prelude::*;
use crate::histogram::{hist_of, lemma_hist_of, total_count, FrequencyTable};

verus! {

/// The smallest element of a non-empty sequence.
pub open spec fn seq_min(s: Seq<u64>) -> u64
    decreases s.len(),
{
    if s.len() <= 1 {
        s[0]
    } else if s.last() < seq_min(s.drop_last()) {
        s.last()
    } else {
        seq_min(s.drop_last())
    }
}

/// The largest element of a non-empty sequence.
pub open spec fn seq_max(s: Seq<u64>) -> u64
    decreases s.len(),
{
    if s.len() <= 1 {
        s[0]
    } else if s.last() > seq_max(s.drop_last()) {
        s.last()
    } else {
        seq_max(s.drop_last())
    }
}

/// The arithmetic total of a sequence.
pub open spec fn seq_sum(s: Seq<u64>) -> nat
    decreases s.len(),
{
    if s.len() == 0 {
        0
    } else {
        seq_sum(s.drop_last()) + s.last() as nat
    }
}

/// The smallest element, or `None` for an empty sequence.
pub open spec fn min_of(s: Seq<u64>) -> Option<u64> {
    if s.len() == 0 {
        None
    } else {
        Some(seq_min(s))
    }
}

/// The largest element, or `None` for an empty sequence.
pub open spec fn max_of(s: Seq<u64>) -> Option<u64> {
    if s.len() == 0 {
        None
    } else {
        Some(seq_max(s))
    }
}

/// Once a value has been recorded, the minimum is at most the maximum, both
/// are among the recorded values, and every recorded value lies between them.
pub proof fn lemma_min_max(s: Seq<u64>)
    requires
        s.len() > 0,
    ensures
        seq_min(s) <= seq_max(s),
        forall|i: int| 0 <= i < s.len() ==> seq_min(s) <= #[trigger] s[i] <= seq_max(s),
        exists|i: int| 0 <= i < s.len() && s[i] == seq_min(s),
        exists|i: int| 0 <= i < s.len() && s[i] == seq_max(s),
    decreases s.len(),
{
    if s.len() > 1 {
        let d = s.drop_last();
        lemma_min_max(d);
        let a = choose|i: int| 0 <= i < d.len() && d[i] == seq_min(d);
        let b = choose|i: int| 0 <= i < d.len() && d[i] == seq_max(d);
        assert(s[a] == d[a]);
        assert(s[b] == d[b]);
        assert forall|i: int| 0 <= i < s.len() implies seq_min(s) <= #[trigger] s[i] <= seq_max(s) by {
            if i < s.len() - 1 {
                assert(s[i] == d[i]);
            }
        }
        if s.last() < seq_min(d) {
            assert(s[s.len() - 1] == seq_min(s));
        }
        if s.last() > seq_max(d) {
            assert(s[s.len() - 1] == seq_max(s));
        }
    } else {
        assert(s[0] == seq_min(s));
    }
}

/// The share of `count` in `total` in hundredths of a percent, rounded to
/// the nearest (halves up); zero when there are no lines at all.
pub fn percent_hundredths(count: u64, total: u64) -> (r: u64)
    requires
        count <= total,
    ensures
        total == 0 ==> r == 0,
        total > 0 ==> r as int == (20000 * count + total) / (2 * total),
        r <= 10000,
{
    if total == 0 {
        return 0;
    }
    let num: u128 = 20000 * (count as u128) + total as u128;
    let den: u128 = 2 * (total as u128);
    proof {
        assert(num < 20001 * (total as int) + 1) by (nonlinear_arith)
            requires
                num == 20000 * count + total,
                count <= total,
        ;
        assert(num / den <= 10000) by (nonlinear_arith)
            requires
                num <= 20001 * (total as int),
                den == 2 * total,
                total > 0,
        ;
    }
    (num / den) as u64
}

proof fn lemma_seq_sum_bound(s: Seq<u64>)
    ensures
        seq_sum(s) <= s.len() * (u64::MAX as nat),
    decreases s.len(),
{
    if s.len() > 0 {
        lemma_seq_sum_bound(s.drop_last());
    }
}

/// Everything recorded so far: the number of lines, the offsets and byte
/// counts of the append events, and the names of the named events, each in
/// the order of the lines they came from.
pub struct StatsView {
    pub lines: nat,
    pub offsets: Seq<u64>,
    pub sizes: Seq<u64>,
    pub names: Seq<Seq<u8>>,
}

/// The statistics of a pass: a shared line count, aggregates of the append
/// events and a frequency table of the named events.
pub struct Stats {
    no_lines: u64,
    appends: u64,
    max_append_offset: Option<u64>,
    min_append_offset: Option<u64>,
    total_bytes_written: u128,
    named_events: u64,
    named_hist: FrequencyTable,
    offsets: Ghost<Seq<u64>>,
    sizes: Ghost<Seq<u64>>,
    names: Ghost<Seq<Seq<u8>>>,
}

impl View for Stats {
    type V = StatsView;

    closed spec fn view(&self) -> StatsView {
        StatsView { lines: self.no_lines as nat, offsets: self.offsets@, sizes: self.sizes@, names: self.names@ }
    }
}

impl Stats {
    pub closed spec fn wf(&self) -> bool {
        &&& self.appends == self.offsets@.len()
        &&& self.sizes@.len() == self.offsets@.len()
        &&& self.appends <= self.no_lines
        &&& self.min_append_offset == min_of(self.offsets@)
        &&& self.max_append_offset == max_of(self.offsets@)
        &&& self.total_bytes_written == seq_sum(self.sizes@)
        &&& self.named_events == self.names@.len()
        &&& self.named_events <= self.no_lines
        &&& self.named_hist.wf()
        &&& self.named_hist@ == hist_of(self.names@)
    }

    /// No category has more events than there are lines, and every append
    /// event has both its offset and its byte count.
    pub proof fn lemma_counts_bounded(&self)
        requires
            self.wf(),
        ensures
            self@.offsets.len() <= self@.lines,
            self@.names.len() <= self@.lines,
            self@.sizes.len() == self@.offsets.len(),
    {
    }

    /// Once an append event has been recorded, the recorded minimum and
    /// maximum offsets are both set, the minimum is at most the maximum, and
    /// every recorded offset lies between them; before that both are unset.
    pub proof fn lemma_offset_bounds(&self)
        requires
            self.wf(),
        ensures
            self@.offsets.len() == 0 ==> min_of(self@.offsets) is None && max_of(self@.offsets) is None,
            self@.offsets.len() > 0 ==> {
                &&& min_of(self@.offsets) matches Some(lo)
                &&& max_of(self@.offsets) matches Some(hi)
                &&& lo <= hi
                &&& forall|i: int| 0 <= i < self@.offsets.len() ==> lo <= #[trigger] self@.offsets[i] <= hi
            },
    {
        if self@.offsets.len() > 0 {
            lemma_min_max(self@.offsets);
        }
    }

    /// The counts of the named events' frequency table add up to the number
    /// of named events.
    pub proof fn lemma_histogram_conservation(&self)
        requires
            self.wf(),
        ensures
            total_count(hist_of(self@.names)) == self@.names.len(),
    {
        lemma_hist_of(self@.names);
    }

    /// Statistics of an empty pass.
    pub fn new() -> (r: Stats)
        ensures
            r.wf(),
            r@ == (StatsView {
                lines: 0,
                offsets: Seq::empty(),
                sizes: Seq::empty(),
                names: Seq::empty(),
            }),
    {
        Stats {
            no_lines: 0,
            appends: 0,
            max_append_offset: None,
            min_append_offset: None,
            total_bytes_written: 0,
            named_events: 0,
            named_hist: FrequencyTable::new(),
            offsets: Ghost(Seq::empty()),
            sizes: Ghost(Seq::empty()),
            names: Ghost(Seq::empty()),
        }
    }

    /// Counts one more input line.
    pub fn record_line(&mut self)
        requires
            old(self).wf(),
            old(self)@.lines < u64::MAX,
        ensures
            final(self).wf(),
            final(self)@ == (StatsView { lines: old(self)@.lines + 1, ..old(self)@ }),
    {
        self.no_lines = self.no_lines + 1;
    }

    /// Records an append event of the current line.
    pub fn record_append(&mut self, offset: u64, bytes: u64)
        requires
            old(self).wf(),
            old(self)@.offsets.len() < old(self)@.lines,
        ensures
            final(self).wf(),
            final(self)@ == (StatsView {
                offsets: old(self)@.offsets.push(offset),
                sizes: old(self)@.sizes.push(bytes),
                ..old(self)@
            }),
    {
        let ghost s0 = self.offsets@;
        let ghost z0 = self.sizes@;
        proof {
            lemma_seq_sum_bound(z0);
            assert(s0.push(offset).drop_last() =~= s0);
            assert(z0.push(bytes).drop_last() =~= z0);
        }
        self.appends = self.appends + 1;
        self.min_append_offset = match self.min_append_offset {
            Some(m) => Some(if offset < m { offset } else { m }),
            None => Some(offset),
        };
        self.max_append_offset = match self.max_append_offset {
            Some(m) => Some(if offset > m { offset } else { m }),
            None => Some(offset),
        };
        assert(z0.len() * (u64::MAX as nat) + u64::MAX <= u64::MAX as nat * u64::MAX as nat)
            by (nonlinear_arith)
            requires
                z0.len() < u64::MAX,
        ;
        self.total_bytes_written = self.total_bytes_written + bytes as u128;
        self.offsets = Ghost(s0.push(offset));
        self.sizes = Ghost(z0.push(bytes));
    }

    /// Records a named event of the current line.
    pub fn record_named(&mut self, key: Vec<u8>)
        requires
            old(self).wf(),
            old(self)@.names.len() < old(self)@.lines,
        ensures
            final(self).wf(),
            final(self)@ == (StatsView { names: old(self)@.names.push(key@), ..old(self)@ }),
    {
        let ghost n0 = self.names@;
        proof {
            lemma_hist_of(n0);
            assert(n0.push(key@).drop_last() =~= n0);
        }
        let ghost k = key@;
        self.named_hist.increment(key);
        self.named_events = self.named_events + 1;
        self.names = Ghost(n0.push(k));
    }

    /// The number of lines seen.
    pub fn no_lines(&self) -> (r: u64)
        ensures
            r == self@.lines,
    {
        self.no_lines
    }

    /// The number of append events.
    pub fn appends(&self) -> (r: u64)
        requires
            self.wf(),
        ensures
            r == self@.offsets.len(),
    {
        self.appends
    }

    /// The smallest first offset of an append event; `None` before the first.
    pub fn min_append_offset(&self) -> (r: Option<u64>)
        requires
            self.wf(),
        ensures
            r == min_of(self@.offsets),
    {
        self.min_append_offset
    }

    /// The largest first offset of an append event; `None` before the first.
    pub fn max_append_offset(&self) -> (r: Option<u64>)
        requires
            self.wf(),
        ensures
            r == max_of(self@.offsets),
    {
        self.max_append_offset
    }

    /// The total of the byte counts of the append events.
    pub fn total_bytes_written(&self) -> (r: u128)
        requires
            self.wf(),
        ensures
            r == seq_sum(self@.sizes),
    {
        self.total_bytes_written
    }

    /// The number of named events.
    pub fn named_events(&self) -> (r: u64)
        requires
            self.wf(),
        ensures
            r == self@.names.len(),
    {
        self.named_events
    }

    /// The frequency table of the named events' names.
    pub fn named_hist(&self) -> (r: &FrequencyTable)
        requires
            self.wf(),
        ensures
            r.wf(),
            r@ == hist_of(self@.names),
    {
        &self.named_hist
    }
}

} // verus!
