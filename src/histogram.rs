//! A frequency table keyed by byte strings, in order of first occurrence.
use vstd::prelude::*;

verus! {

/// Whether some entry of `h` has key `k`.
pub open spec fn has_key(h: Seq<(Seq<u8>, u64)>, k: Seq<u8>) -> bool {
    exists|i: int| 0 <= i < h.len() && #[trigger] h[i].0 == k
}

/// No two entries of `h` share a key.
pub open spec fn keys_distinct(h: Seq<(Seq<u8>, u64)>) -> bool {
    forall|i: int, j: int| 0 <= i < j < h.len() ==> #[trigger] h[i].0 != #[trigger] h[j].0
}

/// `h` after one more occurrence of `k`: its count goes up by one, or it is
/// appended with count one if it was not there.
pub open spec fn bump(h: Seq<(Seq<u8>, u64)>, k: Seq<u8>) -> Seq<(Seq<u8>, u64)> {
    if has_key(h, k) {
        h.map_values(|e: (Seq<u8>, u64)| if e.0 == k { (e.0, (e.1 + 1) as u64) } else { e })
    } else {
        h.push((k, 1u64))
    }
}

/// The frequency table of a sequence of keys.
pub open spec fn hist_of(keys: Seq<Seq<u8>>) -> Seq<(Seq<u8>, u64)>
    decreases keys.len(),
{
    if keys.len() == 0 {
        Seq::empty()
    } else {
        bump(hist_of(keys.drop_last()), keys.last())
    }
}

/// The sum of the counts of `h`.
pub open spec fn total_count(h: Seq<(Seq<u8>, u64)>) -> nat
    decreases h.len(),
{
    if h.len() == 0 {
        0
    } else {
        total_count(h.drop_last()) + h.last().1 as nat
    }
}

/// No count exceeds the sum of all counts.
pub proof fn lemma_count_le_total(h: Seq<(Seq<u8>, u64)>, i: int)
    requires
        0 <= i < h.len(),
    ensures
        h[i].1 <= total_count(h),
    decreases h.len(),
{
    if i < h.len() - 1 {
        lemma_count_le_total(h.drop_last(), i);
    }
}

proof fn lemma_bump_present(h: Seq<(Seq<u8>, u64)>, k: Seq<u8>)
    requires
        keys_distinct(h),
        has_key(h, k),
        forall|i: int| 0 <= i < h.len() ==> #[trigger] h[i].1 < u64::MAX,
    ensures
        total_count(bump(h, k)) == total_count(h) + 1,
    decreases h.len(),
{
    let f = |e: (Seq<u8>, u64)| if e.0 == k { (e.0, (e.1 + 1) as u64) } else { e };
    let h2 = h.map_values(f);
    let d = h.drop_last();
    assert(h2.drop_last() =~= d.map_values(f));
    assert(bump(h, k) =~= h2);
    assert(h[h.len() - 1].1 < u64::MAX);
    assert(h2.last() == f(h.last()));
    if h.last().0 == k {
        assert(!has_key(d, k));
        assert(d.map_values(f) =~= d);
        assert(h2.last().1 == h.last().1 + 1);
        assert(total_count(h2) == total_count(h2.drop_last()) + h2.last().1);
    } else {
        assert(h2.last() == h.last());
        let i = choose|i: int| 0 <= i < h.len() && #[trigger] h[i].0 == k;
        assert(d[i].0 == k);
        assert forall|j: int| 0 <= j < d.len() implies #[trigger] d[j].1 < u64::MAX by {
            assert(h[j].1 < u64::MAX);
        }
        lemma_bump_present(d, k);
        assert(bump(d, k) =~= d.map_values(f));
        assert(total_count(h2) == total_count(h2.drop_last()) + h2.last().1);
    }
}

/// One more occurrence keeps the keys distinct and adds one to the total.
pub proof fn lemma_bump(h: Seq<(Seq<u8>, u64)>, k: Seq<u8>)
    requires
        keys_distinct(h),
        total_count(h) < u64::MAX,
    ensures
        keys_distinct(bump(h, k)),
        total_count(bump(h, k)) == total_count(h) + 1,
{
    if has_key(h, k) {
        assert forall|i: int| 0 <= i < h.len() implies #[trigger] h[i].1 < u64::MAX by {
            lemma_count_le_total(h, i);
        }
        lemma_bump_present(h, k);
    } else {
        assert(h.push((k, 1u64)).drop_last() =~= h);
    }
}

/// The frequency table of any key sequence has distinct keys, and its counts
/// add up to the number of keys.
pub proof fn lemma_hist_of(keys: Seq<Seq<u8>>)
    requires
        keys.len() <= u64::MAX,
    ensures
        keys_distinct(hist_of(keys)),
        total_count(hist_of(keys)) == keys.len(),
    decreases keys.len(),
{
    if keys.len() > 0 {
        lemma_hist_of(keys.drop_last());
        lemma_bump(hist_of(keys.drop_last()), keys.last());
    }
}

/// Whether two byte strings are equal.
pub fn bytes_eq(a: &[u8], b: &[u8]) -> (r: bool)
    ensures
        r == (a@ == b@),
{
    if a.len() != b.len() {
        return false;
    }
    let mut i: usize = 0;
    while i < a.len()
        invariant
            a@.len() == b@.len(),
            0 <= i <= a@.len(),
            a@.take(i as int) == b@.take(i as int),
        decreases a@.len() - i,
    {
        if a[i] != b[i] {
            return false;
        }
        assert(a@.take(i as int + 1) =~= a@.take(i as int).push(a@[i as int]));
        assert(b@.take(i as int + 1) =~= b@.take(i as int).push(b@[i as int]));
        i += 1;
    }
    assert(a@.take(a@.len() as int) =~= a@);
    assert(b@.take(b@.len() as int) =~= b@);
    true
}

/// Counts per key, with keys in order of first occurrence.
pub struct FrequencyTable {
    keys: Vec<Vec<u8>>,
    counts: Vec<u64>,
}

impl View for FrequencyTable {
    type V = Seq<(Seq<u8>, u64)>;

    closed spec fn view(&self) -> Seq<(Seq<u8>, u64)> {
        Seq::new(self.keys@.len(), |i: int| (self.keys@[i]@, self.counts@[i]))
    }
}

impl FrequencyTable {
    pub closed spec fn wf(&self) -> bool {
        &&& self.keys@.len() == self.counts@.len()
        &&& keys_distinct(self@)
    }

    /// An empty table.
    pub fn new() -> (r: FrequencyTable)
        ensures
            r.wf(),
            r@ == Seq::<(Seq<u8>, u64)>::empty(),
    {
        let r = FrequencyTable { keys: Vec::new(), counts: Vec::new() };
        assert(r@ =~= Seq::<(Seq<u8>, u64)>::empty());
        r
    }

    /// The number of distinct keys.
    pub fn len(&self) -> (r: usize)
        requires
            self.wf(),
        ensures
            r == self@.len(),
    {
        self.keys.len()
    }

    /// The key of entry `i`.
    pub fn key(&self, i: usize) -> (r: &[u8])
        requires
            self.wf(),
            i < self@.len(),
        ensures
            r@ == self@[i as int].0,
    {
        self.keys[i].as_slice()
    }

    /// The count of entry `i`.
    pub fn count(&self, i: usize) -> (r: u64)
        requires
            self.wf(),
            i < self@.len(),
        ensures
            r == self@[i as int].1,
    {
        self.counts[i]
    }

    /// The count recorded for `key`; zero if it has none.
    pub fn get(&self, key: &[u8]) -> (r: u64)
        requires
            self.wf(),
        ensures
            has_key(self@, key@) ==> exists|i: int| 0 <= i < self@.len() && self@[i].0 == key@ && #[trigger] self@[i].1 == r,
            !has_key(self@, key@) ==> r == 0,
    {
        let mut i: usize = 0;
        while i < self.keys.len()
            invariant
                self.wf(),
                0 <= i <= self@.len(),
                forall|j: int| 0 <= j < i ==> #[trigger] self@[j].0 != key@,
            decreases self@.len() - i,
        {
            assert(self@[i as int].0 == self.keys@[i as int]@);
            if bytes_eq(self.keys[i].as_slice(), key) {
                assert(self@[i as int].1 == self.counts[i as int]);
                return self.counts[i];
            }
            i += 1;
        }
        0
    }

    /// Records one more occurrence of `key`.
    pub fn increment(&mut self, key: Vec<u8>)
        requires
            old(self).wf(),
            total_count(old(self)@) < u64::MAX,
        ensures
            final(self).wf(),
            final(self)@ == bump(old(self)@, key@),
    {
        proof {
            lemma_bump(self@, key@);
        }
        let ghost h = self@;
        let mut i: usize = 0;
        while i < self.keys.len()
            invariant
                self.wf(),
                self@ == h,
                h == old(self)@,
                total_count(h) < u64::MAX,
                0 <= i <= h.len(),
                forall|j: int| 0 <= j < i ==> #[trigger] h[j].0 != key@,
            decreases h.len() - i,
        {
            assert(h[i as int].0 == self.keys@[i as int]@);
            if bytes_eq(self.keys[i].as_slice(), key.as_slice()) {
                proof {
                    lemma_count_le_total(h, i as int);
                }
                let c = self.counts[i];
                assert(c == h[i as int].1);
                assert(h[i as int].0 == key@);
                self.counts.set(i, c + 1);
                assert(has_key(h, key@));
                assert(self@ =~= bump(h, key@));
                return;
            }
            i += 1;
        }
        assert(!has_key(h, key@));
        self.keys.push(key);
        self.counts.push(1);
        assert(self@ =~= bump(h, key@));
    }
}

} // verus!
