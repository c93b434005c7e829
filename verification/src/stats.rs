//! Tallies of a load test: the latency of every request, how many
//! succeeded and failed, and how often each HTTP status came back.
use std::collections::HashMap;
use std::time::Duration;
use vstd::prelude::*;
use crate::text::{append_decimal, append_joined, append_str, decimal_text, join, strs};

verus! {

broadcast use vstd::std_specs::hash::group_hash_axioms;

/// The tallies of one load-test run or worker.
pub struct Stats {
    pub latencies: Vec<Duration>,
    pub successes: usize,
    pub failures: usize,
    pub status_codes: HashMap<u16, usize>,
}

/// How many times `code` was counted (0 when never).
pub open spec fn count(m: Map<u16, usize>, code: u16) -> int {
    if m.contains_key(code) {
        m[code] as int
    } else {
        0
    }
}

/// A 2xx status.
pub open spec fn is_success_status(code: u16) -> bool {
    200 <= code && code <= 299
}

/// The counts of the codes below `k`, added up.
pub open spec fn counts_below(m: Map<u16, usize>, k: nat) -> int
    decreases k,
{
    if k == 0 {
        0
    } else {
        counts_below(m, (k - 1) as nat) + count(m, (k - 1) as u16)
    }
}

/// The counts of all codes, added up.
pub open spec fn total_count(m: Map<u16, usize>) -> int {
    counts_below(m, 65536)
}

/// The per-code counts of two tallies added together.
pub open spec fn merged_counts(a: Map<u16, usize>, b: Map<u16, usize>) -> Map<u16, usize> {
    Map::new(
        |k: u16| a.contains_key(k) || b.contains_key(k),
        |k: u16| (count(a, k) + count(b, k)) as usize,
    )
}

proof fn lemma_counts_below_empty(k: nat)
    requires
        k <= 65536,
    ensures
        counts_below(Map::<u16, usize>::empty(), k) == 0,
    decreases k,
{
    if k > 0 {
        lemma_counts_below_empty((k - 1) as nat);
    }
}

proof fn lemma_counts_below_bump(m: Map<u16, usize>, code: u16, k: nat)
    requires
        k <= 65536,
        count(m, code) < usize::MAX,
    ensures
        counts_below(m.insert(code, (count(m, code) + 1) as usize), k) == counts_below(m, k) + (
        if code < k {
            1int
        } else {
            0int
        }),
    decreases k,
{
    if k > 0 {
        lemma_counts_below_bump(m, code, (k - 1) as nat);
        let c = (k - 1) as u16;
        assert(c as int == k - 1);
    }
}

proof fn lemma_counts_below_sum(f: Map<u16, usize>, a: Map<u16, usize>, b: Map<u16, usize>, k: nat)
    requires
        k <= 65536,
        forall|c: u16| count(f, c) == count(a, c) + count(b, c),
    ensures
        counts_below(f, k) == counts_below(a, k) + counts_below(b, k),
    decreases k,
{
    if k > 0 {
        lemma_counts_below_sum(f, a, b, (k - 1) as nat);
        let c = (k - 1) as u16;
        assert(count(f, c) == count(a, c) + count(b, c));
    }
}

proof fn lemma_counts_below_nonneg(m: Map<u16, usize>, k: nat)
    requires
        k <= 65536,
    ensures
        counts_below(m, k) >= 0,
    decreases k,
{
    if k > 0 {
        lemma_counts_below_nonneg(m, (k - 1) as nat);
    }
}

/// Merging empty tallies changes nothing.
pub proof fn law_merge_with_nothing(a: Map<u16, usize>, latencies: Seq<Duration>)
    ensures
        merged_counts(a, Map::<u16, usize>::empty()) == a,
        latencies + Seq::<Duration>::empty() == latencies,
{
    assert(merged_counts(a, Map::<u16, usize>::empty()) =~= a);
    assert(latencies + Seq::<Duration>::empty() =~= latencies);
}

/// Merging is the same either way round: the same counts, and the same
/// latencies up to their order.
pub proof fn law_merge_commutes(
    a: Map<u16, usize>,
    b: Map<u16, usize>,
    la: Seq<Duration>,
    lb: Seq<Duration>,
)
    ensures
        merged_counts(a, b) == merged_counts(b, a),
        (la + lb).to_multiset() == (lb + la).to_multiset(),
{
    assert(merged_counts(a, b) =~= merged_counts(b, a));
    vstd::seq_lib::lemma_seq_union_to_multiset_commutative(la, lb);
}

/// Between a status code and its count.
pub const CODE_COUNT_SEP: &'static str = "=";

/// Between two entries of a status line.
pub const ENTRY_SEP: &'static str = " ";

/// One entry of a status line: `{code}={count}`.
pub open spec fn status_entry(code: u16, n: usize) -> Seq<char> {
    decimal_text(code as nat) + CODE_COUNT_SEP@ + decimal_text(n as nat)
}

/// The entries for the codes below `k` that were counted, in code order.
pub open spec fn status_entries(m: Map<u16, usize>, k: nat) -> Seq<Seq<char>>
    decreases k,
{
    if k == 0 {
        Seq::<Seq<char>>::empty()
    } else {
        let r = status_entries(m, (k - 1) as nat);
        let c = (k - 1) as u16;
        if m.contains_key(c) {
            r.push(status_entry(c, m[c]))
        } else {
            r
        }
    }
}

/// Every status code that was counted, with its count, in code order and
/// separated by spaces.
pub open spec fn status_line_text(m: Map<u16, usize>) -> Seq<char> {
    join(status_entries(m, 65536), ENTRY_SEP@)
}

/// The status line of a report: `{code}={count}` for every counted code, in
/// code order, separated by spaces.
pub fn status_line(codes: &HashMap<u16, usize>) -> (s: String)
    ensures
        s@ == status_line_text(codes@),
{
    let mut entries: Vec<String> = Vec::new();
    let mut k: u32 = 0;
    while k < 65536
        invariant
            k <= 65536,
            strs(entries@) == status_entries(codes@, k as nat),
        decreases 65536 - k,
    {
        let code = k as u16;
        assert(code == (k + 1 - 1) as u16);
        match codes.get(&code) {
            Some(n) => {
                let mut e = String::new();
                append_decimal(&mut e, code as u64);
                append_str(&mut e, CODE_COUNT_SEP);
                append_decimal(&mut e, *n as u64);
                let ghost prev = strs(entries@);
                entries.push(e);
                assert(strs(entries@) =~= prev.push(status_entry(code, codes@[code])));
            },
            None => {},
        }
        k = k + 1;
    }
    let mut s = String::new();
    append_joined(&mut s, &entries, ENTRY_SEP);
    s
}

impl Stats {
    /// Every request counted is counted once: as a success or a failure,
    /// with one latency.
    pub open spec fn balanced(&self) -> bool {
        self.successes + self.failures == self.latencies@.len()
    }

    /// Balanced, and no more status codes counted than requests.
    pub open spec fn tallied(&self) -> bool {
        self.balanced() && total_count(self.status_codes@) <= self.latencies@.len()
    }

    /// Empty tallies.
    pub fn new() -> (s: Stats)
        ensures
            s.latencies@ == Seq::<Duration>::empty(),
            s.successes == 0,
            s.failures == 0,
            s.status_codes@ == Map::<u16, usize>::empty(),
            s.tallied(),
    {
        proof {
            lemma_counts_below_empty(65536);
        }
        Stats {
            latencies: Vec::new(),
            successes: 0,
            failures: 0,
            status_codes: HashMap::new(),
        }
    }

    /// Counts a request that was answered with `status` after `elapsed`.
    pub fn record(&mut self, status: u16, elapsed: Duration)
        requires
            count(old(self).status_codes@, status) < usize::MAX,
            is_success_status(status) ==> old(self).successes < usize::MAX,
            !is_success_status(status) ==> old(self).failures < usize::MAX,
        ensures
            final(self).latencies@ == old(self).latencies@.push(elapsed),
            final(self).status_codes@ == old(self).status_codes@.insert(
                status,
                (count(old(self).status_codes@, status) + 1) as usize,
            ),
            final(self).successes == old(self).successes + (if is_success_status(status) {
                1int
            } else {
                0int
            }),
            final(self).failures == old(self).failures + (if is_success_status(status) {
                0int
            } else {
                1int
            }),
            old(self).tallied() ==> final(self).tallied(),
    {
        proof {
            lemma_counts_below_bump(old(self).status_codes@, status, 65536);
        }
        self.latencies.push(elapsed);
        let c = self.status_codes.entry(status).or_insert(0);
        *c = *c + 1;
        if 200 <= status && status <= 299 {
            self.successes = self.successes + 1;
        } else {
            self.failures = self.failures + 1;
        }
    }

    /// Counts a request that got no answer after `elapsed`.
    pub fn record_error(&mut self, elapsed: Duration)
        requires
            old(self).failures < usize::MAX,
        ensures
            final(self).latencies@ == old(self).latencies@.push(elapsed),
            final(self).status_codes@ == old(self).status_codes@,
            final(self).successes == old(self).successes,
            final(self).failures == old(self).failures + 1,
            old(self).tallied() ==> final(self).tallied(),
    {
        self.latencies.push(elapsed);
        self.failures = self.failures + 1;
    }

    /// Adds the tallies of `other` to these.
    pub fn merge(&mut self, other: Stats)
        requires
            old(self).successes + other.successes <= usize::MAX,
            old(self).failures + other.failures <= usize::MAX,
            forall|k: u16|
                count(old(self).status_codes@, k) + count(other.status_codes@, k) <= usize::MAX,
        ensures
            final(self).latencies@ == old(self).latencies@ + other.latencies@,
            final(self).successes == old(self).successes + other.successes,
            final(self).failures == old(self).failures + other.failures,
            final(self).status_codes@.dom() == old(self).status_codes@.dom().union(
                other.status_codes@.dom(),
            ),
            forall|k: u16|
                count(final(self).status_codes@, k) == count(old(self).status_codes@, k) + count(
                    other.status_codes@,
                    k,
                ),
            final(self).status_codes@ == merged_counts(old(self).status_codes@, other.status_codes@),
            old(self).tallied() && other.tallied() ==> final(self).tallied(),
    {
        let mut other = other;
        let ghost before = self.status_codes@;
        let ghost theirs = other.status_codes@;
        let ghost lat = old(self).latencies@ + other.latencies@;
        let ghost succ = old(self).successes + other.successes;
        let ghost fail = old(self).failures + other.failures;
        self.latencies.append(&mut other.latencies);
        self.successes = self.successes + other.successes;
        self.failures = self.failures + other.failures;
        let ghost mut done: Set<u16> = Set::empty();
        for k in it: other.status_codes.keys()
            invariant
                theirs == other.status_codes@,
                self.latencies@ == lat,
                self.successes == succ,
                self.failures == fail,
                forall|j: u16| count(before, j) + count(theirs, j) <= usize::MAX,
                it.seq().no_duplicates(),
                it.seq().unref().to_set() == theirs.dom(),
                done == it.seq().take(it.index() as int).unref().to_set(),
                it.index() == it.seq().len() ==> done == theirs.dom(),
                forall|j: u16|
                    #[trigger] self.status_codes@.contains_key(j) <==> (before.contains_key(j)
                        || done.contains(j)),
                forall|j: u16|
                    #[trigger] count(self.status_codes@, j) == count(before, j) + (if done.contains(
                        j,
                    ) {
                        count(theirs, j)
                    } else {
                        0
                    }),
        {
            let key: u16 = *k;
            proof {
                let idx = it.index() as int;
                let pre = it.seq().take(idx).unref();
                assert(*it.seq()[idx] == key);
                assert(it.seq().unref()[idx] == key);
                assert(it.seq().unref().contains(key));
                assert(theirs.dom().contains(key));
                assert(!done.contains(key)) by {
                    if done.contains(key) {
                        assert(pre.to_set().contains(key));
                        assert(pre.contains(key));
                        let j = choose|j: int| 0 <= j < pre.len() && pre[j] == key;
                        assert(it.seq()[j] == it.seq()[idx]);
                    }
                }
                assert(it.seq().take(idx + 1).unref() =~= pre.push(key));
                pre.lemma_push_to_set_commute(key);
                assert(count(self.status_codes@, key) == count(before, key));
            }
            let ghost prev = self.status_codes@;
            let ghost prev_done = done;
            match other.status_codes.get(&key) {
                Some(v) => {
                    let c = self.status_codes.entry(key).or_insert(0);
                    *c = *c + *v;
                },
                None => {},
            }
            proof {
                done = done.insert(key);
                assert(self.status_codes@ == prev.insert(key, (count(before, key) + count(theirs, key)) as usize));
                assert forall|j: u16| #[trigger]
                    count(self.status_codes@, j) == count(before, j) + (if done.contains(j) {
                        count(theirs, j)
                    } else {
                        0
                    }) by {
                    if j != key {
                        assert(count(self.status_codes@, j) == count(prev, j));
                        assert(done.contains(j) == prev_done.contains(j));
                    }
                }
            }
            assert(it.index() + 1 == it.seq().len() ==> it.seq().take(it.index() + 1) =~= it.seq());
        }
        assert(done =~= theirs.dom());
        assert forall|k: u16| #[trigger] self.status_codes@.contains_key(k) implies self.status_codes@[k]
            == (count(before, k) + count(theirs, k)) as usize by {
            assert(count(self.status_codes@, k) == count(before, k) + count(theirs, k));
        }
        assert(self.status_codes@ =~= merged_counts(before, theirs));
        proof {
            lemma_counts_below_sum(self.status_codes@, before, theirs, 65536);
        }
        assert(self.status_codes@.dom() =~= before.dom().union(theirs.dom()));
    }
}

} // verus!
