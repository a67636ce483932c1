use vstd::prelude::*;
use vstd::arithmetic::mul::{lemma_mul_inequality, lemma_mul_is_distributive_add_other_way};
use crate::sums::{
    sum_int, lemma_sum_int_nonneg, lemma_sum_int_element, lemma_sum_int_update,
};

verus! {

/// How one request or task execution ended. Transport failures (no usable
/// response) are kept apart from task failures (response content wrong), and
/// both from executions force-aborted at shutdown, so a report can tell the
/// three apart.
#[derive(Clone, Copy, Debug, PartialEq, Eq, Structural)]
pub enum OutcomeKind {
    Success,
    TaskFailure,
    TransportFailure,
    Aborted,
}

/// The result record of one request or task execution: the logical task it
/// counts against (not the raw URL), how long it took, and how it ended.
/// Produced once per exchange, immutable, consumed by the collector.
#[derive(Debug, PartialEq, Eq)]
pub struct RequestOutcome {
    pub task_name: String,
    pub elapsed_ms: u64,
    pub kind: OutcomeKind,
}

/// Number of latency histogram buckets.
pub const BUCKETS: usize = 8;

/// Which histogram bucket a latency in milliseconds falls into. The bucket
/// bounds are fixed, so the histogram's memory never grows with the number
/// of samples.
pub open spec fn bucket_index(ms: int) -> int {
    if ms < 10 {
        0
    } else if ms < 50 {
        1
    } else if ms < 100 {
        2
    } else if ms < 500 {
        3
    } else if ms < 1000 {
        4
    } else if ms < 5000 {
        5
    } else if ms < 10000 {
        6
    } else {
        7
    }
}

/// Executable bucket lookup.
pub fn bucket_of(ms: u64) -> (b: usize)
    ensures
        b as int == bucket_index(ms as int),
        b < BUCKETS,
{
    if ms < 10 {
        0
    } else if ms < 50 {
        1
    } else if ms < 100 {
        2
    } else if ms < 500 {
        3
    } else if ms < 1000 {
        4
    } else if ms < 5000 {
        5
    } else if ms < 10000 {
        6
    } else {
        7
    }
}

/// The mathematical content of one task's aggregate counters.
pub ghost struct AggModel {
    pub name: Seq<char>,
    pub count: int,
    pub success_count: int,
    pub task_failure_count: int,
    pub transport_failure_count: int,
    pub aborted_count: int,
    pub min_ms: int,
    pub max_ms: int,
    pub total_ms: int,
    pub buckets: Seq<int>,
}

/// One each of the four kind counters, per outcome kind.
pub open spec fn kind_inc(kind: OutcomeKind, want: OutcomeKind) -> int {
    if kind == want {
        1
    } else {
        0
    }
}

/// The aggregate a first outcome for a task opens.
pub open spec fn agg_fresh(name: Seq<char>, elapsed: int, kind: OutcomeKind) -> AggModel {
    AggModel {
        name: name,
        count: 1,
        success_count: kind_inc(kind, OutcomeKind::Success),
        task_failure_count: kind_inc(kind, OutcomeKind::TaskFailure),
        transport_failure_count: kind_inc(kind, OutcomeKind::TransportFailure),
        aborted_count: kind_inc(kind, OutcomeKind::Aborted),
        min_ms: elapsed,
        max_ms: elapsed,
        total_ms: elapsed,
        buckets: Seq::new(BUCKETS as nat, |i: int| if i == bucket_index(elapsed) { 1int } else { 0int }),
    }
}

/// An existing aggregate after absorbing one more outcome.
pub open spec fn agg_record(a: AggModel, elapsed: int, kind: OutcomeKind) -> AggModel {
    AggModel {
        name: a.name,
        count: a.count + 1,
        success_count: a.success_count + kind_inc(kind, OutcomeKind::Success),
        task_failure_count: a.task_failure_count + kind_inc(kind, OutcomeKind::TaskFailure),
        transport_failure_count: a.transport_failure_count + kind_inc(kind, OutcomeKind::TransportFailure),
        aborted_count: a.aborted_count + kind_inc(kind, OutcomeKind::Aborted),
        min_ms: if elapsed < a.min_ms { elapsed } else { a.min_ms },
        max_ms: if elapsed > a.max_ms { elapsed } else { a.max_ms },
        total_ms: a.total_ms + elapsed,
        buckets: a.buckets.update(bucket_index(elapsed), a.buckets[bucket_index(elapsed)] + 1),
    }
}

/// Internal consistency of one aggregate: counters non-negative and kind
/// counters and histogram both totalling the count, the latency extremes
/// ordered, everything representable in the collector's machine words.
pub open spec fn agg_wf(a: AggModel) -> bool {
    &&& 1 <= a.count <= u64::MAX
    &&& 0 <= a.success_count
    &&& 0 <= a.task_failure_count
    &&& 0 <= a.transport_failure_count
    &&& 0 <= a.aborted_count
    &&& a.success_count + a.task_failure_count + a.transport_failure_count + a.aborted_count
        == a.count
    &&& 0 <= a.min_ms <= a.max_ms <= u64::MAX
    &&& 0 <= a.total_ms <= a.count * (u64::MAX as int)
    &&& a.buckets.len() == BUCKETS
    &&& forall|i: int| 0 <= i < a.buckets.len() ==> #[trigger] a.buckets[i] >= 0
    &&& sum_int(a.buckets) == a.count
}

/// Whether an aggregate under the given name exists.
pub open spec fn model_has(s: Seq<AggModel>, name: Seq<char>) -> bool {
    exists|i: int| 0 <= i < s.len() && s[i].name == name
}

/// The index of the aggregate under the given name, when names are unique.
pub open spec fn model_index(s: Seq<AggModel>, name: Seq<char>) -> int {
    choose|i: int| 0 <= i < s.len() && s[i].name == name
}

/// Well-formed collector state: well-formed aggregates under pairwise
/// distinct task names.
pub open spec fn model_wf(s: Seq<AggModel>) -> bool {
    &&& forall|i: int| 0 <= i < s.len() ==> agg_wf(#[trigger] s[i])
    &&& forall|i: int, j: int| 0 <= i < s.len() && 0 <= j < s.len() && i != j
        ==> (#[trigger] s[i]).name != (#[trigger] s[j]).name
}

/// The exact effect of recording one outcome: the named task's aggregate
/// absorbs it, or a fresh aggregate is appended if the task is new. Nothing
/// else changes.
pub open spec fn record_model(s: Seq<AggModel>, name: Seq<char>, elapsed: int, kind: OutcomeKind)
    -> Seq<AggModel> {
    if model_has(s, name) {
        let i = model_index(s, name);
        s.update(i, agg_record(s[i], elapsed, kind))
    } else {
        s.push(agg_fresh(name, elapsed, kind))
    }
}

/// Total number of outcomes recorded, over all tasks.
pub open spec fn total_count(s: Seq<AggModel>) -> int
    decreases s.len(),
{
    if s.len() == 0 {
        0
    } else {
        total_count(s.drop_last()) + s.last().count
    }
}

pub proof fn lemma_total_count_push(s: Seq<AggModel>, a: AggModel)
    ensures
        total_count(s.push(a)) == total_count(s) + a.count,
{
    assert(s.push(a).drop_last() =~= s);
}

pub proof fn lemma_total_count_update(s: Seq<AggModel>, i: int, a: AggModel)
    requires
        0 <= i < s.len(),
    ensures
        total_count(s.update(i, a)) == total_count(s) - s[i].count + a.count,
    decreases s.len(),
{
    if i == s.len() - 1 {
        assert(s.update(i, a).drop_last() =~= s.drop_last());
    } else {
        assert(s.update(i, a).drop_last() =~= s.drop_last().update(i, a));
        assert(s.update(i, a).last() == s.last());
        lemma_total_count_update(s.drop_last(), i, a);
    }
}

/// A total over non-negative counts is non-negative.
pub proof fn lemma_total_count_nonneg(s: Seq<AggModel>)
    requires
        forall|j: int| 0 <= j < s.len() ==> (#[trigger] s[j]).count >= 0,
    ensures
        total_count(s) >= 0,
    decreases s.len(),
{
    if s.len() > 0 {
        lemma_total_count_nonneg(s.drop_last());
    }
}

/// Under non-negative counts, each aggregate's count is bounded by the total.
pub proof fn lemma_total_count_element(s: Seq<AggModel>, i: int)
    requires
        0 <= i < s.len(),
        forall|j: int| 0 <= j < s.len() ==> (#[trigger] s[j]).count >= 0,
    ensures
        s[i].count <= total_count(s),
        total_count(s) >= 0,
    decreases s.len(),
{
    lemma_total_count_nonneg(s.drop_last());
    if i == s.len() - 1 {
    } else {
        lemma_total_count_element(s.drop_last(), i);
    }
}

/// One task's aggregate counters, as the collector keeps them and the
/// snapshot hands them out.
#[derive(Debug, PartialEq, Eq)]
pub struct TaskAggregate {
    pub name: String,
    pub count: u64,
    pub success_count: u64,
    pub task_failure_count: u64,
    pub transport_failure_count: u64,
    pub aborted_count: u64,
    pub min_ms: u64,
    pub max_ms: u64,
    pub total_ms: u128,
    pub bucket_counts: Vec<u64>,
}

impl View for TaskAggregate {
    type V = AggModel;

    open spec fn view(&self) -> AggModel {
        AggModel {
            name: self.name@,
            count: self.count as int,
            success_count: self.success_count as int,
            task_failure_count: self.task_failure_count as int,
            transport_failure_count: self.transport_failure_count as int,
            aborted_count: self.aborted_count as int,
            min_ms: self.min_ms as int,
            max_ms: self.max_ms as int,
            total_ms: self.total_ms as int,
            buckets: self.bucket_counts@.map_values(|c: u64| c as int),
        }
    }
}

/// How many samples the cumulative histogram must reach for percentile `p`:
/// `p` percent of the count, rounded up.
pub open spec fn percentile_need(count: int, p: int) -> int {
    (count * p + 99) / 100
}

/// The first bucket, from `k` with `acc` samples already accumulated, at
/// which the cumulative count reaches `need`; the last bucket if none does.
pub open spec fn percentile_bucket_from(buckets: Seq<int>, k: int, acc: int, need: int) -> int
    decreases buckets.len() - k,
{
    if k >= buckets.len() - 1 {
        buckets.len() - 1
    } else if acc + buckets[k] >= need {
        k
    } else {
        percentile_bucket_from(buckets, k + 1, acc + buckets[k], need)
    }
}

impl TaskAggregate {
    /// The histogram bucket the `p`-th latency percentile falls into: the
    /// first bucket at which the cumulative sample count reaches `p` percent
    /// of all samples, rounded up.
    pub fn percentile_bucket(&self, p: u64) -> (b: usize)
        requires
            agg_wf(self@),
            p <= 100,
        ensures
            b < BUCKETS,
            b as int == percentile_bucket_from(
                self@.buckets,
                0,
                0,
                percentile_need(self@.count, p as int),
            ),
    {
        let ghost buckets = self@.buckets;
        let ghost need_spec = percentile_need(self@.count, p as int);
        proof {
            lemma_mul_inequality(p as int, 100, self.count as int);
            assert((self.count as int) * (p as int) == (p as int) * (self.count as int))
                by (nonlinear_arith);
        }
        let need: u128 = ((self.count as u128) * (p as u128) + 99) / 100;
        proof {
            assert(need == need_spec);
        }
        let len = self.bucket_counts.len();
        proof {
            assert(len == BUCKETS);
        }
        let mut acc: u128 = 0;
        let mut k: usize = 0;
        while k < len - 1
            invariant
                0 <= k <= len - 1,
                len == BUCKETS,
                len == self.bucket_counts@.len(),
                buckets == self@.buckets,
                buckets.len() == BUCKETS,
                forall|i: int| 0 <= i < buckets.len() ==> #[trigger] buckets[i] >= 0,
                forall|i: int| 0 <= i < buckets.len()
                    ==> #[trigger] buckets[i] == self.bucket_counts@[i] as int,
                acc <= k * (u64::MAX as int),
                need == need_spec,
                need_spec == percentile_need(self@.count, p as int),
                percentile_bucket_from(buckets, 0, 0, need_spec)
                    == percentile_bucket_from(buckets, k as int, acc as int, need_spec),
            decreases len - k,
        {
            proof {
                lemma_mul_inequality(k as int, BUCKETS as int, u64::MAX as int);
                lemma_mul_is_distributive_add_other_way(u64::MAX as int, k as int, 1);
            }
            let here = acc + self.bucket_counts[k] as u128;
            if here >= need {
                return k;
            }
            acc = here;
            k = k + 1;
        }
        len - 1
    }

    /// Mean latency in milliseconds, rounded down.
    pub fn mean_ms(&self) -> (r: u64)
        requires
            agg_wf(self@),
        ensures
            r == self@.total_ms / self@.count,
    {
        proof {
            vstd::arithmetic::div_mod::lemma_div_is_ordered(
                self.total_ms as int,
                (self.count as int) * (u64::MAX as int),
                self.count as int,
            );
            vstd::arithmetic::div_mod::lemma_div_multiples_vanish(
                u64::MAX as int,
                self.count as int,
            );
            assert((self.count as int) * (u64::MAX as int)
                == (self.count as int) * (u64::MAX as int));
        }
        (self.total_ms / (self.count as u128)) as u64
    }
}

/// The single writer of aggregate state: every virtual user submits its
/// outcomes here, and the controller reads one consistent snapshot at the
/// end. One aggregate per task name, in order of first appearance.
pub struct MetricsCollector {
    entries: Vec<TaskAggregate>,
}

/// A consistent aggregate view of everything recorded up to one moment,
/// detached from the collector: later recording does not touch it.
#[derive(Debug, PartialEq, Eq)]
pub struct MetricsSnapshot {
    pub entries: Vec<TaskAggregate>,
}

impl View for MetricsCollector {
    type V = Seq<AggModel>;

    closed spec fn view(&self) -> Seq<AggModel> {
        Seq::new(self.entries@.len(), |i: int| self.entries@[i]@)
    }
}

impl View for MetricsSnapshot {
    type V = Seq<AggModel>;

    open spec fn view(&self) -> Seq<AggModel> {
        Seq::new(self.entries@.len(), |i: int| self.entries@[i]@)
    }
}

impl MetricsCollector {
    pub open spec fn wf(&self) -> bool {
        &&& model_wf(self@)
        &&& total_count(self@) <= u64::MAX
    }

    /// A collector with nothing recorded.
    pub fn new() -> (c: MetricsCollector)
        ensures
            c@ == Seq::<AggModel>::empty(),
            c.wf(),
    {
        let c = MetricsCollector { entries: Vec::new() };
        proof {
            assert(c@ =~= Seq::<AggModel>::empty());
        }
        c
    }

    /// Fold one outcome into the aggregates: exactly the named task's
    /// aggregate absorbs it (or is opened by it), everything else is
    /// untouched, and the grand total grows by exactly one.
    pub fn record(&mut self, outcome: RequestOutcome)
        requires
            old(self).wf(),
            total_count(old(self)@) < u64::MAX,
        ensures
            final(self).wf(),
            final(self)@ == record_model(
                old(self)@,
                outcome.task_name@,
                outcome.elapsed_ms as int,
                outcome.kind,
            ),
            total_count(final(self)@) == total_count(old(self)@) + 1,
    {
        let ghost pre = self@;
        let n = self.entries.len();
        let mut i: usize = 0;
        while i < n
            invariant
                0 <= i <= n,
                self@ == pre,
                pre == old(self)@,
                n == self.entries@.len(),
                old(self).wf(),
                total_count(pre) < u64::MAX,
                forall|j: int| 0 <= j < i ==> (#[trigger] pre[j]).name != outcome.task_name@,
            decreases n - i,
        {
            if self.entries[i].name == outcome.task_name {
                proof {
                    let wi = i as int;
                    assert(pre[wi].name == outcome.task_name@);
                    assert(model_has(pre, outcome.task_name@));
                    assert(model_index(pre, outcome.task_name@) == wi) by {
                        let c = model_index(pre, outcome.task_name@);
                        assert(0 <= c < pre.len() && pre[c].name == outcome.task_name@);
                        if c != wi {
                            assert(pre[c].name != pre[wi].name);
                        }
                    }
                }
                proof {
                    assert forall|j: int| 0 <= j < pre.len()
                        implies (#[trigger] pre[j]).count >= 0 by {
                        assert(agg_wf(pre[j]));
                    }
                    lemma_total_count_element(pre, i as int);
                }
                self.absorb_at(i, outcome);
                proof {
                    lemma_total_count_update(
                        pre,
                        i as int,
                        agg_record(pre[i as int], outcome.elapsed_ms as int, outcome.kind),
                    );
                }
                return ;
            }
            i = i + 1;
        }
        proof {
            assert(!model_has(pre, outcome.task_name@));
        }
        let fresh = fresh_aggregate(outcome);
        let ghost fm = fresh@;
        self.entries.push(fresh);
        proof {
            assert(self@ =~= pre.push(fm));
            lemma_total_count_push(pre, fm);
            assert forall|a: int, b: int|
                0 <= a < self@.len() && 0 <= b < self@.len() && a != b
                    implies (#[trigger] self@[a]).name != (#[trigger] self@[b]).name by {
                if a < pre.len() && b < pre.len() {
                } else if a == pre.len() {
                    if pre[b].name == outcome.task_name@ {
                        assert(model_has(pre, outcome.task_name@));
                    }
                } else {
                    if pre[a].name == outcome.task_name@ {
                        assert(model_has(pre, outcome.task_name@));
                    }
                }
            }
        }
    }

    /// Absorb an outcome into the existing aggregate at `i`.
    fn absorb_at(&mut self, i: usize, outcome: RequestOutcome)
        requires
            old(self).wf(),
            i < old(self)@.len(),
            old(self)@[i as int].name == outcome.task_name@,
            old(self)@[i as int].count < u64::MAX,
            total_count(old(self)@) < u64::MAX,
        ensures
            final(self).wf(),
            final(self)@ == old(self)@.update(
                i as int,
                agg_record(old(self)@[i as int], outcome.elapsed_ms as int, outcome.kind),
            ),
    {
        let ghost pre = self@;
        let ghost target = agg_record(pre[i as int], outcome.elapsed_ms as int, outcome.kind);
        let mut e = self.entries.remove(i);
        let ghost em = e@;
        proof {
            assert(agg_wf(em));
            assert(em.success_count + em.task_failure_count + em.transport_failure_count
                + em.aborted_count == em.count);
        }
        e.count = e.count + 1;
        match outcome.kind {
            OutcomeKind::Success => { e.success_count = e.success_count + 1; },
            OutcomeKind::TaskFailure => { e.task_failure_count = e.task_failure_count + 1; },
            OutcomeKind::TransportFailure => {
                e.transport_failure_count = e.transport_failure_count + 1;
            },
            OutcomeKind::Aborted => { e.aborted_count = e.aborted_count + 1; },
        }
        if outcome.elapsed_ms < e.min_ms {
            e.min_ms = outcome.elapsed_ms;
        }
        if outcome.elapsed_ms > e.max_ms {
            e.max_ms = outcome.elapsed_ms;
        }
        proof {
            lemma_mul_inequality(em.count + 1, u64::MAX as int, u64::MAX as int);
            lemma_mul_is_distributive_add_other_way(u64::MAX as int, em.count, 1);
        }
        e.total_ms = e.total_ms + outcome.elapsed_ms as u128;
        let b = bucket_of(outcome.elapsed_ms);
        let ghost bidx = bucket_index(outcome.elapsed_ms as int);
        proof {
            assert(em.buckets[bidx] == e.bucket_counts@.map_values(|c: u64| c as int)[bidx]);
            lemma_sum_int_element(em.buckets, bidx);
        }
        let cur = e.bucket_counts[b];
        e.bucket_counts.set(b, cur + 1);
        proof {
            assert(e@.buckets =~= em.buckets.update(bidx, em.buckets[bidx] + 1));
            lemma_sum_int_update(em.buckets, bidx, em.buckets[bidx] + 1);
            assert(e@ == target);
        }
        self.entries.insert(i, e);
        proof {
            assert(self@ =~= pre.update(i as int, target));
            lemma_total_count_update(pre, i as int, target);
            assert forall|j: int| 0 <= j < self@.len() implies agg_wf(#[trigger] self@[j]) by {
                if j != i as int {
                    assert(self@[j] == pre[j]);
                }
            }
        }
    }

    /// A consistent aggregate view of everything recorded so far. The
    /// snapshot is a copy: it reflects this exact moment, no more and no
    /// less, and two snapshots with no recording in between are identical.
    pub fn snapshot(&self) -> (snap: MetricsSnapshot)
        ensures
            snap@ == self@,
    {
        let mut out: Vec<TaskAggregate> = Vec::new();
        let n = self.entries.len();
        let mut i: usize = 0;
        while i < n
            invariant
                0 <= i <= n,
                n == self.entries@.len(),
                out@.len() == i,
                forall|j: int| 0 <= j < i ==> (#[trigger] out@[j])@ == self@[j],
            decreases n - i,
        {
            let e = &self.entries[i];
            let mut bc: Vec<u64> = Vec::new();
            let m = e.bucket_counts.len();
            let mut k: usize = 0;
            while k < m
                invariant
                    0 <= k <= m,
                    m == e.bucket_counts@.len(),
                    bc@.len() == k,
                    forall|j: int| 0 <= j < k ==> #[trigger] bc@[j] == e.bucket_counts@[j],
                decreases m - k,
            {
                let v = e.bucket_counts[k];
                bc.push(v);
                k = k + 1;
            }
            proof {
                assert(bc@ =~= e.bucket_counts@);
            }
            let copy = TaskAggregate {
                name: e.name.clone(),
                count: e.count,
                success_count: e.success_count,
                task_failure_count: e.task_failure_count,
                transport_failure_count: e.transport_failure_count,
                aborted_count: e.aborted_count,
                min_ms: e.min_ms,
                max_ms: e.max_ms,
                total_ms: e.total_ms,
                bucket_counts: bc,
            };
            proof {
                assert(copy@ == self@[i as int]);
            }
            out.push(copy);
            i = i + 1;
        }
        let snap = MetricsSnapshot { entries: out };
        proof {
            assert(snap@ =~= self@);
        }
        snap
    }

    /// Number of distinct tasks seen so far.
    pub fn task_count(&self) -> (r: usize)
        ensures
            r == self@.len(),
    {
        self.entries.len()
    }

    /// The grand total of outcomes recorded so far, over all tasks.
    pub fn total_recorded(&self) -> (r: u64)
        requires
            self.wf(),
        ensures
            r == total_count(self@),
    {
        proof {
            assert forall|j: int| 0 <= j < self@.len()
                implies (#[trigger] self@[j]).count >= 0 by {
                assert(agg_wf(self@[j]));
            }
        }
        let n = self.entries.len();
        let mut sum: u64 = 0;
        let mut i: usize = 0;
        while i < n
            invariant
                0 <= i <= n,
                n == self@.len(),
                self.wf(),
                forall|j: int| 0 <= j < self@.len() ==> (#[trigger] self@[j]).count >= 0,
                sum == total_count(self@.take(i as int)),
            decreases n - i,
        {
            proof {
                lemma_total_count_take_step(self@, i as int);
                lemma_total_count_prefix(self@, i as int + 1);
            }
            sum = sum + self.entries[i].count;
            i = i + 1;
        }
        proof {
            assert(self@.take(n as int) =~= self@);
        }
        sum
    }
}

/// Extending a prefix by one aggregate adds its count to the prefix total.
pub proof fn lemma_total_count_take_step(s: Seq<AggModel>, k: int)
    requires
        0 <= k < s.len(),
    ensures
        total_count(s.take(k + 1)) == total_count(s.take(k)) + s[k].count,
{
    assert(s.take(k + 1).drop_last() =~= s.take(k));
    assert(s.take(k + 1).last() == s[k]);
}

/// Under non-negative counts, a prefix total never exceeds the whole total.
pub proof fn lemma_total_count_prefix(s: Seq<AggModel>, k: int)
    requires
        0 <= k <= s.len(),
        forall|j: int| 0 <= j < s.len() ==> (#[trigger] s[j]).count >= 0,
    ensures
        total_count(s.take(k)) <= total_count(s),
    decreases s.len() - k,
{
    if k == s.len() {
        assert(s.take(k) =~= s);
    } else {
        lemma_total_count_take_step(s, k);
        lemma_total_count_prefix(s, k + 1);
    }
}

/// The aggregate opened by a task's first outcome.
fn fresh_aggregate(outcome: RequestOutcome) -> (e: TaskAggregate)
    ensures
        e@ == agg_fresh(outcome.task_name@, outcome.elapsed_ms as int, outcome.kind),
        agg_wf(e@),
{
    let b = bucket_of(outcome.elapsed_ms);
    let mut bc: Vec<u64> = Vec::new();
    let mut k: usize = 0;
    while k < BUCKETS
        invariant
            0 <= k <= BUCKETS,
            bc@.len() == k,
            forall|j: int| 0 <= j < k ==> #[trigger] bc@[j] == 0u64,
        decreases BUCKETS - k,
    {
        bc.push(0);
        k = k + 1;
    }
    bc.set(b, 1);
    let e = TaskAggregate {
        name: outcome.task_name,
        count: 1,
        success_count: if matches!(outcome.kind, OutcomeKind::Success) { 1 } else { 0 },
        task_failure_count: if matches!(outcome.kind, OutcomeKind::TaskFailure) { 1 } else { 0 },
        transport_failure_count: if matches!(outcome.kind, OutcomeKind::TransportFailure) {
            1
        } else {
            0
        },
        aborted_count: if matches!(outcome.kind, OutcomeKind::Aborted) { 1 } else { 0 },
        min_ms: outcome.elapsed_ms,
        max_ms: outcome.elapsed_ms,
        total_ms: outcome.elapsed_ms as u128,
        bucket_counts: bc,
    };
    proof {
        let bidx = bucket_index(outcome.elapsed_ms as int);
        let fresh = agg_fresh(outcome.task_name@, outcome.elapsed_ms as int, outcome.kind);
        assert(e@.buckets =~= fresh.buckets);
        assert(e@ == fresh);
        lemma_fresh_bucket_sum(fresh.buckets, bidx);
    }
    e
}

/// The outcomes of a whole run, folded into the aggregates one at a time, in
/// submission order. Since `record` is atomic in the model, any interleaving
/// of the virtual users' submissions is one such sequence.
pub open spec fn apply_all(s: Seq<AggModel>, os: Seq<RequestOutcome>) -> Seq<AggModel>
    decreases os.len(),
{
    if os.len() == 0 {
        s
    } else {
        record_model(
            apply_all(s, os.drop_last()),
            os.last().task_name@,
            os.last().elapsed_ms as int,
            os.last().kind,
        )
    }
}

/// Recording one outcome grows the grand total by exactly one: nothing is
/// duplicated, nothing is lost.
pub proof fn lemma_record_model_total(s: Seq<AggModel>, name: Seq<char>, elapsed: int, kind: OutcomeKind)
    ensures
        total_count(record_model(s, name, elapsed, kind)) == total_count(s) + 1,
{
    if model_has(s, name) {
        let i = model_index(s, name);
        assert(0 <= i < s.len() && s[i].name == name);
        lemma_total_count_update(s, i, agg_record(s[i], elapsed, kind));
    } else {
        lemma_total_count_push(s, agg_fresh(name, elapsed, kind));
    }
}

/// Law: outcomes are counted exactly once. However many virtual users
/// submitted, a run whose submissions form the sequence `os` ends with a
/// grand total of exactly `os.len()` more than it started with — `K` users
/// submitting `M` outcomes each leave `K * M` recorded outcomes.
pub proof fn lemma_apply_all_total(s: Seq<AggModel>, os: Seq<RequestOutcome>)
    ensures
        total_count(apply_all(s, os)) == total_count(s) + os.len(),
    decreases os.len(),
{
    if os.len() > 0 {
        lemma_apply_all_total(s, os.drop_last());
        lemma_record_model_total(
            apply_all(s, os.drop_last()),
            os.last().task_name@,
            os.last().elapsed_ms as int,
            os.last().kind,
        );
    }
}

/// The names in the aggregates are pairwise distinct.
pub open spec fn names_unique(s: Seq<AggModel>) -> bool {
    forall|i: int, j: int| 0 <= i < s.len() && 0 <= j < s.len() && i != j
        ==> (#[trigger] s[i]).name != (#[trigger] s[j]).name
}

/// Under unique names, the entry that carries a name is the only one.
pub proof fn lemma_model_index_of(s: Seq<AggModel>, name: Seq<char>, i: int)
    requires
        names_unique(s),
        0 <= i < s.len(),
        s[i].name == name,
    ensures
        model_has(s, name),
        model_index(s, name) == i,
{
    assert(model_has(s, name));
    let c = model_index(s, name);
    assert(0 <= c < s.len() && s[c].name == name);
    if c != i {
        assert(s[c].name != s[i].name);
    }
}

/// The named task's recorded-outcome count, zero if it never ran.
pub open spec fn entry_count(s: Seq<AggModel>, name: Seq<char>) -> int {
    if model_has(s, name) {
        s[model_index(s, name)].count
    } else {
        0
    }
}

/// The named task's successful-outcome count, zero if it never ran.
pub open spec fn entry_success(s: Seq<AggModel>, name: Seq<char>) -> int {
    if model_has(s, name) {
        s[model_index(s, name)].success_count
    } else {
        0
    }
}

/// Recording keeps names unique and touches exactly the named entry's
/// counters: its count grows by one, its success count only on a success.
pub proof fn lemma_record_model_entry(s: Seq<AggModel>, name: Seq<char>, elapsed: int, kind: OutcomeKind)
    requires
        names_unique(s),
    ensures
        names_unique(record_model(s, name, elapsed, kind)),
        entry_count(record_model(s, name, elapsed, kind), name) == entry_count(s, name) + 1,
        entry_success(record_model(s, name, elapsed, kind), name)
            == entry_success(s, name) + kind_inc(kind, OutcomeKind::Success),
{
    let rm = record_model(s, name, elapsed, kind);
    if model_has(s, name) {
        let i = model_index(s, name);
        assert(0 <= i < s.len() && s[i].name == name);
        assert(rm == s.update(i, agg_record(s[i], elapsed, kind)));
        assert forall|a: int, b: int|
            0 <= a < rm.len() && 0 <= b < rm.len() && a != b
                implies (#[trigger] rm[a]).name != (#[trigger] rm[b]).name by {
            assert(rm[a].name == s[a].name);
            assert(rm[b].name == s[b].name);
        }
        lemma_model_index_of(rm, name, i);
    } else {
        assert(rm == s.push(agg_fresh(name, elapsed, kind)));
        assert forall|a: int, b: int|
            0 <= a < rm.len() && 0 <= b < rm.len() && a != b
                implies (#[trigger] rm[a]).name != (#[trigger] rm[b]).name by {
            if a < s.len() && b < s.len() {
            } else if a == s.len() {
                if s[b].name == name {
                    assert(model_has(s, name));
                }
            } else {
                if s[a].name == name {
                    assert(model_has(s, name));
                }
            }
        }
        lemma_model_index_of(rm, name, s.len() as int);
    }
}

/// Law: a task that fails on every execution ends with a success count of
/// zero and a recorded count equal to its invocation count. Failures are
/// data, not control: they are aggregated, never thrown.
pub proof fn lemma_all_failures_counted(s: Seq<AggModel>, os: Seq<RequestOutcome>, name: Seq<char>)
    requires
        names_unique(s),
        forall|k: int| 0 <= k < os.len()
            ==> (#[trigger] os[k]).task_name@ == name && os[k].kind != OutcomeKind::Success,
    ensures
        names_unique(apply_all(s, os)),
        entry_count(apply_all(s, os), name) == entry_count(s, name) + os.len(),
        entry_success(apply_all(s, os), name) == entry_success(s, name),
    decreases os.len(),
{
    if os.len() > 0 {
        lemma_all_failures_counted(s, os.drop_last(), name);
        let mid = apply_all(s, os.drop_last());
        let last = os.last();
        assert(last.task_name@ == name && last.kind != OutcomeKind::Success);
        lemma_record_model_entry(mid, name, last.elapsed_ms as int, last.kind);
    }
}

/// Law: `snapshot` is a pure read. Two snapshots taken from the same
/// collector state with no recording in between carry identical aggregates.
pub proof fn lemma_snapshot_idempotent(
    collector_state: Seq<AggModel>,
    first: MetricsSnapshot,
    second: MetricsSnapshot,
)
    requires
        first@ == collector_state,
        second@ == collector_state,
    ensures
        first@ == second@,
{
}

/// A histogram with a single one-entry sums to one.
proof fn lemma_fresh_bucket_sum(s: Seq<int>, hot: int)
    requires
        forall|i: int| 0 <= i < s.len() ==> #[trigger] s[i] == (if i == hot { 1int } else { 0int }),
    ensures
        sum_int(s) == if 0 <= hot < s.len() { 1int } else { 0int },
    decreases s.len(),
{
    if s.len() > 0 {
        lemma_fresh_bucket_sum(s.drop_last(), hot);
    }
}

} // verus!
