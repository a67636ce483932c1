use vstd::prelude::*;
use crate::errors::ConfigError;

verus! {

/// One named unit of simulated user work. The operation behind the name is
/// supplied by the scenario: the engine decides *which* task runs and the
/// scenario performs it, keyed by task-set and task index.
pub struct Task {
    pub name: String,
}

/// A weighted group of tasks assigned to one class of virtual users, with the
/// inter-task wait range (in milliseconds) its users pause between tasks.
pub struct TaskSet {
    pub name: String,
    pub weight: u64,
    pub wait_min_ms: u64,
    pub wait_max_ms: u64,
    pub tasks: Vec<Task>,
}

impl TaskSet {
    /// A task set is acceptable when its weight is positive and its wait
    /// range is ordered.
    pub open spec fn valid(self) -> bool {
        &&& self.weight >= 1
        &&& self.wait_min_ms <= self.wait_max_ms
    }
}

/// Some registered task set already carries this name.
pub open spec fn has_name(s: Seq<TaskSet>, name: Seq<char>) -> bool {
    exists|i: int| 0 <= i < s.len() && s[i].name@ == name
}

/// The registry holds only acceptable task sets, under pairwise distinct names.
pub open spec fn registry_wf(s: Seq<TaskSet>) -> bool {
    &&& forall|i: int| 0 <= i < s.len() ==> (#[trigger] s[i]).valid()
    &&& forall|i: int, j: int| 0 <= i < s.len() && 0 <= j < s.len() && i != j
        ==> (#[trigger] s[i]).name@ != (#[trigger] s[j]).name@
}

/// The outcome `register` owes for a given registry state and candidate:
/// the first violated rule, in the order weight, wait range, name.
pub open spec fn register_outcome(s: Seq<TaskSet>, ts: TaskSet) -> Result<(), ConfigError> {
    if ts.weight == 0 {
        Err(ConfigError::InvalidWeight)
    } else if ts.wait_min_ms > ts.wait_max_ms {
        Err(ConfigError::InvalidWaitRange)
    } else if has_name(s, ts.name@) {
        Err(ConfigError::DuplicateName)
    } else {
        Ok(())
    }
}

/// The run configuration under assembly: the task sets a run will draw its
/// virtual users' work from. Frozen once the run starts; the scheduler and
/// the virtual users only read it.
pub struct Registry {
    task_sets: Vec<TaskSet>,
}

impl View for Registry {
    type V = Seq<TaskSet>;

    closed spec fn view(&self) -> Seq<TaskSet> {
        self.task_sets@
    }
}

impl Registry {
    pub open spec fn wf(&self) -> bool {
        registry_wf(self@)
    }

    /// An empty registry.
    pub fn new() -> (r: Registry)
        ensures
            r@ == Seq::<TaskSet>::empty(),
            r.wf(),
    {
        Registry { task_sets: Vec::new() }
    }

    /// Append a task set to the run configuration. Rejects a weight of zero,
    /// an inverted wait range, and a name that is already taken, in that
    /// order; on rejection the registry is unchanged.
    pub fn register(&mut self, ts: TaskSet) -> (r: Result<(), ConfigError>)
        requires
            old(self).wf(),
        ensures
            final(self).wf(),
            r == register_outcome(old(self)@, ts),
            r is Ok ==> final(self)@ == old(self)@.push(ts),
            r is Err ==> final(self)@ == old(self)@,
    {
        if ts.weight == 0 {
            return Err(ConfigError::InvalidWeight);
        }
        if ts.wait_min_ms > ts.wait_max_ms {
            return Err(ConfigError::InvalidWaitRange);
        }
        let n = self.task_sets.len();
        let mut i: usize = 0;
        while i < n
            invariant
                0 <= i <= n,
                self@ == old(self)@,
                old(self).wf(),
                ts.weight >= 1,
                ts.wait_min_ms <= ts.wait_max_ms,
                n == self@.len(),
                forall|j: int| 0 <= j < i ==> (#[trigger] self@[j]).name@ != ts.name@,
            decreases n - i,
        {
            if self.task_sets[i].name == ts.name {
                proof {
                    let wi = i as int;
                    assert(0 <= wi < self@.len() && self@[wi].name@ == ts.name@);
                    assert(has_name(old(self)@, ts.name@));
                }
                return Err(ConfigError::DuplicateName);
            }
            i = i + 1;
        }
        assert(!has_name(self@, ts.name@));
        self.task_sets.push(ts);
        proof {
            assert forall|a: int, b: int|
                0 <= a < self@.len() && 0 <= b < self@.len() && a != b
                    implies (#[trigger] self@[a]).name@ != (#[trigger] self@[b]).name@ by {
                let prev = old(self)@;
                if a < prev.len() && b < prev.len() {
                } else if a == prev.len() {
                    assert(prev[b].name@ != self@[a].name@) by {
                        if prev[b].name@ == ts.name@ {
                            assert(has_name(prev, ts.name@));
                        }
                    }
                } else {
                    if prev[a].name@ == ts.name@ {
                        assert(has_name(prev, ts.name@));
                    }
                }
            }
        }
        Ok(())
    }

    /// Number of registered task sets.
    pub fn len(&self) -> (r: usize)
        ensures
            r == self@.len(),
    {
        self.task_sets.len()
    }

    /// Read access to one registered task set.
    pub fn get(&self, i: usize) -> (r: &TaskSet)
        requires
            i < self@.len(),
        ensures
            *r == self@[i as int],
    {
        &self.task_sets[i]
    }

    /// The registered weights, in registration order.
    pub fn weights(&self) -> (r: Vec<u64>)
        ensures
            r@.len() == self@.len(),
            forall|i: int| 0 <= i < self@.len() ==> r@[i] == (#[trigger] self@[i]).weight,
    {
        let mut r: Vec<u64> = Vec::new();
        let n = self.task_sets.len();
        let mut i: usize = 0;
        while i < n
            invariant
                0 <= i <= n,
                n == self@.len(),
                r@.len() == i,
                forall|j: int| 0 <= j < i ==> r@[j] == (#[trigger] self@[j]).weight,
            decreases n - i,
        {
            r.push(self.task_sets[i].weight);
            i = i + 1;
        }
        r
    }
}

} // verus!
