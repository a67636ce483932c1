use vstd::prelude::*;
use crate::apportion::{apportion, base_share, remainder_priority};
use crate::errors::SchedulerError;
use crate::sums::{sum64, lemma_sum64_all_positive};
use crate::tasks::Registry;

verus! {

/// The registered weights of a registry view, in registration order.
pub open spec fn weights_of(s: Seq<crate::tasks::TaskSet>) -> Seq<u64> {
    Seq::new(s.len(), |i: int| s[i].weight)
}

/// Compute how many virtual users each registered task set receives out of
/// `total_users`, by largest-remainder apportionment on the task-set weights.
/// Fails exactly when nothing is registered.
pub fn plan(registry: &Registry, total_users: u64) -> (r: Result<Vec<u64>, SchedulerError>)
    requires
        registry.wf(),
    ensures
        r is Err <==> registry@.len() == 0,
        r is Err ==> r == Err::<Vec<u64>, SchedulerError>(SchedulerError::NoTaskSets),
        r is Ok ==> {
            let alloc = r->Ok_0;
            &&& alloc@.len() == registry@.len()
            &&& sum64(alloc@) == total_users
            &&& forall|i: int| 0 <= i < alloc@.len() ==>
                base_share(total_users, weights_of(registry@), i)
                    <= #[trigger] (alloc@[i] as int)
                    <= base_share(total_users, weights_of(registry@), i) + 1
            &&& forall|i: int, j: int|
                0 <= i < alloc@.len() && 0 <= j < alloc@.len()
                    && alloc@[i] == base_share(total_users, weights_of(registry@), i) + 1
                    && #[trigger] (alloc@[j] as int)
                        == base_share(total_users, weights_of(registry@), j)
                    ==> #[trigger] remainder_priority(total_users, weights_of(registry@), i, j)
        },
{
    if registry.len() == 0 {
        return Err(SchedulerError::NoTaskSets);
    }
    let weights = registry.weights();
    proof {
        assert(weights@ =~= weights_of(registry@));
        assert forall|i: int| 0 <= i < weights@.len() implies #[trigger] weights@[i] >= 1 by {
            assert(registry@[i].valid());
        }
        lemma_sum64_all_positive(weights@);
    }
    let alloc = apportion(total_users, &weights);
    Ok(alloc)
}

/// How many of `total` virtual users have been started `elapsed_ms` into the
/// ramp-up, when one new user is started every `interval_ms`. An interval of
/// zero means no ramp-up: everyone starts at once.
pub open spec fn started_by(total: u64, interval_ms: u64, elapsed_ms: u64) -> int {
    if interval_ms == 0 {
        total as int
    } else if elapsed_ms / interval_ms + 1 >= total {
        total as int
    } else {
        elapsed_ms as int / interval_ms as int + 1
    }
}

/// Ramp-up schedule: the number of virtual users that should be live
/// `elapsed_ms` after the run began. Grows by one user per `interval_ms`,
/// starting with one, and never exceeds `total`.
pub fn users_started(total: u64, interval_ms: u64, elapsed_ms: u64) -> (r: u64)
    ensures
        r == started_by(total, interval_ms, elapsed_ms),
        r <= total,
{
    if interval_ms == 0 {
        return total;
    }
    let steps = elapsed_ms / interval_ms;
    if steps >= total {
        total
    } else if steps + 1 >= total {
        total
    } else {
        steps + 1
    }
}

} // verus!
