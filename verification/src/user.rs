use vstd::prelude::*;

verus! {

/// How a virtual user picks its next task from its task set.
#[derive(Clone, Copy, Debug, PartialEq, Eq, Structural)]
pub enum SelectionPolicy {
    /// Cycle through the tasks in order, wrapping to the first after the last.
    Sequential,
    /// Pick a task uniformly at random.
    UniformRandom,
}

/// Where a virtual user stands in its execution loop.
#[derive(Clone, Copy, Debug, PartialEq, Eq, Structural)]
pub enum UserPhase {
    /// Created, no task started yet.
    Idle,
    /// A task is running on the user's behalf.
    Executing,
    /// Pausing between tasks; the designated cancellation checkpoint.
    Waiting,
    /// Terminal: the user runs nothing further.
    Stopped,
}

/// What the driver reports back to a virtual user's state machine.
#[derive(Clone, Copy, Debug, PartialEq, Eq, Structural)]
pub enum UserEvent {
    /// The user's execution unit has been spawned.
    Started,
    /// The running task finished; the flag says whether it succeeded.
    TaskCompleted(bool),
    /// The inter-task pause has elapsed.
    WaitElapsed,
    /// The controller force-aborts the user during drain.
    AbortRequested,
}

/// What the driver must do next on a virtual user's behalf.
#[derive(Clone, Copy, Debug, PartialEq, Eq, Structural)]
pub enum UserAction {
    /// Run the task at this index of the user's task set.
    RunTask(usize),
    /// Pause for this many milliseconds, then report `WaitElapsed`.
    Wait(u64),
    /// Tear the user down; it is stopped.
    Shutdown,
}

/// The pause drawn for one wait: `min` plus the entropy folded uniformly into
/// `[0, max - min]`. A range of `[0, 0]` always draws zero.
pub open spec fn wait_draw(min: u64, max: u64, entropy: u64) -> int {
    min + (entropy as int) % (max as int - min as int + 1)
}

/// Runtime state of one simulated client. The HTTP session and the task
/// operations live with the driver; the machine holds only the execution
/// cursor and decides, step by step, what the driver does next.
pub struct VirtualUser {
    /// Number of tasks in the assigned task set.
    pub task_count: usize,
    /// Inter-task wait range, milliseconds.
    pub wait_min_ms: u64,
    pub wait_max_ms: u64,
    /// How the next task is picked.
    pub policy: SelectionPolicy,
    /// Stop after this many completed tasks; zero means no cap.
    pub iteration_cap: u64,
    /// Next task for sequential selection.
    pub cursor: usize,
    /// Tasks completed so far.
    pub completed: u64,
    /// Requests issued so far on this user's session.
    pub requests: u64,
    /// Position in the execution loop.
    pub phase: UserPhase,
}

impl VirtualUser {
    /// The machine's internal consistency: the task set is non-empty, the
    /// wait range is ordered, and the cursor stays inside the task set.
    pub open spec fn wf(self) -> bool {
        &&& self.task_count >= 1
        &&& self.wait_min_ms <= self.wait_max_ms
        &&& self.cursor < self.task_count
    }

    /// Which events the machine accepts in which phase.
    pub open spec fn accepts(self, ev: UserEvent) -> bool {
        match ev {
            UserEvent::Started => self.phase is Idle,
            UserEvent::TaskCompleted(_) => self.phase is Executing,
            UserEvent::WaitElapsed => self.phase is Waiting,
            UserEvent::AbortRequested => !(self.phase is Stopped),
        }
    }

    /// The task index the machine picks next, and the cursor it leaves behind.
    pub open spec fn selection(self, entropy: u64) -> (int, int) {
        match self.policy {
            SelectionPolicy::Sequential => (
                self.cursor as int,
                if self.cursor + 1 == self.task_count { 0int } else { self.cursor + 1 },
            ),
            SelectionPolicy::UniformRandom => (
                (entropy as int) % (self.task_count as int),
                self.cursor as int,
            ),
        }
    }

    /// The completed-task count at which the machine retires, if any.
    pub open spec fn cap_reached(self, completed_now: int) -> bool {
        self.iteration_cap != 0 && completed_now >= self.iteration_cap
    }

    /// The full transition relation of the execution loop, as one function of
    /// the current state, the event, the stop signal, and the entropy the
    /// driver supplies: the machine after the step, and the action owed.
    pub open spec fn step(self, ev: UserEvent, stop: bool, entropy: u64) -> (VirtualUser, UserAction) {
        let stopped = VirtualUser { phase: UserPhase::Stopped, ..self };
        match ev {
            UserEvent::AbortRequested => (stopped, UserAction::Shutdown),
            UserEvent::Started => if stop {
                (stopped, UserAction::Shutdown)
            } else {
                let (task, cur) = self.selection(entropy);
                (
                    VirtualUser { phase: UserPhase::Executing, cursor: cur as usize, ..self },
                    UserAction::RunTask(task as usize),
                )
            },
            UserEvent::TaskCompleted(_) => {
                let done = self.completed + 1;
                if self.cap_reached(done as int) {
                    (
                        VirtualUser { phase: UserPhase::Stopped, completed: done as u64, ..self },
                        UserAction::Shutdown,
                    )
                } else {
                    (
                        VirtualUser { phase: UserPhase::Waiting, completed: done as u64, ..self },
                        UserAction::Wait(
                            wait_draw(self.wait_min_ms, self.wait_max_ms, entropy) as u64,
                        ),
                    )
                }
            },
            UserEvent::WaitElapsed => if stop {
                (stopped, UserAction::Shutdown)
            } else {
                let (task, cur) = self.selection(entropy);
                (
                    VirtualUser { phase: UserPhase::Executing, cursor: cur as usize, ..self },
                    UserAction::RunTask(task as usize),
                )
            },
        }
    }

    /// A fresh virtual user assigned to a task set of `task_count` tasks.
    pub fn new(
        task_count: usize,
        wait_min_ms: u64,
        wait_max_ms: u64,
        policy: SelectionPolicy,
        iteration_cap: u64,
    ) -> (u: VirtualUser)
        requires
            task_count >= 1,
            wait_min_ms <= wait_max_ms,
        ensures
            u.wf(),
            u.phase is Idle,
            u.task_count == task_count,
            u.wait_min_ms == wait_min_ms,
            u.wait_max_ms == wait_max_ms,
            u.policy == policy,
            u.iteration_cap == iteration_cap,
            u.cursor == 0,
            u.completed == 0,
            u.requests == 0,
    {
        VirtualUser {
            task_count,
            wait_min_ms,
            wait_max_ms,
            policy,
            iteration_cap,
            cursor: 0,
            completed: 0,
            requests: 0,
            phase: UserPhase::Idle,
        }
    }

    /// Advance the execution loop by one event. `stop` is the scheduler's
    /// cooperative cancellation signal; it is honored exactly at the
    /// checkpoints (before a task is selected), never mid-task. `entropy`
    /// feeds the wait draw and random task selection; every outcome of the
    /// step is fixed by the arguments.
    pub fn on_event(&mut self, ev: UserEvent, stop: bool, entropy: u64) -> (a: UserAction)
        requires
            old(self).wf(),
            old(self).accepts(ev),
            old(self).completed < u64::MAX,
        ensures
            final(self).wf(),
            (*final(self), a) == old(self).step(ev, stop, entropy),
    {
        match ev {
            UserEvent::AbortRequested => {
                self.phase = UserPhase::Stopped;
                UserAction::Shutdown
            },
            UserEvent::Started | UserEvent::WaitElapsed => {
                if stop {
                    self.phase = UserPhase::Stopped;
                    UserAction::Shutdown
                } else {
                    let task = self.select_task(entropy);
                    self.phase = UserPhase::Executing;
                    UserAction::RunTask(task)
                }
            },
            UserEvent::TaskCompleted(_) => {
                self.completed = self.completed + 1;
                if self.iteration_cap != 0 && self.completed >= self.iteration_cap {
                    self.phase = UserPhase::Stopped;
                    UserAction::Shutdown
                } else {
                    self.phase = UserPhase::Waiting;
                    let pause = draw_wait(self.wait_min_ms, self.wait_max_ms, entropy);
                    UserAction::Wait(pause)
                }
            },
        }
    }

    /// Pick the next task index per the selection policy, advancing the
    /// sequential cursor.
    fn select_task(&mut self, entropy: u64) -> (task: usize)
        requires
            old(self).wf(),
        ensures
            final(self).wf(),
            task == old(self).selection(entropy).0,
            final(self).cursor == old(self).selection(entropy).1,
            *final(self) == (VirtualUser { cursor: final(self).cursor, ..*old(self) }),
    {
        match self.policy {
            SelectionPolicy::Sequential => {
                let task = self.cursor;
                if self.cursor + 1 == self.task_count {
                    self.cursor = 0;
                } else {
                    self.cursor = self.cursor + 1;
                }
                task
            },
            SelectionPolicy::UniformRandom => (entropy % (self.task_count as u64)) as usize,
        }
    }

    /// Note one HTTP exchange issued on this user's session.
    pub fn note_request(&mut self)
        requires
            old(self).requests < u64::MAX,
        ensures
            *final(self) == (VirtualUser { requests: (old(self).requests + 1) as u64, ..*old(self) }),
    {
        self.requests = self.requests + 1;
    }
}

/// Law: a wait range of `[0, 0]` makes task selections back to back.
/// Whatever entropy the driver supplies and whatever the completed task
/// returned, the machine asks for a pause of exactly zero milliseconds
/// before the next selection.
pub proof fn lemma_zero_wait_back_to_back(u: VirtualUser, success: bool, stop: bool, entropy: u64)
    requires
        u.wf(),
        u.wait_min_ms == 0,
        u.wait_max_ms == 0,
        u.phase is Executing,
        !u.cap_reached(u.completed + 1),
    ensures
        u.step(UserEvent::TaskCompleted(success), stop, entropy).1 == UserAction::Wait(0),
        u.step(UserEvent::TaskCompleted(success), stop, entropy).0.phase is Waiting,
{
    vstd::arithmetic::div_mod::lemma_mod_bound(entropy as int, 1);
}

/// Law: a failing task never terminates its virtual user. The machine takes
/// the very same step whether the completed task succeeded or failed; in
/// particular, short of the iteration cap it proceeds to `Waiting`, never to
/// `Stopped`.
pub proof fn lemma_failure_never_stops(u: VirtualUser, stop: bool, entropy: u64)
    requires
        u.wf(),
        u.phase is Executing,
    ensures
        u.step(UserEvent::TaskCompleted(false), stop, entropy)
            == u.step(UserEvent::TaskCompleted(true), stop, entropy),
        !u.cap_reached(u.completed + 1)
            ==> u.step(UserEvent::TaskCompleted(false), stop, entropy).0.phase is Waiting,
{
}

/// Law: the stop signal is honored at every checkpoint. At the moments the
/// loop is about to select a task — right after spawning, or when a wait
/// elapses — a raised stop signal retires the user at once, and an abort
/// retires it from any live phase.
pub proof fn lemma_stop_observed_at_checkpoint(u: VirtualUser, ev: UserEvent, entropy: u64)
    requires
        u.wf(),
        u.accepts(ev),
    ensures
        ev is Started || ev is WaitElapsed ==> {
            &&& u.step(ev, true, entropy).0.phase is Stopped
            &&& u.step(ev, true, entropy).1 == UserAction::Shutdown
        },
        ev is AbortRequested ==> {
            &&& u.step(ev, true, entropy).0.phase is Stopped
            &&& u.step(ev, false, entropy).0.phase is Stopped
        },
{
}

/// Draw the pause before the next task: uniform over `[min, max]`, driven by
/// the supplied entropy. A degenerate range pins the draw; in particular a
/// range of `[0, 0]` yields no pause at all.
pub fn draw_wait(min: u64, max: u64, entropy: u64) -> (r: u64)
    requires
        min <= max,
    ensures
        r == wait_draw(min, max, entropy),
        min <= r <= max,
        min == max ==> r == min,
{
    let span: u64 = max - min;
    if span == u64::MAX {
        // The range covers every value; the entropy is the draw.
        proof {
            vstd::arithmetic::div_mod::lemma_small_mod(entropy as nat, (u64::MAX as nat) + 1);
        }
        entropy
    } else {
        let r = min + entropy % (span + 1);
        proof {
            vstd::arithmetic::div_mod::lemma_mod_bound(entropy as int, span as int + 1);
        }
        r
    }
}

} // verus!
