//! Decisions of the service supervisor and coordinator: start order, start
//! failures, lifecycle states, shutdown outcomes and main-loop events.
use vstd::prelude::*;

use vstd::multiset::Multiset;

use crate::event::{ConfigChangeType, Event};

verus! {

broadcast use vstd::seq_lib::group_to_multiset_ensures;

/// What the coordinator knows of a service before starting it.
#[derive(Debug, Clone)]
pub struct ServiceInfo {
    pub name: String,
    pub priority: i32,
    pub critical: bool,
}

/// Priorities do not increase along `s`.
pub open spec fn by_descending_priority(s: Seq<ServiceInfo>) -> bool {
    forall|a: int, b: int| 0 <= a < b < s.len() ==> s[a].priority >= s[b].priority
}

/// The services in start order: the same services, highest priority first.
pub fn order_by_priority(services: Vec<ServiceInfo>) -> (r: Vec<ServiceInfo>)
    ensures
        by_descending_priority(r@),
        r@.to_multiset() == services@.to_multiset(),
{
    let mut rest = services;
    let mut out: Vec<ServiceInfo> = Vec::new();
    let ghost input = rest@;
    while rest.len() > 0
        invariant
            by_descending_priority(out@),
            forall|a: int, b: int| 0 <= a < out@.len() && 0 <= b < rest@.len() ==> out@[a].priority >= rest@[b].priority,
            out@.to_multiset().add(rest@.to_multiset()) == input.to_multiset(),
        decreases rest@.len(),
    {
        let mut best: usize = 0;
        let mut j: usize = 1;
        while j < rest.len()
            invariant
                rest@.len() > 0,
                best < rest@.len(),
                1 <= j <= rest@.len(),
                forall|k: int| 0 <= k < j ==> rest@[best as int].priority >= rest@[k].priority,
            decreases rest@.len() - j,
        {
            if rest[j].priority > rest[best].priority {
                best = j;
            }
            j = j + 1;
        }
        let ghost rest0 = rest@;
        let ghost out0 = out@;
        let s = rest.remove(best);
        out.push(s);
        proof {
            assert(rest@ == rest0.remove(best as int));
            assert forall|a: int, b: int| 0 <= a < out@.len() && 0 <= b < rest@.len() implies out@[a].priority >= rest@[b].priority by {
                if b < best {
                    assert(rest@[b] == rest0[b]);
                } else {
                    assert(rest@[b] == rest0[b + 1]);
                }
                if a < out0.len() {
                    assert(out@[a] == out0[a]);
                }
            }
            assert(out@.to_multiset() =~= out0.to_multiset().insert(s));
            assert(rest@.to_multiset() =~= rest0.to_multiset().remove(s));
            assert(rest0.to_multiset().count(s) > 0) by {
                assert(rest0.contains(s)) by {
                    assert(rest0[best as int] == s);
                }
            }
            assert(out@.to_multiset().add(rest@.to_multiset()) =~= out0.to_multiset().add(rest0.to_multiset()));
        }
    }
    proof {
        assert(rest@.to_multiset() =~= Multiset::empty());
        assert(out@.to_multiset().add(Multiset::empty()) =~= out@.to_multiset());
    }
    out
}

/// What to do after a service failed to start.
#[derive(Debug, Clone, Copy, PartialEq, Eq, Structural)]
pub enum StartDecision {
    Continue,
    Abort,
}

/// A failed critical service aborts the start; any other outcome continues.
pub fn on_start_result(critical: bool, started: bool) -> (r: StartDecision)
    ensures
        r == (if !started && critical { StartDecision::Abort } else { StartDecision::Continue }),
{
    if !started && critical {
        StartDecision::Abort
    } else {
        StartDecision::Continue
    }
}

/// Services that must start, and services whose start failure is only logged,
/// in start order: the index of the first critical service that failed, if any.
pub fn first_critical_failure(critical: &Vec<bool>, started: &Vec<bool>) -> (r: Option<usize>)
    requires
        critical@.len() == started@.len(),
    ensures
        match r {
            Some(i) => i < critical@.len() && critical@[i as int] && !started@[i as int]
                && forall|k: int| 0 <= k < i ==> !(critical@[k] && !started@[k]),
            None => forall|k: int| 0 <= k < critical@.len() ==> !(critical@[k] && !started@[k]),
        },
{
    let mut i: usize = 0;
    while i < critical.len()
        invariant
            critical@.len() == started@.len(),
            i <= critical@.len(),
            forall|k: int| 0 <= k < i ==> !(critical@[k] && !started@[k]),
        decreases critical@.len() - i,
    {
        if on_start_result(critical[i], started[i]) == StartDecision::Abort {
            return Some(i);
        }
        i = i + 1;
    }
    None
}

/// Lifecycle of the coordinator.
#[derive(Debug, Clone, Copy, PartialEq, Eq, Structural)]
pub enum Lifecycle {
    Uninitialized,
    Initialized,
    Running,
    Shutdown,
}

/// Lifecycle steps taken out of order.
#[derive(Debug, Clone, Copy, PartialEq, Eq, Structural)]
pub enum LifecycleError {
    AlreadyInitialized,
    NotInitialized,
}

impl Lifecycle {
    /// `initialize`: only from `Uninitialized`.
    pub fn initialize(&mut self) -> (r: Result<(), LifecycleError>)
        ensures
            *old(self) == Lifecycle::Uninitialized ==> r is Ok && *final(self) == Lifecycle::Initialized,
            *old(self) != Lifecycle::Uninitialized ==> r == Err::<(), LifecycleError>(
                LifecycleError::AlreadyInitialized,
            ) && *final(self) == *old(self),
    {
        if *self == Lifecycle::Uninitialized {
            *self = Lifecycle::Initialized;
            Ok(())
        } else {
            Err(LifecycleError::AlreadyInitialized)
        }
    }

    /// `start_all_services`: only from `Initialized`.
    pub fn start(&mut self) -> (r: Result<(), LifecycleError>)
        ensures
            *old(self) == Lifecycle::Initialized ==> r is Ok && *final(self) == Lifecycle::Running,
            *old(self) != Lifecycle::Initialized ==> r == Err::<(), LifecycleError>(
                LifecycleError::NotInitialized,
            ) && *final(self) == *old(self),
    {
        if *self == Lifecycle::Initialized {
            *self = Lifecycle::Running;
            Ok(())
        } else {
            Err(LifecycleError::NotInitialized)
        }
    }

    /// `shutdown`: from any state.
    pub fn shutdown(&mut self)
        ensures
            *final(self) == Lifecycle::Shutdown,
    {
        *self = Lifecycle::Shutdown;
    }
}

/// How a supervised task ended at shutdown.
#[derive(Debug, Clone, PartialEq, Eq)]
pub enum TaskOutcome {
    Completed,
    Failed(String),
    Panicked(String),
    ShutdownTimeout,
}

/// The first outcome that is not a completion, if any.
pub open spec fn first_failure(outcomes: Seq<TaskOutcome>) -> Option<int>
    decreases outcomes.len(),
{
    if outcomes.len() == 0 {
        None
    } else if !(outcomes[0] is Completed) {
        Some(0)
    } else {
        match first_failure(outcomes.drop_first()) {
            Some(i) => Some(i + 1),
            None => None,
        }
    }
}

impl TaskOutcome {
    /// A copy of this outcome.
    pub fn duplicate(&self) -> (r: TaskOutcome)
        ensures
            r == *self,
    {
        match self {
            TaskOutcome::Completed => TaskOutcome::Completed,
            TaskOutcome::Failed(m) => TaskOutcome::Failed(m.clone()),
            TaskOutcome::Panicked(m) => TaskOutcome::Panicked(m.clone()),
            TaskOutcome::ShutdownTimeout => TaskOutcome::ShutdownTimeout,
        }
    }
}

proof fn lemma_first_failure_skip(s: Seq<TaskOutcome>, k: int)
    requires
        0 <= k <= s.len(),
        forall|j: int| 0 <= j < k ==> s[j] is Completed,
    ensures
        first_failure(s) == (match first_failure(s.subrange(k, s.len() as int)) {
            Some(i) => Some(i + k),
            None => None::<int>,
        }),
    decreases k,
{
    if k == 0 {
        assert(s.subrange(0, s.len() as int) =~= s);
    } else {
        lemma_first_failure_skip(s.drop_first(), k - 1);
        assert(s.drop_first().subrange(k - 1, s.drop_first().len() as int) =~= s.subrange(k, s.len() as int));
    }
}

/// Aggregates shutdown outcomes: the first non-completion, or success.
pub fn aggregate_outcomes(outcomes: Vec<TaskOutcome>) -> (r: Result<(), TaskOutcome>)
    ensures
        match first_failure(outcomes@) {
            Some(i) => r == Err::<(), TaskOutcome>(outcomes@[i]),
            None => r is Ok,
        },
{
    let mut k: usize = 0;
    while k < outcomes.len()
        invariant
            k <= outcomes@.len(),
            forall|j: int| 0 <= j < k ==> outcomes@[j] is Completed,
        decreases outcomes@.len() - k,
    {
        match &outcomes[k] {
            TaskOutcome::Completed => {},
            o => {
                proof {
                    lemma_first_failure_skip(outcomes@, k as int);
                    assert(outcomes@.subrange(k as int, outcomes@.len() as int)[0] == outcomes@[k as int]);
                }
                return Err(o.duplicate());
            },
        }
        k = k + 1;
    }
    proof {
        lemma_first_failure_skip(outcomes@, k as int);
    }
    Ok(())
}

/// Names of the running tasks of the supervisor.
#[derive(Debug)]
pub struct TaskRegistry {
    pub names: Vec<String>,
}

impl TaskRegistry {
    /// No task running.
    pub fn new() -> (r: TaskRegistry)
        ensures
            r.names@.len() == 0,
    {
        TaskRegistry { names: Vec::new() }
    }

    /// Records a spawned task.
    pub fn register(&mut self, name: String)
        ensures
            final(self).names@ == old(self).names@.push(name),
    {
        self.names.push(name);
    }

    /// Number of tasks running.
    pub fn active(&self) -> (r: usize)
        ensures
            r == self.names@.len(),
    {
        self.names.len()
    }

    /// Takes every task out for shutdown, in registration order.
    pub fn drain(&mut self) -> (r: Vec<String>)
        ensures
            r@ == old(self).names@,
            final(self).names@.len() == 0,
    {
        let mut taken: Vec<String> = Vec::new();
        std::mem::swap(&mut taken, &mut self.names);
        taken
    }
}

/// What the main loop does with an event.
#[derive(Debug, Clone, PartialEq, Eq)]
pub enum LoopAction {
    /// Reload the hot-reloadable parts of the configuration.
    HotReload,
    /// Tell the operator which sections need a restart; change nothing.
    AdviseRestart(Vec<String>),
    /// Shut down and leave the loop.
    Shutdown,
    /// Nothing to do.
    Ignore,
}

/// The main loop's decision for one event.
pub fn decide(event: Event) -> (r: LoopAction)
    ensures
        match event {
            Event::ConfigChangeDetected(ConfigChangeType::HotReload) => r == LoopAction::HotReload,
            Event::ConfigChangeDetected(ConfigChangeType::ColdRestart { changed_sections }) =>
                r == LoopAction::AdviseRestart(changed_sections),
            Event::SystemShutdown => r == LoopAction::Shutdown,
            _ => r == LoopAction::Ignore,
        },
{
    match event {
        Event::ConfigChangeDetected(ConfigChangeType::HotReload) => LoopAction::HotReload,
        Event::ConfigChangeDetected(ConfigChangeType::ColdRestart { changed_sections }) =>
            LoopAction::AdviseRestart(changed_sections),
        Event::SystemShutdown => LoopAction::Shutdown,
        _ => LoopAction::Ignore,
    }
}

} // verus!
