//! The cooperative scheduler: per-index execution state and the policy
//! that hands out units of work.
//!
//! For each transaction index it tracks the execution phase, the
//! incarnation (how many times the index has been re-queued after a failed
//! validation), and whether the last completed execution has been
//! validated. Work is always handed out for the lowest eligible index,
//! which bounds the speculation wasted by a conflict near the start of the
//! block.

use vstd::prelude::*;

verus! {

/// The execution phase of a transaction index.
#[derive(Clone, Copy, PartialEq, Eq, Structural, Debug)]
pub enum Phase {
    /// Waiting to be executed (first time, or re-queued).
    PendingExecution,
    /// An execution of this index is in flight; no second one may start.
    Executing,
    /// An execution has completed and its results are recorded.
    Executed,
    /// The index has been finalized.
    Committed,
}

/// The scheduler's knowledge of one transaction index.
#[derive(Clone, Copy, PartialEq, Eq, Structural, Debug)]
pub struct TxnState {
    /// The execution phase.
    pub phase: Phase,
    /// The incarnation: incremented on every re-queue after a failed
    /// validation or a forced re-execution, never otherwise.
    pub incarnation: u64,
    /// Whether the recorded execution has passed validation since the
    /// last publish by a lower index.
    pub validated: bool,
}

/// One unit of work.
#[derive(Clone, Copy, PartialEq, Eq, Structural, Debug)]
pub enum Task {
    /// Execute this index at this incarnation.
    Execute(usize, u64),
    /// Re-check the recorded reads of this index at this incarnation.
    Validate(usize, u64),
    /// No task is ready, but the block is not finished.
    Wait,
    /// Every index is committed.
    Done,
}

/// The lowest index at or above `j` that is pending execution.
pub open spec fn first_pending_from(s: Seq<TxnState>, j: int) -> Option<int>
    decreases s.len() - j,
{
    if j < 0 || j >= s.len() {
        None
    } else if s[j].phase == Phase::PendingExecution {
        Some(j)
    } else {
        first_pending_from(s, j + 1)
    }
}

/// The lowest index at or above `j` that is executed but not validated.
pub open spec fn first_unvalidated_from(s: Seq<TxnState>, j: int) -> Option<int>
    decreases s.len() - j,
{
    if j < 0 || j >= s.len() {
        None
    } else if s[j].phase == Phase::Executed && !s[j].validated {
        Some(j)
    } else {
        first_unvalidated_from(s, j + 1)
    }
}

/// Whether every index is committed.
pub open spec fn all_committed(s: Seq<TxnState>) -> bool {
    forall|i: int| 0 <= i < s.len() ==> (#[trigger] s[i]).phase == Phase::Committed
}

/// An index the pending scan returns really is pending.
pub proof fn lemma_first_pending_is_pending(s: Seq<TxnState>, j: int, i: int)
    requires
        first_pending_from(s, j) == Some(i),
    ensures
        0 <= i < s.len(),
        s[i].phase == Phase::PendingExecution,
    decreases s.len() - j,
{
    if !(j < 0 || j >= s.len()) && s[j].phase != Phase::PendingExecution {
        lemma_first_pending_is_pending(s, j + 1, i);
    }
}

/// An index the validation scan returns really is executed and awaiting
/// validation.
pub proof fn lemma_first_unvalidated_is_executed(s: Seq<TxnState>, j: int, i: int)
    requires
        first_unvalidated_from(s, j) == Some(i),
    ensures
        0 <= i < s.len(),
        s[i].phase == Phase::Executed,
        !s[i].validated,
    decreases s.len() - j,
{
    if !(j < 0 || j >= s.len()) && !(s[j].phase == Phase::Executed && !s[j].validated) {
        lemma_first_unvalidated_is_executed(s, j + 1, i);
    }
}

/// Law: no index is executed concurrently more than once. While an
/// execution of an index is in flight (its phase is `Executing`), the
/// pending scan that hands out execution work can never return that
/// index, so a second execution of it cannot start.
pub proof fn lemma_no_concurrent_execution(s: Seq<TxnState>, i: int)
    requires
        0 <= i < s.len(),
        s[i].phase == Phase::Executing,
    ensures
        first_pending_from(s, 0) != Some(i),
{
    if first_pending_from(s, 0) == Some(i) {
        lemma_first_pending_is_pending(s, 0, i);
    }
}

/// The scheduler.
pub struct Scheduler {
    states: Vec<TxnState>,
}

impl Scheduler {
    /// The per-index states.
    pub closed spec fn view(&self) -> Seq<TxnState> {
        self.states@
    }

    /// A scheduler for a block of `n` transactions: everything pending at
    /// incarnation 0.
    pub fn new(n: usize) -> (r: Self)
        ensures
            r@.len() == n,
            forall|i: int|
                0 <= i < n ==> #[trigger] r@[i] == (TxnState {
                    phase: Phase::PendingExecution,
                    incarnation: 0,
                    validated: false,
                }),
    {
        let mut states: Vec<TxnState> = Vec::new();
        let mut i: usize = 0;
        while i < n
            invariant
                i <= n,
                states@.len() == i,
                forall|j: int|
                    0 <= j < i ==> #[trigger] states@[j] == (TxnState {
                        phase: Phase::PendingExecution,
                        incarnation: 0,
                        validated: false,
                    }),
            decreases n - i,
        {
            states.push(TxnState { phase: Phase::PendingExecution, incarnation: 0, validated: false });
            i = i + 1;
        }
        Scheduler { states }
    }

    /// The number of indices tracked.
    pub fn len(&self) -> (n: usize)
        ensures
            n == self@.len(),
    {
        self.states.len()
    }

    /// The recorded state of one index.
    pub fn get_state(&self, i: usize) -> (st: TxnState)
        requires
            i < self@.len(),
        ensures
            st == self@[i as int],
    {
        self.states[i]
    }

    /// Hands out the lowest-index unit of outstanding work. An `Execute`
    /// task takes the execution lock: the index moves from pending to
    /// executing, so it cannot be handed out a second time.
    pub fn next_task(&mut self) -> (task: Task)
        ensures
            match task {
                Task::Execute(i, inc) => {
                    &&& first_pending_from(old(self)@, 0) == Some(i as int)
                    &&& inc == old(self)@[i as int].incarnation
                    &&& final(self)@ == old(self)@.update(
                        i as int,
                        TxnState {
                            phase: Phase::Executing,
                            incarnation: inc,
                            validated: false,
                        },
                    )
                },
                Task::Validate(i, inc) => {
                    &&& first_pending_from(old(self)@, 0) == None::<int>
                    &&& first_unvalidated_from(old(self)@, 0) == Some(i as int)
                    &&& inc == old(self)@[i as int].incarnation
                    &&& final(self)@ == old(self)@
                },
                Task::Wait => {
                    &&& first_pending_from(old(self)@, 0) == None::<int>
                    &&& first_unvalidated_from(old(self)@, 0) == None::<int>
                    &&& !all_committed(old(self)@)
                    &&& final(self)@ == old(self)@
                },
                Task::Done => {
                    &&& all_committed(old(self)@)
                    &&& final(self)@ == old(self)@
                },
            },
    {
        let ghost s = self.states@;
        let n = self.states.len();
        let mut i: usize = 0;
        while i < n
            invariant
                i <= n,
                n == s.len(),
                old(self)@ == s,
                self.states@ == s,
                first_pending_from(s, 0) == first_pending_from(s, i as int),
            decreases n - i,
        {
            let st = self.states[i];
            if st.phase == Phase::PendingExecution {
                proof {
                    assert(first_pending_from(s, i as int) == Some(i as int));
                }
                let r = &mut self.states[i];
                *r = TxnState {
                    phase: Phase::Executing,
                    incarnation: st.incarnation,
                    validated: false,
                };
                proof {
                    assert(self.states@ =~= s.update(
                        i as int,
                        TxnState {
                            phase: Phase::Executing,
                            incarnation: st.incarnation,
                            validated: false,
                        },
                    ));
                }
                return Task::Execute(i, st.incarnation);
            }
            i = i + 1;
        }
        proof {
            assert(first_pending_from(s, n as int) == None::<int>);
        }
        let mut i: usize = 0;
        while i < n
            invariant
                i <= n,
                n == s.len(),
                old(self)@ == s,
                self.states@ == s,
                first_pending_from(s, 0) == None::<int>,
                first_unvalidated_from(s, 0) == first_unvalidated_from(s, i as int),
            decreases n - i,
        {
            let st = self.states[i];
            if st.phase == Phase::Executed && !st.validated {
                proof {
                    assert(first_unvalidated_from(s, i as int) == Some(i as int));
                }
                return Task::Validate(i, st.incarnation);
            }
            i = i + 1;
        }
        proof {
            assert(first_unvalidated_from(s, n as int) == None::<int>);
        }
        let mut i: usize = 0;
        while i < n
            invariant
                i <= n,
                n == s.len(),
                old(self)@ == s,
                self.states@ == s,
                first_pending_from(s, 0) == None::<int>,
                first_unvalidated_from(s, 0) == None::<int>,
                forall|j: int| 0 <= j < i ==> (#[trigger] s[j]).phase == Phase::Committed,
            decreases n - i,
        {
            let st = self.states[i];
            if st.phase != Phase::Committed {
                return Task::Wait;
            }
            i = i + 1;
        }
        Task::Done
    }

    /// Reports that an in-flight execution hit a dependency and was
    /// abandoned before publishing: the index is re-queued at the same
    /// incarnation.
    pub fn abort_execution(&mut self, i: usize)
        requires
            i < old(self)@.len(),
            old(self)@[i as int].phase == Phase::Executing,
        ensures
            final(self)@ == old(self)@.update(
                i as int,
                TxnState {
                    phase: Phase::PendingExecution,
                    incarnation: old(self)@[i as int].incarnation,
                    validated: false,
                },
            ),
    {
        let st = self.states[i];
        let r = &mut self.states[i];
        *r = TxnState {
            phase: Phase::PendingExecution,
            incarnation: st.incarnation,
            validated: false,
        };
    }

    /// Reports that an execution completed and its results were
    /// published: the index becomes executed and awaits validation.
    pub fn finish_execution(&mut self, i: usize)
        requires
            i < old(self)@.len(),
            old(self)@[i as int].phase == Phase::Executing,
        ensures
            final(self)@ == old(self)@.update(
                i as int,
                TxnState {
                    phase: Phase::Executed,
                    incarnation: old(self)@[i as int].incarnation,
                    validated: false,
                },
            ),
    {
        let st = self.states[i];
        let r = &mut self.states[i];
        *r = TxnState { phase: Phase::Executed, incarnation: st.incarnation, validated: false };
    }

    /// Reports a validation outcome. Law: incarnations are monotonic — a
    /// failed validation re-queues the index at exactly the next
    /// incarnation, and nothing else ever changes an incarnation except
    /// [`Scheduler::bump_incarnation`], which also increments by one.
    pub fn finish_validation(&mut self, i: usize, ok: bool)
        requires
            i < old(self)@.len(),
            old(self)@[i as int].phase == Phase::Executed,
            !ok ==> old(self)@[i as int].incarnation < u64::MAX,
        ensures
            ok ==> final(self)@ == old(self)@.update(
                i as int,
                TxnState {
                    phase: Phase::Executed,
                    incarnation: old(self)@[i as int].incarnation,
                    validated: true,
                },
            ),
            !ok ==> final(self)@ == old(self)@.update(
                i as int,
                TxnState {
                    phase: Phase::PendingExecution,
                    incarnation: (old(self)@[i as int].incarnation + 1) as u64,
                    validated: false,
                },
            ),
    {
        let st = self.states[i];
        let r = &mut self.states[i];
        if ok {
            *r = TxnState { phase: Phase::Executed, incarnation: st.incarnation, validated: true };
        } else {
            *r = TxnState {
                phase: Phase::PendingExecution,
                incarnation: st.incarnation + 1,
                validated: false,
            };
        }
    }

    /// Increments an incarnation for a re-execution performed outside the
    /// speculative path (the finalizer's forced re-execution).
    pub fn bump_incarnation(&mut self, i: usize)
        requires
            i < old(self)@.len(),
            old(self)@[i as int].incarnation < u64::MAX,
        ensures
            final(self)@ == old(self)@.update(
                i as int,
                TxnState {
                    phase: old(self)@[i as int].phase,
                    incarnation: (old(self)@[i as int].incarnation + 1) as u64,
                    validated: old(self)@[i as int].validated,
                },
            ),
    {
        let st = self.states[i];
        let r = &mut self.states[i];
        *r = TxnState {
            phase: st.phase,
            incarnation: st.incarnation + 1,
            validated: st.validated,
        };
    }

    /// Marks an index committed; it is never handed out again.
    pub fn set_committed(&mut self, i: usize)
        requires
            i < old(self)@.len(),
        ensures
            final(self)@ == old(self)@.update(
                i as int,
                TxnState {
                    phase: Phase::Committed,
                    incarnation: old(self)@[i as int].incarnation,
                    validated: true,
                },
            ),
    {
        let st = self.states[i];
        let r = &mut self.states[i];
        *r = TxnState { phase: Phase::Committed, incarnation: st.incarnation, validated: true };
    }

    /// Schedules the recorded reads of one executed index for
    /// re-validation: a publish below it may have invalidated them.
    /// Validation itself re-checks the recorded reads and passes where
    /// nothing the index read changed.
    pub fn invalidate(&mut self, i: usize)
        requires
            i < old(self)@.len(),
        ensures
            final(self)@ == (if old(self)@[i as int].phase == Phase::Executed {
                old(self)@.update(
                    i as int,
                    TxnState {
                        phase: Phase::Executed,
                        incarnation: old(self)@[i as int].incarnation,
                        validated: false,
                    },
                )
            } else {
                old(self)@
            }),
    {
        let st = self.states[i];
        if st.phase == Phase::Executed {
            let r = &mut self.states[i];
            *r = TxnState { phase: Phase::Executed, incarnation: st.incarnation, validated: false };
            proof {
                assert(self.states@ =~= old(self)@.update(
                    i as int,
                    TxnState {
                        phase: Phase::Executed,
                        incarnation: old(self)@[i as int].incarnation,
                        validated: false,
                    },
                ));
            }
        } else {
            proof {
                assert(self.states@ =~= old(self)@);
            }
        }
    }
}

} // verus!
