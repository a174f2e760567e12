//! Ordered checkpoint timing: which crossings count, when a run is valid,
//! and when a completed run may become a record. Distances and times are
//! measured by the caller; these rules decide what the crossings mean.
use vstd::prelude::*;

verus! {

/// Progress of the current run or lap.
#[derive(Clone, Copy, Debug, PartialEq, Eq, Structural)]
pub struct RunProgress {
    pub started: bool,
    pub finished: bool,
    /// Finish crossings since the last reset, including invalid laps/runs.
    pub completed_runs: u64,
    /// Index of the next checkpoint to pass, in course order.
    pub next_checkpoint: usize,
    /// The run missed a checkpoint, left the course at a gate, jumped, or
    /// returned backwards across the start.
    pub invalid: bool,
}

/// What crossing the finish meant.
#[derive(Clone, Copy, Debug, PartialEq, Eq, Structural)]
pub struct Completion {
    /// The run or lap was valid: its time is shown as the last time.
    pub counted: bool,
    /// The time is a new best.
    pub record: bool,
}

/// Progress after the next `reached` checkpoints were crossed in one step:
/// crossing one off the course invalidates the run and counts none.
pub open spec fn pass_gates_spec(p: RunProgress, reached: nat, on_course: bool) -> RunProgress {
    if reached == 0 {
        p
    } else if !on_course {
        RunProgress { invalid: true, ..p }
    } else {
        RunProgress { next_checkpoint: (p.next_checkpoint + reached) as usize, ..p }
    }
}

/// The meaning of a finish crossing: the run counts only with every
/// checkpoint passed, on the course, and nothing else invalidating it; it
/// is a record only if it counts and is faster than the best.
pub open spec fn completion_spec(
    p: RunProgress,
    gate_count: nat,
    on_course: bool,
    faster: bool,
) -> Completion {
    let counted = p.next_checkpoint == gate_count && on_course && !p.invalid;
    Completion { counted, record: counted && faster }
}

/// Progress after a finish crossing: a circuit starts its next lap afresh,
/// a point-to-point run is over.
pub open spec fn after_completion_spec(
    p: RunProgress,
    gate_count: nat,
    on_course: bool,
    closed: bool,
) -> RunProgress {
    let runs = (p.completed_runs + 1) as u64;
    if closed {
        RunProgress { completed_runs: runs, next_checkpoint: 0, invalid: false, ..p }
    } else {
        RunProgress {
            completed_runs: runs,
            finished: true,
            invalid: p.invalid || p.next_checkpoint != gate_count || !on_course,
            ..p
        }
    }
}

impl RunProgress {
    /// A fresh run: not started, no checkpoints passed, valid.
    pub fn new() -> (r: RunProgress)
        ensures
            r == (RunProgress {
                started: false,
                finished: false,
                completed_runs: 0,
                next_checkpoint: 0,
                invalid: false,
            }),
    {
        RunProgress {
            started: false,
            finished: false,
            completed_runs: 0,
            next_checkpoint: 0,
            invalid: false,
        }
    }

    /// Whether a simulation step is timed: the run has started and not finished.
    pub fn timing(&self) -> (r: bool)
        ensures
            r == (self.started && !self.finished),
    {
        self.started && !self.finished
    }

    /// Marks the run invalid.
    pub fn invalidate(&mut self)
        ensures
            *final(self) == (RunProgress { invalid: true, ..*old(self) }),
    {
        self.invalid = true;
    }

    /// Records that the next `reached` checkpoints lay within one step.
    pub fn pass_gates(&mut self, reached: usize, on_course: bool)
        requires
            old(self).next_checkpoint + reached <= usize::MAX,
        ensures
            *final(self) == pass_gates_spec(*old(self), reached as nat, on_course),
    {
        if reached > 0 {
            if !on_course {
                self.invalid = true;
            } else {
                self.next_checkpoint = self.next_checkpoint + reached;
            }
        }
    }

    /// Records a finish crossing and reports what it meant; `faster` says
    /// whether its time beats the best time.
    pub fn complete(
        &mut self,
        gate_count: usize,
        on_course: bool,
        faster: bool,
        closed: bool,
    ) -> (r: Completion)
        requires
            old(self).completed_runs < u64::MAX,
        ensures
            r == completion_spec(*old(self), gate_count as nat, on_course, faster),
            r.record ==> r.counted,
            r.counted ==> on_course && old(self).next_checkpoint == gate_count
                && !old(self).invalid,
            *final(self) == after_completion_spec(*old(self), gate_count as nat, on_course, closed),
    {
        self.completed_runs = self.completed_runs + 1;
        if self.next_checkpoint != gate_count || !on_course {
            self.invalid = true;
        }
        let counted = !self.invalid;
        let result = Completion { counted, record: counted && faster };
        if closed {
            self.next_checkpoint = 0;
            self.invalid = false;
        } else {
            self.finished = true;
        }
        result
    }
}


/// One thing that can happen to a run between finish crossings.
pub ghost enum RunEvent {
    /// A step crossed this many checkpoints, on or off the course.
    Gates(nat, bool),
    /// A step jumped too far or crossed the start backwards.
    Invalidated,
}

pub open spec fn apply_event(p: RunProgress, e: RunEvent) -> RunProgress {
    match e {
        RunEvent::Gates(n, on_course) => pass_gates_spec(p, n, on_course),
        RunEvent::Invalidated => RunProgress { invalid: true, ..p },
    }
}

pub open spec fn apply_events(p: RunProgress, events: Seq<RunEvent>) -> RunProgress
    decreases events.len(),
{
    if events.len() == 0 {
        p
    } else {
        apply_event(apply_events(p, events.drop_last()), events.last())
    }
}

pub open spec fn voids_run(e: RunEvent) -> bool {
    match e {
        RunEvent::Gates(n, on_course) => n > 0 && !on_course,
        RunEvent::Invalidated => true,
    }
}

proof fn lemma_invalid_persists(p: RunProgress, events: Seq<RunEvent>, i: int)
    requires
        0 <= i < events.len(),
        voids_run(events[i]),
    ensures
        apply_events(p, events).invalid,
    decreases events.len(),
{
    if i < events.len() - 1 {
        lemma_invalid_persists(p, events.drop_last(), i);
    }
}

/// A run in which a checkpoint was crossed off the course, or which was
/// invalidated, neither counts nor sets a record when it crosses the finish,
/// whatever happened afterwards.
pub proof fn lemma_voided_run_never_counts(
    p: RunProgress,
    events: Seq<RunEvent>,
    i: int,
    gate_count: nat,
    on_course: bool,
    faster: bool,
)
    requires
        0 <= i < events.len(),
        voids_run(events[i]),
    ensures
        !completion_spec(apply_events(p, events), gate_count, on_course, faster).counted,
        !completion_spec(apply_events(p, events), gate_count, on_course, faster).record,
{
    lemma_invalid_persists(p, events, i);
}

/// A run that has not passed every checkpoint in order cannot set a record,
/// however fast it was.
pub proof fn lemma_record_needs_every_checkpoint(
    p: RunProgress,
    gate_count: nat,
    on_course: bool,
    faster: bool,
)
    requires
        p.next_checkpoint != gate_count,
    ensures
        !completion_spec(p, gate_count, on_course, faster).record,
{
}

/// Only a counted run sets a record, and a run counts only when it crossed
/// the finish on the course, with every checkpoint passed in order and
/// nothing invalidating it; such a run sets a record exactly when it was
/// faster. In particular a finish crossed off the course never counts and
/// never sets a record, however fast.
pub proof fn lemma_only_clean_finishes_count(
    p: RunProgress,
    gate_count: nat,
    on_course: bool,
    faster: bool,
)
    ensures
        completion_spec(p, gate_count, on_course, faster).record ==> completion_spec(
            p,
            gate_count,
            on_course,
            faster,
        ).counted,
        completion_spec(p, gate_count, on_course, faster).counted <==> (on_course
            && p.next_checkpoint == gate_count && !p.invalid),
        completion_spec(p, gate_count, on_course, faster).counted ==> (completion_spec(
            p,
            gate_count,
            on_course,
            faster,
        ).record <==> faster),
        !completion_spec(p, gate_count, false, faster).record,
        !completion_spec(p, gate_count, on_course, false).record,
{
}

} // verus!
