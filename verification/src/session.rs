//! Who drives, and whether the current run may save a record: the auto
//! driver, the demo's course cycling, mouse or keyboard driving, and the
//! record eligibility that follows from them.
use vstd::prelude::*;

verus! {

/// The driving mode of a session.
#[derive(Clone, Copy, Debug, PartialEq, Eq, Structural)]
pub struct DrivingMode {
    /// The auto driver is in control.
    pub autodrive: bool,
    /// Each completed run moves on to the next course.
    pub demo: bool,
    /// Mouse driving is selected for when the player drives.
    pub mouse: bool,
    /// The current run may save a record.
    pub records: bool,
}

/// What every mode keeps: the demo only runs under the auto driver, and a
/// run driven by the auto driver never saves a record.
pub open spec fn mode_consistent(m: DrivingMode) -> bool {
    &&& m.demo ==> m.autodrive
    &&& m.autodrive ==> !m.records
}

/// The mode at launch: the demo drives automatically; records are saved
/// only by a player's run that is not a preview from a chosen distance.
pub open spec fn launch_spec(autodrive: bool, demo: bool, preview: bool) -> DrivingMode {
    let auto = autodrive || demo;
    DrivingMode { autodrive: auto, demo, mouse: false, records: !auto && !preview }
}

/// A right click: taking control from the auto driver turns it and the
/// demo off for good and selects the mouse; otherwise it switches between
/// mouse and keyboard. The current run's eligibility does not change.
pub open spec fn take_control_spec(m: DrivingMode) -> DrivingMode {
    if m.autodrive {
        DrivingMode { autodrive: false, demo: false, mouse: true, ..m }
    } else {
        DrivingMode { mouse: !m.mouse, ..m }
    }
}

/// A fresh run (a restart, or a course loaded or reloaded): it may save a
/// record exactly when the player drives it.
pub open spec fn restart_spec(m: DrivingMode) -> DrivingMode {
    DrivingMode { records: !m.autodrive, ..m }
}

impl DrivingMode {
    /// The mode at launch; `preview` says the run starts at a chosen distance.
    pub fn launch(autodrive: bool, demo: bool, preview: bool) -> (r: DrivingMode)
        ensures
            r == launch_spec(autodrive, demo, preview),
            mode_consistent(r),
    {
        let auto = autodrive || demo;
        DrivingMode { autodrive: auto, demo, mouse: false, records: !auto && !preview }
    }

    /// Handles a right click.
    pub fn take_control(&mut self)
        ensures
            *final(self) == take_control_spec(*old(self)),
            mode_consistent(*old(self)) ==> mode_consistent(*final(self)),
    {
        if self.autodrive {
            self.autodrive = false;
            self.demo = false;
            self.mouse = true;
        } else {
            self.mouse = !self.mouse;
        }
    }

    /// Starts a fresh run.
    pub fn restart(&mut self)
        ensures
            *final(self) == restart_spec(*old(self)),
            mode_consistent(*old(self)) ==> mode_consistent(*final(self)),
    {
        self.records = !self.autodrive;
    }

    /// Whether a completed run (a sprint's finish or a circuit's lap) moves
    /// the demo on to the next course.
    pub fn next_course_due(&self, run_completed: bool) -> (r: bool)
        ensures
            r == (self.demo && run_completed),
    {
        self.demo && run_completed
    }

    /// Whether the mouse steers and works the pedals: mouse driving is
    /// selected, the player drives, the simulation runs and the window has
    /// focus.
    pub fn mouse_active(&self, simulating: bool, focused: bool) -> (r: bool)
        ensures
            r == (self.mouse && !self.autodrive && simulating && focused),
    {
        self.mouse && !self.autodrive && simulating && focused
    }
}

/// Something that changes the driving mode.
pub ghost enum ModeEvent {
    /// A right click.
    TakeControl,
    /// A restart, or a course loaded or reloaded.
    Restart,
}

pub open spec fn apply_mode_event(m: DrivingMode, e: ModeEvent) -> DrivingMode {
    match e {
        ModeEvent::TakeControl => take_control_spec(m),
        ModeEvent::Restart => restart_spec(m),
    }
}

pub open spec fn apply_mode_events(m: DrivingMode, events: Seq<ModeEvent>) -> DrivingMode
    decreases events.len(),
{
    if events.len() == 0 {
        m
    } else {
        apply_mode_event(apply_mode_events(m, events.drop_last()), events.last())
    }
}

/// Until the player takes control, no run saves a record: after any number
/// of restarts and course changes, an auto-driven session is still auto
/// driven and still saves nothing.
pub proof fn lemma_auto_driver_never_saves(m: DrivingMode, events: Seq<ModeEvent>)
    requires
        mode_consistent(m),
        m.autodrive,
        forall|i: int| 0 <= i < events.len() ==> #[trigger] events[i] is Restart,
    ensures
        apply_mode_events(m, events).autodrive,
        !apply_mode_events(m, events).records,
    decreases events.len(),
{
    if events.len() > 0 {
        let rest = events.drop_last();
        assert forall|i: int| 0 <= i < rest.len() implies #[trigger] rest[i] is Restart by {
            assert(rest[i] == events[i]);
        }
        lemma_auto_driver_never_saves(m, rest);
    }
}

/// Taking control ends the auto driver and the demo for the rest of the
/// session: whatever follows, the next fresh run may save a record.
pub proof fn lemma_control_then_restart_saves(
    m: DrivingMode,
    events: Seq<ModeEvent>,
    i: int,
)
    requires
        mode_consistent(m),
        0 <= i < events.len(),
        events[i] is TakeControl,
        events.last() is Restart,
    ensures
        !apply_mode_events(m, events).autodrive,
        !apply_mode_events(m, events).demo,
        apply_mode_events(m, events).records,
{
    let rest = events.drop_last();
    assert(i < events.len() - 1);
    assert(rest[i] == events[i]);
    lemma_stays_manual(m, rest, i);
}

proof fn lemma_stays_manual(m: DrivingMode, events: Seq<ModeEvent>, i: int)
    requires
        mode_consistent(m),
        0 <= i < events.len(),
        events[i] is TakeControl,
    ensures
        !apply_mode_events(m, events).autodrive,
        !apply_mode_events(m, events).demo,
    decreases events.len(),
{
    let rest = events.drop_last();
    lemma_modes_stay_consistent(m, rest);
    if i < events.len() - 1 {
        assert(rest[i] == events[i]);
        lemma_stays_manual(m, rest, i);
    }
}

/// The mode laws hold of every reachable mode.
pub proof fn lemma_modes_stay_consistent(m: DrivingMode, events: Seq<ModeEvent>)
    requires
        mode_consistent(m),
    ensures
        mode_consistent(apply_mode_events(m, events)),
    decreases events.len(),
{
    if events.len() > 0 {
        lemma_modes_stay_consistent(m, events.drop_last());
    }
}

} // verus!
