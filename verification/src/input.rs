//! Discrete input handling: window focus, keyboard driving and the pause
//! and help overlays.
use vstd::prelude::*;

verus! {

/// Window focus as reported by minimized and restored events. A loss of
/// focus stays latched until it is handled, even if focus returns within
/// the same rendered frame.
#[derive(Debug)]
pub struct WindowFocus {
    pub focused: bool,
    /// A focus loss waits to be handled.
    pub lost: bool,
}

impl WindowFocus {
    /// Whether the window has focus: the `focused` field.
    pub open spec fn has_focus(&self) -> bool {
        self.focused
    }

    /// Whether a focus loss is waiting to be handled: the `lost` field.
    pub open spec fn loss_pending(&self) -> bool {
        self.lost
    }

    pub fn new() -> (r: WindowFocus)
        ensures
            r.has_focus(),
            !r.loss_pending(),
    {
        WindowFocus { focused: true, lost: false }
    }

    /// Reports a pending focus loss once, and clears it.
    pub fn take_loss(&mut self) -> (r: bool)
        ensures
            r == old(self).loss_pending(),
            !final(self).loss_pending(),
            final(self).has_focus() == old(self).has_focus(),
    {
        let r = self.lost;
        self.lost = false;
        r
    }

    /// The window was minimized or lost focus.
    pub fn window_minimized_event(&mut self)
        ensures
            !final(self).has_focus(),
            final(self).loss_pending(),
    {
        self.focused = false;
        self.lost = true;
    }

    /// The window was restored or regained focus.
    pub fn window_restored_event(&mut self)
        ensures
            final(self).has_focus(),
            final(self).loss_pending() == old(self).loss_pending(),
    {
        self.focused = true;
    }
}

/// A focus event.
pub ghost enum FocusEvent {
    Minimized,
    Restored,
}

/// Whether a loss is pending after a run of events, starting from `pending`.
pub open spec fn pending_after(pending: bool, events: Seq<FocusEvent>) -> bool
    decreases events.len(),
{
    if events.len() == 0 {
        pending
    } else {
        match events.last() {
            FocusEvent::Minimized => true,
            FocusEvent::Restored => pending_after(pending, events.drop_last()),
        }
    }
}

/// Once the window is minimized, no later restore hides the loss: it is
/// still pending after any events that follow.
pub proof fn lemma_focus_loss_latched(pending: bool, events: Seq<FocusEvent>, i: int)
    requires
        0 <= i < events.len(),
        events[i] is Minimized,
    ensures
        pending_after(pending, events),
    decreases events.len(),
{
    if i < events.len() - 1 {
        lemma_focus_loss_latched(pending, events.drop_last(), i);
    }
}

/// Which driving keys are held: W/Up, S/Down, D/Right, A/Left and Space.
#[derive(Clone, Copy, Debug, PartialEq, Eq, Structural)]
pub struct KeyState {
    pub w: bool,
    pub up: bool,
    pub s: bool,
    pub down: bool,
    pub d: bool,
    pub right: bool,
    pub a: bool,
    pub left: bool,
    pub space: bool,
}

/// Keyboard driving: full throttle, full brake, steering of -1, 0 or 1
/// (right positive) and the handbrake.
#[derive(Clone, Copy, Debug, PartialEq, Eq, Structural)]
pub struct DigitalControl {
    pub throttle: bool,
    pub brake: bool,
    pub steer: i8,
    pub handbrake: bool,
}

/// W or Up accelerates, S or Down brakes, D or Right steers right, A or
/// Left steers left (both cancel), Space is the handbrake.
pub open spec fn digital_spec(k: KeyState) -> DigitalControl {
    DigitalControl {
        throttle: k.w || k.up,
        brake: k.s || k.down,
        steer: ((if k.d || k.right {
            1int
        } else {
            0int
        }) - (if k.a || k.left {
            1int
        } else {
            0int
        })) as i8,
        handbrake: k.space,
    }
}

/// Maps held keys to driving inputs.
pub fn digital_controls(k: KeyState) -> (r: DigitalControl)
    ensures
        r == digital_spec(k),
{
    let right: i8 = if k.d || k.right {
        1
    } else {
        0
    };
    let left: i8 = if k.a || k.left {
        1
    } else {
        0
    };
    DigitalControl {
        throttle: k.w || k.up,
        brake: k.s || k.down,
        steer: right - left,
        handbrake: k.space,
    }
}

/// Keys pressed in one rendered frame that change the interface.
#[derive(Clone, Copy, Debug, PartialEq, Eq, Structural)]
pub struct FrameKeys {
    pub quit_requested: bool,
    pub fullscreen: bool,
    pub help: bool,
    pub escape: bool,
    pub quit: bool,
    pub start: bool,
}

/// The pause and help overlays and the fullscreen setting.
#[derive(Clone, Copy, Debug, PartialEq, Eq, Structural)]
pub struct Interface {
    pub paused: bool,
    pub help: bool,
    pub fullscreen: bool,
}

/// What a frame's keys ask of the game.
#[derive(Clone, Copy, Debug, PartialEq, Eq, Structural)]
pub struct Response {
    /// Leave the game loop now.
    pub quit: bool,
    /// Fullscreen was toggled; apply the new setting.
    pub fullscreen_changed: bool,
    /// Start the run (after resetting a finished one).
    pub start: bool,
}

/// A window close request quits at once. Otherwise F11 toggles fullscreen,
/// F1 toggles the guide, Escape closes the guide or else toggles the
/// pause, Q quits while paused, and Enter starts and clears both overlays.
pub open spec fn respond_spec(ui: Interface, k: FrameKeys) -> (Interface, Response) {
    if k.quit_requested {
        (ui, Response { quit: true, fullscreen_changed: false, start: false })
    } else {
        let fullscreen = if k.fullscreen {
            !ui.fullscreen
        } else {
            ui.fullscreen
        };
        let help1 = if k.help {
            !ui.help
        } else {
            ui.help
        };
        let (help2, paused2) = if k.escape {
            if help1 {
                (false, ui.paused)
            } else {
                (help1, !ui.paused)
            }
        } else {
            (help1, ui.paused)
        };
        if paused2 && k.quit {
            (
                Interface { paused: paused2, help: help2, fullscreen },
                Response { quit: true, fullscreen_changed: k.fullscreen, start: false },
            )
        } else if k.start {
            (
                Interface { paused: false, help: false, fullscreen },
                Response { quit: false, fullscreen_changed: k.fullscreen, start: true },
            )
        } else {
            (
                Interface { paused: paused2, help: help2, fullscreen },
                Response { quit: false, fullscreen_changed: k.fullscreen, start: false },
            )
        }
    }
}

impl Interface {
    /// No overlay, windowed.
    pub fn new() -> (r: Interface)
        ensures
            r == (Interface { paused: false, help: false, fullscreen: false }),
    {
        Interface { paused: false, help: false, fullscreen: false }
    }

    /// Applies one frame's keys.
    pub fn respond(&mut self, k: FrameKeys) -> (r: Response)
        ensures
            (*final(self), r) == respond_spec(*old(self), k),
    {
        if k.quit_requested {
            return Response { quit: true, fullscreen_changed: false, start: false };
        }
        if k.fullscreen {
            self.fullscreen = !self.fullscreen;
        }
        if k.help {
            self.help = !self.help;
        }
        if k.escape {
            if self.help {
                self.help = false;
            } else {
                self.paused = !self.paused;
            }
        }
        if self.paused && k.quit {
            return Response { quit: true, fullscreen_changed: k.fullscreen, start: false };
        }
        if k.start {
            self.paused = false;
            self.help = false;
            return Response { quit: false, fullscreen_changed: k.fullscreen, start: true };
        }
        Response { quit: false, fullscreen_changed: k.fullscreen, start: false }
    }

    /// A track was loaded: the pause ends.
    pub fn track_loaded(&mut self)
        ensures
            *final(self) == (Interface { paused: false, ..*old(self) }),
    {
        self.paused = false;
    }

    /// Whether the simulation advances: the run has started and is not
    /// finished, and neither overlay is shown.
    pub fn simulating(&self, started: bool, finished: bool) -> (r: bool)
        ensures
            r == (started && !self.paused && !self.help && !finished),
    {
        started && !self.paused && !self.help && !finished
    }
}

/// The keys as they drive: W or Up accelerates, S or Down brakes, the
/// handbrake is Space, and steering is +1 toward D/Right, -1 toward
/// A/Left, and 0 when neither or both sides are held.
pub proof fn lemma_keys_drive(k: KeyState)
    ensures
        digital_spec(k).throttle <==> (k.w || k.up),
        digital_spec(k).brake <==> (k.s || k.down),
        digital_spec(k).handbrake <==> k.space,
        (k.d || k.right) && !(k.a || k.left) ==> digital_spec(k).steer == 1,
        (k.a || k.left) && !(k.d || k.right) ==> digital_spec(k).steer == -1,
        (k.a || k.left) == (k.d || k.right) ==> digital_spec(k).steer == 0,
{
}

/// Letters and arrows are interchangeable: holding W, S, D, A in place of
/// Up, Down, Right, Left gives the same inputs; and mirroring the steering
/// keys mirrors the steering.
pub proof fn lemma_letters_and_arrows_agree(k: KeyState)
    ensures
        digital_spec(KeyState { w: k.up, up: k.w, s: k.down, down: k.s, d: k.right, right: k.d, a: k.left, left: k.a, ..k })
            == digital_spec(k),
        digital_spec(KeyState { d: k.a, right: k.left, a: k.d, left: k.right, ..k }).steer
            == -digital_spec(k).steer,
{
}

} // verus!
