//! The show / dwell / hide cycle of the widget.
//!
//! The controller counts progress in whole units, two per tick, so a cycle
//! takes the same number of ticks however fast the host ticks. It never
//! evaluates the easing curve itself: it names the curve's parameters, and
//! the host evaluates the sine.

use vstd::prelude::*;

verus! {

/// Progress gained per tick.
pub const PROGRESS_STEP: u32 = 2;

/// Progress at which the slide-in ends and the dwell begins.
pub const SLIDE_IN_END: u32 = 100;

/// Progress at which the dwell ends.
pub const DWELL_END: u32 = 250;

/// Progress beyond which the cycle is over.
pub const CYCLE_END: u32 = 350;

/// Progress that makes half a turn of the easing curve.
pub const HALF_TURN: u32 = 200;

/// Horizontal position from which the widget enters, off the screen.
pub const ENTRY_X: i32 = -310;

/// Vertical position of the widget during a cycle.
pub const ENTRY_Y: i32 = 50;

/// Horizontal position at which the widget rests while it is shown.
pub const SETTLED_X: i32 = 0;

/// Distance covered by the slide-in, to the right.
pub const SLIDE_IN_REACH: i32 = 310;

/// Distance covered by the slide-out; negative, since it goes to the left.
pub const SLIDE_OUT_REACH: i32 = -300;

/// Wake-up interval asked of the host while nothing moves, in milliseconds.
pub const IDLE_CADENCE_MS: u64 = 100;

/// Wake-up interval asked of the host during a cycle, in milliseconds.
pub const ACTIVE_CADENCE_MS: u64 = 16;

/// Where the controller is in its cycle.
#[derive(Clone, Copy, Debug, PartialEq, Eq)]
pub enum AnimationPhase {
    /// No cycle is running.
    Idle,
    /// A cycle is running and has come this far.
    Active { progress: u32 },
}

/// Where the window is to go. `P` is the host's own type of position, which
/// the controller stores and hands back but never looks into.
#[derive(Clone, Copy, Debug, PartialEq)]
pub enum Placement<P> {
    /// The window stays where it is.
    Keep,
    /// The window goes to this point.
    At { x: i32, y: i32 },
    /// The window goes to `x = base_x + sin(angle / HALF_TURN * pi) * reach`
    /// at height `y`.
    Eased { base_x: i32, reach: i32, angle: u32, y: i32 },
    /// The window goes back to a position that the host reported earlier.
    Restore(P),
}

/// What the host has to apply to its window. A field that is `None`, or a
/// placement that is `Keep`, leaves that aspect of the window alone.
#[derive(Clone, Copy, Debug, PartialEq)]
pub struct WidgetOutput<P> {
    pub placement: Placement<P>,
    pub visible: Option<bool>,
    pub mouse_passthrough: Option<bool>,
}

/// What the widget looked like when a cycle began.
#[derive(Clone, Copy, Debug, PartialEq)]
pub struct SavedState<P> {
    pub visible: bool,
    pub position: P,
}

/// The controller's state as a plain value.
#[derive(Clone, Copy, Debug, PartialEq)]
pub struct ControllerState<P> {
    pub phase: AnimationPhase,
    pub visible: bool,
    pub saved: SavedState<P>,
}

/// The output that asks nothing of the host.
pub open spec fn no_output<P>() -> WidgetOutput<P> {
    WidgetOutput { placement: Placement::Keep, visible: None, mouse_passthrough: None }
}

/// Where the window belongs once a running cycle has reached `progress`.
pub open spec fn placement_at<P>(progress: u32) -> Placement<P> {
    if progress < SLIDE_IN_END {
        Placement::Eased { base_x: ENTRY_X, reach: SLIDE_IN_REACH, angle: progress, y: ENTRY_Y }
    } else if progress <= DWELL_END {
        Placement::At { x: SETTLED_X, y: ENTRY_Y }
    } else if progress < CYCLE_END {
        Placement::Eased {
            base_x: SETTLED_X,
            reach: SLIDE_OUT_REACH,
            angle: (progress - DWELL_END) as u32,
            y: ENTRY_Y,
        }
    } else {
        Placement::Keep
    }
}

impl<P> ControllerState<P> {
    /// A running cycle has not gone past its end.
    pub open spec fn wf(self) -> bool {
        self.phase matches AnimationPhase::Active { progress } ==> progress <= CYCLE_END
    }

    /// A trigger fires. Without a running cycle this begins one: what the
    /// widget looked like is saved, then the widget is shown at the entry
    /// point and takes the mouse. Where the host could not tell the window's
    /// position, the position saved last stays. During a cycle a trigger is
    /// ignored.
    pub open spec fn trigger(self, position: Option<P>) -> (Self, WidgetOutput<P>) {
        match self.phase {
            AnimationPhase::Active { .. } => (self, no_output()),
            AnimationPhase::Idle => (
                ControllerState {
                    phase: AnimationPhase::Active { progress: 0 },
                    visible: true,
                    saved: SavedState {
                        visible: self.visible,
                        position: match position {
                            Some(p) => p,
                            None => self.saved.position,
                        },
                    },
                },
                WidgetOutput {
                    placement: Placement::At { x: ENTRY_X, y: ENTRY_Y },
                    visible: Some(true),
                    mouse_passthrough: Some(false),
                },
            ),
        }
    }

    /// One tick passes.
    ///
    /// Without a running cycle nothing happens. A cycle whose widget was
    /// hidden from outside ends at once and asks nothing of the host. Otherwise
    /// progress grows by one step. Up to the end of the cycle the window is
    /// placed on the curve and keeps the mouse. Past the end the saved
    /// visibility comes back, with the saved position if the widget is
    /// visible again, and the mouse passes through.
    pub open spec fn advance(self) -> (Self, WidgetOutput<P>) {
        match self.phase {
            AnimationPhase::Idle => (self, no_output()),
            AnimationPhase::Active { progress } => {
                let next = (progress + PROGRESS_STEP) as u32;
                if !self.visible {
                    (ControllerState { phase: AnimationPhase::Idle, ..self }, no_output())
                } else if next <= CYCLE_END {
                    (
                        ControllerState { phase: AnimationPhase::Active { progress: next }, ..self },
                        WidgetOutput {
                            placement: placement_at(next),
                            visible: None,
                            mouse_passthrough: Some(false),
                        },
                    )
                } else {
                    (
                        ControllerState {
                            phase: AnimationPhase::Idle,
                            visible: self.saved.visible,
                            saved: self.saved,
                        },
                        WidgetOutput {
                            placement: if self.saved.visible {
                                Placement::Restore(self.saved.position)
                            } else {
                                Placement::Keep
                            },
                            visible: Some(self.saved.visible),
                            mouse_passthrough: Some(true),
                        },
                    )
                }
            },
        }
    }

    /// The user closes the widget: it is hidden. A running cycle is left to
    /// notice that at its next tick.
    pub open spec fn close(self) -> (Self, WidgetOutput<P>) {
        (
            ControllerState { visible: false, ..self },
            WidgetOutput { placement: Placement::Keep, visible: Some(false), mouse_passthrough: None },
        )
    }

    /// The user toggles the widget. Any running cycle ends. A widget that
    /// becomes visible goes straight to its resting place and lets the mouse
    /// through; one that becomes hidden is only hidden.
    pub open spec fn toggle(self) -> (Self, WidgetOutput<P>) {
        let visible = !self.visible;
        (
            ControllerState { phase: AnimationPhase::Idle, visible, saved: self.saved },
            WidgetOutput {
                placement: if visible {
                    Placement::At { x: SETTLED_X, y: ENTRY_Y }
                } else {
                    Placement::Keep
                },
                visible: Some(visible),
                mouse_passthrough: if visible {
                    Some(true)
                } else {
                    None
                },
            },
        )
    }

    /// A close action is on offer: at rest, and while a cycle dwells.
    pub open spec fn offers_close(self) -> bool {
        match self.phase {
            AnimationPhase::Idle => true,
            AnimationPhase::Active { progress } => SLIDE_IN_END <= progress <= DWELL_END,
        }
    }

    /// The wake-up interval that the state asks of the host.
    pub open spec fn cadence_ms(self) -> u64 {
        match self.phase {
            AnimationPhase::Idle => IDLE_CADENCE_MS,
            AnimationPhase::Active { .. } => ACTIVE_CADENCE_MS,
        }
    }
}

/// The state machine that owns the widget's visibility and drives its
/// cycle. All it ever asks of the host is a `WidgetOutput`.
pub struct AnimationController<P> {
    state: ControllerState<P>,
}

impl<P> View for AnimationController<P> {
    type V = ControllerState<P>;

    closed spec fn view(&self) -> ControllerState<P> {
        self.state
    }
}

impl<P> AnimationController<P> {
    #[verifier::type_invariant]
    spec fn inv(self) -> bool {
        self.state.wf()
    }
}

impl<P: Copy> AnimationController<P> {
    /// The state of a controller at rest.
    pub open spec fn new_state(visible: bool, position: P) -> ControllerState<P> {
        ControllerState {
            phase: AnimationPhase::Idle,
            visible,
            saved: SavedState { visible, position },
        }
    }

    /// A controller at rest. `position` stands in for the saved position
    /// until the host reports one.
    pub fn new(visible: bool, position: P) -> (c: Self)
        ensures
            c@ == Self::new_state(visible, position),
    {
        AnimationController {
            state: ControllerState {
                phase: AnimationPhase::Idle,
                visible,
                saved: SavedState { visible, position },
            },
        }
    }

    /// The state as a plain value.
    pub fn state(&self) -> (s: ControllerState<P>)
        ensures
            s == self@,
            s.wf(),
    {
        proof {
            use_type_invariant(self);
        }
        self.state
    }

    /// The phase of the cycle.
    pub fn phase(&self) -> (phase: AnimationPhase)
        ensures
            phase == self@.phase,
    {
        self.state.phase
    }

    /// Whether a cycle is running.
    pub fn is_active(&self) -> (b: bool)
        ensures
            b == (self@.phase is Active),
    {
        match self.state.phase {
            AnimationPhase::Idle => false,
            AnimationPhase::Active { .. } => true,
        }
    }

    /// Whether the widget is meant to be visible.
    pub fn is_visible(&self) -> (b: bool)
        ensures
            b == self@.visible,
    {
        self.state.visible
    }

    /// The wake-up interval to ask of the host, in milliseconds: short
    /// during a cycle, long otherwise.
    pub fn cadence_ms(&self) -> (ms: u64)
        ensures
            ms == self@.cadence_ms(),
    {
        match self.state.phase {
            AnimationPhase::Idle => IDLE_CADENCE_MS,
            AnimationPhase::Active { .. } => ACTIVE_CADENCE_MS,
        }
    }

    /// Whether the host is to offer a close action: at rest, and while a
    /// cycle dwells.
    pub fn offers_close(&self) -> (b: bool)
        ensures
            b == self@.offers_close(),
    {
        match self.state.phase {
            AnimationPhase::Idle => true,
            AnimationPhase::Active { progress } => SLIDE_IN_END <= progress && progress <= DWELL_END,
        }
    }

    /// A trigger fires; see `ControllerState::trigger`.
    pub fn trigger(&mut self, position: Option<P>) -> (out: WidgetOutput<P>)
        ensures
            (final(self)@, out) == old(self)@.trigger(position),
    {
        match self.state.phase {
            AnimationPhase::Active { .. } => no_command(),
            AnimationPhase::Idle => {
                let saved_position = match position {
                    Some(p) => p,
                    None => self.state.saved.position,
                };
                self.state = ControllerState {
                    phase: AnimationPhase::Active { progress: 0 },
                    visible: true,
                    saved: SavedState { visible: self.state.visible, position: saved_position },
                };
                WidgetOutput {
                    placement: Placement::At { x: ENTRY_X, y: ENTRY_Y },
                    visible: Some(true),
                    mouse_passthrough: Some(false),
                }
            },
        }
    }

    /// One tick passes; see `ControllerState::advance`.
    pub fn advance(&mut self) -> (out: WidgetOutput<P>)
        ensures
            (final(self)@, out) == old(self)@.advance(),
    {
        proof {
            use_type_invariant(&*self);
        }
        match self.state.phase {
            AnimationPhase::Idle => no_command(),
            AnimationPhase::Active { progress } => {
                let next = progress + PROGRESS_STEP;
                if !self.state.visible {
                    self.state.phase = AnimationPhase::Idle;
                    no_command()
                } else if next <= CYCLE_END {
                    self.state.phase = AnimationPhase::Active { progress: next };
                    WidgetOutput {
                        placement: place(next),
                        visible: None,
                        mouse_passthrough: Some(false),
                    }
                } else {
                    let saved = self.state.saved;
                    self.state.phase = AnimationPhase::Idle;
                    self.state.visible = saved.visible;
                    WidgetOutput {
                        placement: if saved.visible {
                            Placement::Restore(saved.position)
                        } else {
                            Placement::Keep
                        },
                        visible: Some(saved.visible),
                        mouse_passthrough: Some(true),
                    }
                }
            },
        }
    }

    /// The user closes the widget; see `ControllerState::close`.
    pub fn close(&mut self) -> (out: WidgetOutput<P>)
        ensures
            (final(self)@, out) == old(self)@.close(),
    {
        proof {
            use_type_invariant(&*self);
        }
        self.state.visible = false;
        WidgetOutput { placement: Placement::Keep, visible: Some(false), mouse_passthrough: None }
    }

    /// The user toggles the widget; see `ControllerState::toggle`.
    pub fn toggle(&mut self) -> (out: WidgetOutput<P>)
        ensures
            (final(self)@, out) == old(self)@.toggle(),
    {
        let visible = !self.state.visible;
        self.state.phase = AnimationPhase::Idle;
        self.state.visible = visible;
        if visible {
            WidgetOutput {
                placement: Placement::At { x: SETTLED_X, y: ENTRY_Y },
                visible: Some(true),
                mouse_passthrough: Some(true),
            }
        } else {
            WidgetOutput { placement: Placement::Keep, visible: Some(false), mouse_passthrough: None }
        }
    }
}

/// The output that asks nothing of the host.
pub fn no_command<P>() -> (out: WidgetOutput<P>)
    ensures
        out == no_output::<P>(),
{
    WidgetOutput { placement: Placement::Keep, visible: None, mouse_passthrough: None }
}

/// Where the window belongs once a running cycle has reached `progress`.
pub fn place<P>(progress: u32) -> (placement: Placement<P>)
    ensures
        placement == placement_at::<P>(progress),
{
    if progress < SLIDE_IN_END {
        Placement::Eased { base_x: ENTRY_X, reach: SLIDE_IN_REACH, angle: progress, y: ENTRY_Y }
    } else if progress <= DWELL_END {
        Placement::At { x: SETTLED_X, y: ENTRY_Y }
    } else if progress < CYCLE_END {
        Placement::Eased {
            base_x: SETTLED_X,
            reach: SLIDE_OUT_REACH,
            angle: progress - DWELL_END,
            y: ENTRY_Y,
        }
    } else {
        Placement::Keep
    }
}

/// Number of ticks a cycle takes from the trigger to its end: progress has
/// to go past `CYCLE_END`, not merely reach it.
pub const CYCLE_TICKS: u32 = 176;

/// The state after `ticks` ticks without any event in between.
pub open spec fn advance_by<P>(s: ControllerState<P>, ticks: nat) -> ControllerState<P>
    decreases ticks,
{
    if ticks == 0 {
        s
    } else {
        advance_by(s, (ticks - 1) as nat).advance().0
    }
}

/// Every transition keeps a running cycle within its bounds.
pub proof fn lemma_transitions_keep_wf<P>(s: ControllerState<P>, position: Option<P>)
    requires
        s.wf(),
    ensures
        s.trigger(position).0.wf(),
        s.advance().0.wf(),
        s.close().0.wf(),
        s.toggle().0.wf(),
{
}

/// Progress starts at zero with a trigger out of rest and nowhere else, and
/// from there it only grows. What was saved at the trigger stays as it is
/// until the next trigger out of rest.
pub proof fn lemma_progress_and_saved_state<P>(s: ControllerState<P>, position: Option<P>)
    ensures
        s.phase is Idle ==> s.trigger(position).0.phase == (AnimationPhase::Active { progress: 0 })
            && s.trigger(position).0.saved.visible == s.visible,
        s.phase is Active ==> s.trigger(position).0 == s,
        s.phase matches AnimationPhase::Active { progress } ==> (s.advance().0.phase is Idle
            || s.advance().0.phase == (AnimationPhase::Active {
            progress: (progress + PROGRESS_STEP) as u32,
        })),
        s.advance().0.saved == s.saved,
        s.close().0.phase == s.phase,
        s.close().0.saved == s.saved,
        s.toggle().0.phase is Idle,
        s.toggle().0.saved == s.saved,
{
}

/// A cycle runs its course in a fixed number of ticks.
///
/// After a trigger out of rest, and with no event in between, the cycle
/// has progress `2 * ticks` for every tick count below `CYCLE_TICKS`. From
/// `CYCLE_TICKS` ticks on the controller is at rest again, with the
/// visibility it had before the trigger. Only the count of ticks enters, not
/// the time between them.
pub proof fn lemma_cycle_runs_its_course<P>(s: ControllerState<P>, position: Option<P>, ticks: nat)
    requires
        s.phase is Idle,
    ensures
        ticks < CYCLE_TICKS ==> advance_by(s.trigger(position).0, ticks) == (ControllerState {
            phase: AnimationPhase::Active { progress: (PROGRESS_STEP * ticks) as u32 },
            visible: true,
            saved: s.trigger(position).0.saved,
        }),
        ticks >= CYCLE_TICKS ==> advance_by(s.trigger(position).0, ticks) == (ControllerState {
            phase: AnimationPhase::Idle,
            visible: s.visible,
            saved: s.trigger(position).0.saved,
        }),
    decreases ticks,
{
    if ticks > 0 {
        lemma_cycle_runs_its_course(s, position, (ticks - 1) as nat);
    }
}

/// Hiding the widget during a cycle ends the cycle at the next tick.
///
/// Whatever progress the cycle has made, the tick after the widget became
/// hidden puts the controller at rest, leaves the widget hidden, and asks
/// nothing of the host: no slide-out, and the saved state is not applied.
pub proof fn lemma_hidden_cycle_ends_at_once<P>(s: ControllerState<P>)
    requires
        s.phase is Active,
    ensures
        !s.visible ==> s.advance() == (
            ControllerState { phase: AnimationPhase::Idle, visible: false, saved: s.saved },
            no_output::<P>(),
        ),
        s.close().0.advance() == (
            ControllerState { phase: AnimationPhase::Idle, visible: false, saved: s.saved },
            no_output::<P>(),
        ),
{
}

} // verus!
