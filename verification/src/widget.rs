//! The widget as its host sees it: one `update` per tick, which takes the
//! time of day and the user's events and answers with what to do.

use vstd::prelude::*;
use vstd::utf8::encode_utf8;
use crate::animation::{
    no_command, no_output, AnimationController, ControllerState, WidgetOutput,
};
use crate::config::Settings;
use crate::parse::{accepted, pieces_of, rejected, scan_trigger_set, TriggerSetError};
use crate::trigger::{evaluate, is_first_match, TriggerPattern, TriggerSet};

verus! {

/// What the user did since the last tick.
#[derive(Clone, Copy, Debug, PartialEq, Eq)]
pub struct Events {
    /// The pointer went down on the widget's title region.
    pub title_pressed: bool,
    /// The widget's close button was clicked.
    pub close_clicked: bool,
    /// The tray icon was clicked with the left button.
    pub tray_clicked: bool,
    /// The tray menu's quit entry was chosen.
    pub quit_selected: bool,
}

/// What the host knows at a tick.
#[derive(Clone, Copy, Debug, PartialEq)]
pub struct TickInput<P> {
    pub hour: u8,
    pub minute: u8,
    pub second: u8,
    /// Where the window is, if the host can tell.
    pub position: Option<P>,
    pub events: Events,
}

/// What the host has to do after a tick, in the order of the fields.
#[derive(Clone, Copy, Debug, PartialEq)]
pub struct TickReport<P> {
    /// Let the user drag the window.
    pub drag: bool,
    /// What the close button asks of the window.
    pub on_close: WidgetOutput<P>,
    /// The pattern that fired at this tick, if one did.
    pub fired: Option<usize>,
    /// What the alarm and the running cycle ask of the window.
    pub on_tick: WidgetOutput<P>,
    /// Play the alert sound, without waiting for it.
    pub play_sound: bool,
    /// What the tray click asks of the window.
    pub on_tray: WidgetOutput<P>,
    /// End the program.
    pub quit: bool,
    /// Wake up again after this many milliseconds.
    pub cadence_ms: u64,
}

/// One tick of the widget, given the pattern that fired.
///
/// The close button comes first. Then a running cycle advances; without one,
/// a pattern that fired begins a cycle, and the sound plays if there is one.
/// The tray click comes last, so it has the final say on visibility.
pub open spec fn tick<P>(
    s: ControllerState<P>,
    fired: Option<usize>,
    has_sound: bool,
    input: TickInput<P>,
) -> (ControllerState<P>, TickReport<P>) {
    let (closed, on_close) = if input.events.close_clicked {
        s.close()
    } else {
        (s, no_output())
    };
    let (ticked, on_tick) = if closed.phase is Active {
        closed.advance()
    } else if fired is Some {
        closed.trigger(input.position)
    } else {
        (closed, no_output())
    };
    let (toggled, on_tray) = if input.events.tray_clicked {
        ticked.toggle()
    } else {
        (ticked, no_output())
    };
    (
        toggled,
        TickReport {
            drag: input.events.title_pressed,
            on_close,
            fired,
            on_tick,
            play_sound: closed.phase is Idle && fired is Some && has_sound,
            on_tray,
            quit: input.events.quit_selected,
            cadence_ms: toggled.cadence_ms(),
        },
    )
}

/// The sound has no say in what the widget does: with a sound or without,
/// a tick leaves the controller in the same state and asks the same of the
/// window. Only the request to play differs.
pub proof fn lemma_sound_leaves_the_widget_alone<P>(
    s: ControllerState<P>,
    fired: Option<usize>,
    input: TickInput<P>,
)
    ensures
        tick(s, fired, true, input).0 == tick(s, fired, false, input).0,
        tick(s, fired, true, input).1 == (TickReport {
            play_sound: s.phase is Idle && fired is Some,
            ..tick(s, fired, false, input).1
        }),
        !tick(s, fired, false, input).1.play_sound,
{
}

/// The pattern reported at a tick is the right one: none during a cycle,
/// when the patterns are not looked at, and else the first that fires.
pub open spec fn is_fired<P>(
    s: ControllerState<P>,
    triggers: Seq<TriggerPattern>,
    input: TickInput<P>,
    fired: Option<usize>,
) -> bool {
    if s.phase is Active {
        fired is None
    } else {
        is_first_match(triggers, input.hour, input.minute, input.second, fired)
    }
}

/// The widget's state as a plain value.
pub struct WidgetState<P> {
    pub triggers: Seq<TriggerPattern>,
    pub sound_path: Seq<char>,
    pub controller: ControllerState<P>,
}

/// The clock widget: its alarm patterns, its sound, and its controller.
pub struct ClockWidget<P> {
    triggers: TriggerSet,
    sound_path: String,
    controller: AnimationController<P>,
}

impl<P> View for ClockWidget<P> {
    type V = WidgetState<P>;

    closed spec fn view(&self) -> WidgetState<P> {
        WidgetState {
            triggers: self.triggers@,
            sound_path: self.sound_path@,
            controller: self.controller@,
        }
    }
}

impl<P: Copy> ClockWidget<P> {
    /// A widget at rest. An empty `sound_path` means no sound.
    pub fn new(triggers: TriggerSet, sound_path: String, visible: bool, position: P) -> (w: Self)
        ensures
            w@.triggers == triggers@,
            w@.sound_path == sound_path@,
            w@.controller == AnimationController::new_state(visible, position),
    {
        ClockWidget { triggers, sound_path, controller: AnimationController::new(visible, position) }
    }

    /// A widget at rest with the alarms and the sound of `settings`, and the
    /// pieces of the alarm text that were refused. The widget runs with the
    /// patterns that could be read.
    pub fn from_settings(settings: &Settings, visible: bool, position: P) -> (r: (
        Self,
        Vec<TriggerSetError>,
    ))
        ensures
            r.0@.triggers == accepted(pieces_of(encode_utf8(settings.time@))),
            r.0@.sound_path == settings.sound@,
            r.0@.controller == AnimationController::new_state(visible, position),
            r.1@ == rejected(pieces_of(encode_utf8(settings.time@))),
    {
        let scan = scan_trigger_set(settings.time.as_str());
        (ClockWidget::new(scan.set, settings.sound.clone(), visible, position), scan.faults)
    }

    /// The alarm patterns.
    pub fn triggers(&self) -> (t: &TriggerSet)
        ensures
            t@ == self@.triggers,
    {
        &self.triggers
    }

    /// The path of the alert sound; empty where there is none.
    pub fn sound_path(&self) -> (p: &str)
        ensures
            p@ == self@.sound_path,
    {
        self.sound_path.as_str()
    }

    /// The controller, to look at.
    pub fn controller(&self) -> (c: &AnimationController<P>)
        ensures
            c@ == self@.controller,
    {
        &self.controller
    }

    /// One tick: takes the time of day and the user's events, moves the
    /// widget on, and says what the host has to do.
    pub fn update(&mut self, input: TickInput<P>) -> (report: TickReport<P>)
        ensures
            final(self)@.triggers == old(self)@.triggers,
            final(self)@.sound_path == old(self)@.sound_path,
            is_fired(old(self)@.controller, old(self)@.triggers, input, report.fired),
            (final(self)@.controller, report) == tick(
                old(self)@.controller,
                report.fired,
                old(self)@.sound_path.len() > 0,
                input,
            ),
    {
        let on_close = if input.events.close_clicked {
            self.controller.close()
        } else {
            no_command()
        };
        let mut fired: Option<usize> = None;
        let mut play_sound = false;
        let on_tick = if self.controller.is_active() {
            self.controller.advance()
        } else {
            fired = evaluate(input.hour, input.minute, input.second, &self.triggers);
            if fired.is_some() {
                play_sound = !self.sound_path.as_str().is_empty();
                self.controller.trigger(input.position)
            } else {
                no_command()
            }
        };
        let on_tray = if input.events.tray_clicked {
            self.controller.toggle()
        } else {
            no_command()
        };
        TickReport {
            drag: input.events.title_pressed,
            on_close,
            fired,
            on_tick,
            play_sound,
            on_tray,
            quit: input.events.quit_selected,
            cadence_ms: self.controller.cadence_ms(),
        }
    }
}

} // verus!
