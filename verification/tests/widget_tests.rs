use clock_widget::animation::{AnimationPhase, Placement, SavedState, WidgetOutput};
use clock_widget::config::{load_settings, Settings, DEFAULT_CONFIG};
use clock_widget::parse::{parse_trigger_set, PatternError, TriggerSetError};
use clock_widget::widget::{ClockWidget, Events, TickInput, TickReport};

type Pos = (f32, f32);

const QUIET: Events =
    Events { title_pressed: false, close_clicked: false, tray_clicked: false, quit_selected: false };

fn at(hour: u8, minute: u8, second: u8) -> TickInput<Pos> {
    TickInput { hour, minute, second, position: Some((200.0, 300.0)), events: QUIET }
}

fn nothing() -> WidgetOutput<Pos> {
    WidgetOutput { placement: Placement::Keep, visible: None, mouse_passthrough: None }
}

fn quiet_report(cadence_ms: u64) -> TickReport<Pos> {
    TickReport {
        drag: false,
        on_close: nothing(),
        fired: None,
        on_tick: nothing(),
        play_sound: false,
        on_tray: nothing(),
        quit: false,
        cadence_ms,
    }
}

fn widget(time: &str, sound: &str, visible: bool) -> ClockWidget<Pos> {
    ClockWidget::new(parse_trigger_set(time).unwrap(), sound.to_string(), visible, (0.0, 0.0))
}

#[test]
fn nothing_happens_when_no_alarm_is_due() {
    let mut w = widget(":30:,:00:", "alert.ogg", true);
    assert_eq!(w.update(at(10, 30, 15)), quiet_report(100));
    assert_eq!(w.update(at(10, 29, 0)), quiet_report(100));
    assert_eq!(w.controller().phase(), AnimationPhase::Idle);
    assert!(w.controller().is_visible());
}

#[test]
fn alarm_begins_a_cycle_and_plays_the_sound() {
    let mut w = widget(":30:,:00:", "alert.ogg", false);
    let report = w.update(at(10, 0, 0));
    assert_eq!(
        report,
        TickReport {
            fired: Some(1),
            on_tick: WidgetOutput {
                placement: Placement::At { x: -310, y: 50 },
                visible: Some(true),
                mouse_passthrough: Some(false),
            },
            play_sound: true,
            cadence_ms: 16,
            ..quiet_report(16)
        }
    );
    assert_eq!(w.controller().phase(), AnimationPhase::Active { progress: 0 });
    assert_eq!(w.controller().state().saved, SavedState { visible: false, position: (200.0, 300.0) });
    assert_eq!(w.sound_path(), "alert.ogg");
    assert_eq!(w.triggers().len(), 2);
}

#[test]
fn alarm_without_a_sound_path_stays_silent() {
    let mut w = widget(":30:", "", true);
    let report = w.update(at(7, 30, 0));
    assert_eq!(report.fired, Some(0));
    assert!(!report.play_sound);
    assert_eq!(w.controller().phase(), AnimationPhase::Active { progress: 0 });
}

#[test]
fn patterns_are_not_looked_at_during_a_cycle() {
    let mut w = widget("::", "alert.ogg", true);
    assert_eq!(w.update(at(1, 1, 0)).fired, Some(0));
    let mut ticks = 0;
    while w.controller().is_active() {
        let report = w.update(at(1, 2, 0));
        assert_eq!(report.fired, None);
        assert!(!report.play_sound);
        ticks += 1;
        assert!(ticks <= 1000);
    }
    assert_eq!(ticks, 176);
    let report = w.update(at(1, 2, 0));
    assert_eq!(report.fired, Some(0));
    assert!(report.play_sound);
}

#[test]
fn cycle_ends_with_the_saved_position() {
    let mut w = widget(":30:", "", true);
    w.update(at(7, 30, 0));
    let mut last = quiet_report(0);
    for _ in 0..176 {
        last = w.update(TickInput { position: Some((1.0, 1.0)), ..at(7, 30, 1) });
    }
    assert_eq!(
        last,
        TickReport {
            on_tick: WidgetOutput {
                placement: Placement::Restore((200.0, 300.0)),
                visible: Some(true),
                mouse_passthrough: Some(true),
            },
            ..quiet_report(100)
        }
    );
}

#[test]
fn close_during_the_dwell_ends_the_cycle() {
    let mut w = widget(":30:", "", true);
    w.update(at(7, 30, 0));
    for _ in 0..60 {
        w.update(at(7, 30, 1));
    }
    assert_eq!(w.controller().phase(), AnimationPhase::Active { progress: 120 });
    assert!(w.controller().offers_close());
    let report = w.update(TickInput { events: Events { close_clicked: true, ..QUIET }, ..at(7, 30, 2) });
    assert_eq!(
        report,
        TickReport {
            on_close: WidgetOutput { placement: Placement::Keep, visible: Some(false), mouse_passthrough: None },
            ..quiet_report(100)
        }
    );
    assert_eq!(w.controller().phase(), AnimationPhase::Idle);
    assert!(!w.controller().is_visible());
}

#[test]
fn close_is_on_offer_at_rest_and_in_the_dwell() {
    let mut w = widget(":30:", "", true);
    assert!(w.controller().offers_close());
    w.update(at(7, 30, 0));
    for tick in 1..=175u32 {
        w.update(at(7, 30, 1));
        let progress = 2 * tick;
        assert_eq!(w.controller().offers_close(), (100..=250).contains(&progress));
    }
    w.update(at(7, 30, 1));
    assert!(w.controller().offers_close());
}

#[test]
fn tray_click_has_the_last_word() {
    let mut w = widget(":30:", "alert.ogg", true);
    let report = w.update(TickInput { events: Events { tray_clicked: true, ..QUIET }, ..at(7, 30, 0) });
    assert_eq!(report.fired, Some(0));
    assert!(report.play_sound);
    assert_eq!(report.on_tick.visible, Some(true));
    assert_eq!(
        report.on_tray,
        WidgetOutput { placement: Placement::Keep, visible: Some(false), mouse_passthrough: None }
    );
    assert_eq!(report.cadence_ms, 100);
    assert_eq!(w.controller().phase(), AnimationPhase::Idle);
    assert!(!w.controller().is_visible());

    let report = w.update(TickInput { events: Events { tray_clicked: true, ..QUIET }, ..at(7, 31, 5) });
    assert_eq!(
        report,
        TickReport {
            on_tray: WidgetOutput {
                placement: Placement::At { x: 0, y: 50 },
                visible: Some(true),
                mouse_passthrough: Some(true),
            },
            ..quiet_report(100)
        }
    );
    assert!(w.controller().is_visible());
}

#[test]
fn drag_and_quit_are_passed_on() {
    let mut w = widget("", "", true);
    let report = w.update(TickInput {
        events: Events { title_pressed: true, quit_selected: true, ..QUIET },
        ..at(0, 0, 0)
    });
    assert_eq!(report, TickReport { drag: true, quit: true, ..quiet_report(100) });
}

#[test]
fn close_then_alarm_in_one_tick_saves_the_hidden_widget() {
    let mut w = widget(":30:", "", true);
    let report = w.update(TickInput { events: Events { close_clicked: true, ..QUIET }, ..at(7, 30, 0) });
    assert_eq!(report.on_close.visible, Some(false));
    assert_eq!(report.fired, Some(0));
    assert_eq!(report.on_tick.visible, Some(true));
    assert_eq!(w.controller().state().saved.visible, false);
    assert!(w.controller().is_visible());
}

#[test]
fn widget_from_the_default_config() {
    let settings = load_settings(DEFAULT_CONFIG).unwrap();
    let (mut w, faults): (ClockWidget<Pos>, Vec<TriggerSetError>) =
        ClockWidget::from_settings(&settings, true, (0.0, 0.0));
    assert!(faults.is_empty());
    assert_eq!(w.triggers().len(), 2);
    assert_eq!(w.sound_path(), "");
    assert_eq!(w.update(at(10, 30, 0)).fired, Some(0));
}

#[test]
fn widget_from_settings_reports_the_pieces_it_left_out() {
    let settings = Settings { time: "9:15:0,10:,:00:".to_string(), sound: "a.ogg".to_string() };
    let (mut w, faults): (ClockWidget<Pos>, Vec<TriggerSetError>) =
        ClockWidget::from_settings(&settings, false, (0.0, 0.0));
    assert_eq!(faults, vec![TriggerSetError { pattern: 1, kind: PatternError::FieldCount }]);
    assert_eq!(w.triggers().len(), 2);
    assert_eq!(w.sound_path(), "a.ogg");
    assert!(!w.controller().is_visible());
    assert_eq!(w.update(at(10, 5, 0)).fired, None);
    assert_eq!(w.update(at(10, 0, 0)).fired, Some(1));
}
