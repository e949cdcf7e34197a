use time_tracker::app::{key_wait_millis, App, ConfigSave, Effects, Key, KeyContext, Request};
use time_tracker::clock::{format_duration, ClockTime};
use time_tracker::config::{Hours, TrackerConfig};
use time_tracker::date::Date;
use time_tracker::model::{Color, DayRecord, Event, EventKind, Session, TaskEvent};
use time_tracker::smartcard::{CardEvent, ReaderProbe};
use time_tracker::view::{
    render_actions_column, render_feedback_line, render_status_panel, render_task_editor_panel,
    render_task_indicators, render_toggles_column, Line, Style,
};

fn at(h: u64, m: u64) -> ClockTime {
    ClockTime { nanos: (h * 3600 + m * 60) * 1_000_000_000 }
}

fn today() -> Date {
    Date { year: 2024, month: 1, day: 15 }
}

fn hours(value: f64) -> Hours {
    Hours { bits: value.to_bits(), text: format!("{:.2}", value), in_day: value > 0.0 && value <= 24.0 }
}

fn ctx(h: u64, m: u64) -> KeyContext {
    KeyContext { now: at(h, m), today: today(), entered_hours: None }
}

fn text(l: &Line) -> String {
    l.spans
        .iter()
        .map(|s| match s.time {
            Some(d) => format!("{}{}", s.text, format_duration(d)),
            None => s.text.clone(),
        })
        .collect()
}

fn texts(ls: &[Line]) -> Vec<String> {
    ls.iter().map(text).collect()
}

fn config_with(slots: &[(u8, &str)]) -> TrackerConfig {
    let mut c = TrackerConfig::default();
    for (slot, name) in slots {
        c.set_task_name(*slot, name, None);
    }
    c
}

fn new_app(config: TrackerConfig) -> App {
    App::new(config, ReaderProbe::Available, &DayRecord::new(today())).0
}

fn press(app: &mut App, key: Key, record: &mut DayRecord, h: u64, m: u64) -> Effects {
    app.handle_key(key, record, &ctx(h, m))
}

fn type_text(app: &mut App, s: &str, record: &mut DayRecord) {
    for c in s.chars() {
        press(app, Key::Char(c), record, 9, 0);
    }
}

fn no_effects() -> Effects {
    Effects {
        save_record: false,
        save_config: ConfigSave::No,
        stop_watcher: false,
        spawn_watcher: false,
        request: None,
        out_of_calendar: false,
    }
}

#[test]
fn start_resumes_card_tracking_only_with_a_reader() {
    let mut c = TrackerConfig::default();
    c.set_smartcard_active(true);
    let (app, spawn, save) = App::new(c, ReaderProbe::NoReaders, &DayRecord::new(today()));
    assert!(!spawn && save);
    assert!(!app.config.smartcard_active());
    assert_eq!(app.feedback, "Press a key to execute a command.");
    let mut c2 = TrackerConfig::default();
    c2.set_smartcard_active(true);
    let (app2, spawn2, save2) = App::new(c2, ReaderProbe::Available, &DayRecord::new(today()));
    assert!(spawn2 && !save2 && app2.watching && app2.config.smartcard_active());
}

#[test]
fn the_running_task_is_found_again_by_its_slot() {
    let config = config_with(&[(1, "Mail"), (2, "Code")]);
    let record = DayRecord {
        date: today(),
        sessions: vec![Session {
            index: 0,
            events: vec![Event { kind: EventKind::Go, time: at(9, 0) }],
            task_events: vec![TaskEvent { task: "Code".to_string(), start: at(9, 0), end: None }],
        }],
    };
    assert_eq!(App::recover_active_task(&config, &record), Some(2));
    let (app, _, _) = App::new(config, ReaderProbe::Unavailable, &record);
    assert_eq!(app.active_task, Some(2));
    assert_eq!(App::recover_active_task(&TrackerConfig::default(), &record), None);
}

#[test]
fn go_pause_and_stop_keys() {
    let mut app = new_app(config_with(&[(2, "Code")]));
    let mut r = DayRecord::new(today());
    let e = press(&mut app, Key::Char('g'), &mut r, 9, 0);
    assert!(e.save_record);
    assert_eq!(app.feedback, "Session 0: Started tracking at 09:00");
    let e = press(&mut app, Key::Char('g'), &mut r, 9, 5);
    assert!(!e.save_record);
    assert_eq!(app.feedback, "Already tracking.");
    press(&mut app, Key::Char('2'), &mut r, 9, 10);
    assert_eq!(app.active_task, Some(2));
    assert_eq!(app.feedback, ">> Task \"Code\" started at 09:10");
    let e = press(&mut app, Key::Char('p'), &mut r, 10, 10);
    assert!(e.save_record);
    assert_eq!(app.feedback, "[] Task \"Code\" suspended (1h 00m) | Session 0: Paused at 10:10. Worked so far: 1h 10m");
    assert_eq!(app.active_task, Some(2));
    press(&mut app, Key::Char('g'), &mut r, 10, 30);
    assert_eq!(app.feedback, "Session 0: Resumed at 10:30 | >> Task \"Code\" started at 10:30");
    press(&mut app, Key::Char('s'), &mut r, 11, 0);
    assert_eq!(app.feedback, "[] Task \"Code\" suspended (0h 30m) | Session 0: Stopped at 11:00. Total today: 1h 40m");
    assert_eq!(app.active_task, None);
    assert!(r.sessions[0].is_stopped());
}

#[test]
fn a_slot_key_starts_tracking_when_needed() {
    let mut app = new_app(config_with(&[(2, "Code")]));
    let mut r = DayRecord::new(today());
    let e = press(&mut app, Key::Char('2'), &mut r, 9, 0);
    assert!(e.save_record);
    assert!(r.is_tracking());
    assert_eq!(app.feedback, ">> Task \"Code\" started at 09:00");
    let e = press(&mut app, Key::Char('2'), &mut r, 9, 45);
    assert!(e.save_record);
    assert_eq!(app.feedback, "[] Task \"Code\" suspended (0h 45m)");
    assert_eq!(app.active_task, None);
    let e = press(&mut app, Key::Char('5'), &mut r, 9, 50);
    assert_eq!(e, no_effects());
    assert_eq!(app.feedback, "Slot 5 has no task assigned. Press F1 to edit.");
}

#[test]
fn quit_and_unknown_keys() {
    let mut app = new_app(TrackerConfig::default());
    let mut r = DayRecord::new(today());
    assert_eq!(press(&mut app, Key::Char('x'), &mut r, 9, 0), no_effects());
    assert!(!app.should_quit);
    press(&mut app, Key::Esc, &mut r, 9, 0);
    assert!(app.should_quit);
    let mut app2 = new_app(TrackerConfig::default());
    press(&mut app2, Key::Char('q'), &mut r, 9, 0);
    assert!(app2.should_quit);
    assert!(r.sessions.is_empty());
}

#[test]
fn editing_a_slot_in_the_task_editor() {
    let mut app = new_app(TrackerConfig::default());
    let mut r = DayRecord::new(today());
    let e = press(&mut app, Key::F(1), &mut r, 9, 0);
    assert_eq!(e.save_config, ConfigSave::Quiet);
    assert_eq!(app.feedback, "Task Editor opened. Press 0 - 9 to edit a slot, H for max hours.");
    press(&mut app, Key::Char('3'), &mut r, 9, 0);
    assert_eq!(app.editing_slot, Some(3));
    assert_eq!(app.feedback, "Editing slot 3 - format: TaskName or TaskName:2.5 - Enter to save, Esc to cancel");
    type_text(&mut app, "Mail:1.5x", &mut r);
    press(&mut app, Key::Backspace, &mut r, 9, 0);
    assert_eq!(app.editing_buffer, "Mail:1.5");
    assert_eq!(app.hours_text_to_read(), Some("1.5".to_string()));
    let enter = KeyContext { now: at(9, 0), today: today(), entered_hours: Some(hours(1.5)) };
    let e = app.handle_key(Key::Enter, &mut r, &enter);
    assert_eq!(e.save_config, ConfigSave::Quiet);
    assert_eq!(app.feedback, "Slot 3 -> \"Mail:1.5\" saved.");
    assert_eq!(app.config.task_name(3), Some("Mail".to_string()));
    assert_eq!(app.config.task_info(3).unwrap().max_hours.unwrap().text, "1.50");
    assert_eq!(app.editing_slot, None);
    press(&mut app, Key::Char('3'), &mut r, 9, 0);
    assert_eq!(app.editing_buffer, "Mail:1.50");
    press(&mut app, Key::Esc, &mut r, 9, 0);
    assert_eq!(app.feedback, "Editing slot 3 cancelled.");
    assert_eq!(app.editing_buffer, "");
    let e = press(&mut app, Key::Esc, &mut r, 9, 0);
    assert_eq!(e.save_config, ConfigSave::Quiet);
    assert!(!app.task_editor_open);
    assert_eq!(app.feedback, "Task Editor closed.");
}

#[test]
fn clearing_the_active_slot_forgets_it() {
    let mut app = new_app(config_with(&[(4, "Ops")]));
    let mut r = DayRecord::new(today());
    press(&mut app, Key::Char('4'), &mut r, 9, 0);
    assert_eq!(app.active_task, Some(4));
    press(&mut app, Key::F(1), &mut r, 9, 0);
    press(&mut app, Key::Char('4'), &mut r, 9, 0);
    for _ in 0..3 {
        press(&mut app, Key::Backspace, &mut r, 9, 0);
    }
    press(&mut app, Key::Enter, &mut r, 9, 0);
    assert_eq!(app.feedback, "Slot 4 cleared.");
    assert_eq!(app.active_task, None);
    assert_eq!(app.config.task_name(4), None);
}

#[test]
fn editing_the_daily_limit() {
    let mut app = new_app(TrackerConfig::default());
    let mut r = DayRecord::new(today());
    press(&mut app, Key::F(1), &mut r, 9, 0);
    press(&mut app, Key::Char('H'), &mut r, 9, 0);
    assert!(app.editing_max_hours);
    assert_eq!(app.feedback, "Editing max hours/day - type hours (e.g. 8.5), Enter to save, Esc to cancel");
    type_text(&mut app, "8a.5b", &mut r);
    assert_eq!(app.editing_buffer, "8.5");
    assert_eq!(app.hours_text_to_read(), Some("8.5".to_string()));
    let enter = KeyContext { now: at(9, 0), today: today(), entered_hours: Some(hours(8.5)) };
    let e = app.handle_key(Key::Enter, &mut r, &enter);
    assert_eq!(e.save_config, ConfigSave::Reported);
    assert_eq!(app.feedback, "Max hours/day set to 8.50h");
    assert_eq!(app.config.max_hours_per_day().unwrap().text, "8.50");
    press(&mut app, Key::Char('h'), &mut r, 9, 0);
    assert_eq!(app.editing_buffer, "8.50");
    type_text(&mut app, "0", &mut r);
    let too_many = KeyContext { now: at(9, 0), today: today(), entered_hours: Some(hours(8.5e1)) };
    app.handle_key(Key::Enter, &mut r, &too_many);
    assert_eq!(app.feedback, "Invalid hours. Enter a number between 0 and 24.");
    assert_eq!(app.config.max_hours_per_day().unwrap().text, "8.50");
    press(&mut app, Key::Char('h'), &mut r, 9, 0);
    for _ in 0..4 {
        press(&mut app, Key::Backspace, &mut r, 9, 0);
    }
    press(&mut app, Key::Enter, &mut r, 9, 0);
    assert_eq!(app.feedback, "Max hours/day cleared.");
    assert!(app.config.max_hours_per_day().is_none());
    press(&mut app, Key::Char('h'), &mut r, 9, 0);
    press(&mut app, Key::Esc, &mut r, 9, 0);
    assert_eq!(app.feedback, "Editing max hours cancelled.");
    assert!(!app.editing_max_hours);
}

#[test]
fn time_format_and_history_keys() {
    let mut app = new_app(TrackerConfig::default());
    let mut r = DayRecord::new(today());
    let e = press(&mut app, Key::F(12), &mut r, 9, 0);
    assert_eq!(e.save_config, ConfigSave::Reported);
    assert!(app.decimal_time_format && app.config.decimal_time_format());
    assert_eq!(app.feedback, "Time format: Decimal hours");
    press(&mut app, Key::F(12), &mut r, 9, 0);
    assert_eq!(app.feedback, "Time format: Hours and minutes");
    assert_eq!(press(&mut app, Key::Left, &mut r, 9, 0), no_effects());
    assert_eq!(app.viewed_day_offset, 0);
    press(&mut app, Key::F(3), &mut r, 9, 0);
    assert_eq!(app.feedback, "History mode: ON - Use ← → to navigate days");
    press(&mut app, Key::Left, &mut r, 9, 0);
    assert_eq!(app.viewed_day_offset, -1);
    assert_eq!(app.feedback, "Viewing: Sunday, 2024-01-14");
    assert_eq!(app.get_viewed_date(today()), Some(Date { year: 2024, month: 1, day: 14 }));
    press(&mut app, Key::Right, &mut r, 9, 0);
    press(&mut app, Key::Right, &mut r, 9, 0);
    assert_eq!(app.viewed_day_offset, 0);
    assert_eq!(app.feedback, "Viewing: Monday, 2024-01-15");
    press(&mut app, Key::Left, &mut r, 9, 0);
    press(&mut app, Key::F(3), &mut r, 9, 0);
    assert_eq!(app.viewed_day_offset, 0);
    assert_eq!(app.feedback, "History mode: OFF - Viewing today");
}

#[test]
fn smartcard_key_turns_tracking_on_and_off() {
    let (mut app, _, _) = App::new(TrackerConfig::default(), ReaderProbe::Unavailable, &DayRecord::new(today()));
    let mut r = DayRecord::new(today());
    assert_eq!(press(&mut app, Key::F(2), &mut r, 9, 0), no_effects());
    assert_eq!(app.feedback, "Cannot activate: PC/SC library not found on this system.");

    let (mut app, _, _) = App::new(TrackerConfig::default(), ReaderProbe::NoReaders, &DayRecord::new(today()));
    let e = press(&mut app, Key::F(2), &mut r, 9, 0);
    assert_eq!(e.request, Some(Request::ProbeReaders));
    assert_eq!(app.finish_smartcard_toggle(ReaderProbe::NoReaders), no_effects());
    assert_eq!(app.feedback, "Cannot activate: no smartcard reader detected.");
    let e = app.finish_smartcard_toggle(ReaderProbe::Available);
    assert!(e.spawn_watcher);
    assert_eq!(e.save_config, ConfigSave::Quiet);
    assert_eq!(app.feedback, "Smartcard auto-tracking ON.");
    assert!(app.config.smartcard_active() && app.watching);
    let e = press(&mut app, Key::F(2), &mut r, 9, 0);
    assert!(e.stop_watcher);
    assert_eq!(app.feedback, "Smartcard auto-tracking OFF.");
    assert!(!app.config.smartcard_active() && !app.watching);
}

#[test]
fn edit_key_asks_for_an_editor() {
    let mut app = new_app(TrackerConfig::default());
    let mut r = DayRecord::new(today());
    let e = press(&mut app, Key::Char('e'), &mut r, 9, 0);
    assert_eq!(e.request, Some(Request::EditDay));
    assert!(!app.finish_edit_day(None));
    assert_eq!(app.feedback, "No text editor found. Set EDITOR environment variable.");
    assert!(app.finish_edit_day(Some((today(), false))));
    assert_eq!(app.feedback, "Opening 2024-01-15 in editor...");
    assert!(!app.finish_edit_day(Some((today(), true))));
}

#[test]
fn card_events_act_as_go_and_pause() {
    let mut app = new_app(TrackerConfig::default());
    let mut r = DayRecord::new(today());
    assert!(app.process_card_event(CardEvent::Inserted, &mut r, at(8, 0)));
    assert_eq!(app.feedback, "\u{1F511} Card inserted - Session 0: Started tracking at 08:00");
    assert!(app.process_card_event(CardEvent::Removed, &mut r, at(9, 0)));
    assert_eq!(app.feedback, "\u{1F511} Card removed - Session 0: Paused at 09:00. Worked so far: 1h 00m");
    assert!(!app.process_card_event(CardEvent::Removed, &mut r, at(9, 5)));
    assert_eq!(app.feedback, "\u{1F511} Card removed - Already paused.");
}

#[test]
fn failed_saves_show_in_the_feedback() {
    let mut app = new_app(TrackerConfig::default());
    app.config_save_failed("Config write: denied");
    assert_eq!(app.feedback, "Error: Config write: denied");
}

#[test]
fn waiting_for_keys() {
    assert_eq!(key_wait_millis(true, 0), 250);
    assert_eq!(key_wait_millis(false, 0), 60000);
    assert_eq!(key_wait_millis(false, 59900), 100);
    assert_eq!(key_wait_millis(true, 59900), 100);
    assert_eq!(key_wait_millis(false, 70000), 0);
}

#[test]
fn the_actions_column() {
    let lines = render_actions_column();
    assert_eq!(texts(&lines), vec!["", "  [g] Go", "  [p] Pause", "  [s] Stop", "  [e] Edit"]);
    assert_eq!(lines[2].spans[1].style, Style { fg: Some(Color::Yellow), bold: true, italic: false });
    assert_eq!(lines[1].spans[0].style, Style { fg: Some(Color::Cyan), bold: true, italic: false });
}

#[test]
fn the_feedback_line() {
    let l = render_feedback_line("Hello");
    assert_eq!(text(&l), " Hello");
    assert_eq!(l.spans[0].style, Style { fg: Some(Color::White), bold: false, italic: true });
}

#[test]
fn the_toggles_column() {
    let lines = render_toggles_column(true, ReaderProbe::Available, false, true, false);
    assert_eq!(
        texts(&lines),
        vec!["", "[F1] Tasks OFF", "[F2] Card  ON ", "[F3]  \u{1F56E}    OFF", "[F12] Unit  DEC"]
    );
    assert_eq!(lines[2].spans[2].style.fg, Some(Color::Green));
    let na = render_toggles_column(false, ReaderProbe::Unavailable, true, false, true);
    assert_eq!(texts(&na), vec!["", "[F1] Tasks ON ", "[F2] Card  N/A", "[F3]  \u{1F56E}    ON ", "[F12] Unit  HMS"]);
    assert_eq!(na[2].spans[0].style.fg, Some(Color::DarkGray));
}

#[test]
fn the_task_indicators() {
    let config = config_with(&[(0, "Code"), (2, "Mail"), (5, "A very long task name indeed"), (9, "Z")]);
    let lines = render_task_indicators(&config, Some(2));
    assert_eq!(lines.len(), 3);
    assert_eq!(text(&lines[0]), "");
    assert_eq!(lines[1].spans.len(), 6);
    assert_eq!(lines[1].spans[0].text, "[0]");
    assert_eq!(lines[1].spans[1].text, format!(" {:<18}", "Code"));
    assert_eq!(lines[1].spans[2].text, "[2]");
    assert_eq!(lines[1].spans[3].text, format!("\u{25B6}{:<18}", "Mail"));
    assert_eq!(lines[1].spans[3].style, Style { fg: Some(Color::Green), bold: true, italic: false });
    assert_eq!(lines[1].spans[5].text, " A very long task n");
    for cell in lines[1].spans.chunks(2) {
        let width: usize = cell.iter().map(|s| s.text.chars().count()).sum();
        assert_eq!(width, 22);
    }
    assert_eq!(text(&lines[2]), format!("[9] {:<18}", "Z"));
}

#[test]
fn the_task_editor_panel() {
    let mut config = config_with(&[(1, "Code")]);
    config.set_task_name(2, "Mail:2", Some(hours(2.0)));
    let lines = render_task_editor_panel(&config, None, "", false);
    assert_eq!(lines.len(), 17);
    assert_eq!(
        text(&lines[0]),
        "\u{2500}\u{2500} Task Editor  (press 0-9 to edit task, H for max hours, Enter to save, Esc to cancel) \u{2500}\u{2500}"
    );
    assert_eq!(text(&lines[2]), "  [0] \u{2014}");
    assert_eq!(lines[2].spans[1].style.fg, Some(Color::DarkGray));
    assert_eq!(text(&lines[3]), "  [1] Code");
    assert_eq!(text(&lines[4]), "  [2] Mail (2.00h)");
    assert_eq!(text(&lines[13]), "  ─────────────────────");
    assert_eq!(text(&lines[14]), "  [H] Max hours/day: not set");
    assert_eq!(text(&lines[16]), "  Press F1 or Esc to close editor");
    let editing = render_task_editor_panel(&config, Some(1), "Cod", false);
    assert_eq!(text(&editing[3]), "  [1] Cod\u{2588}");
    let limit = render_task_editor_panel(&config, None, "7.", true);
    assert_eq!(text(&limit[14]), "  [H] Max hours/day: 7.\u{2588}");
}

#[test]
fn the_status_panel_of_today() {
    let record = DayRecord {
        date: today(),
        sessions: vec![Session {
            index: 0,
            events: vec![Event { kind: EventKind::Go, time: at(9, 0) }],
            task_events: vec![TaskEvent { task: "Code".to_string(), start: at(9, 30), end: None }],
        }],
    };
    let now = ClockTime { nanos: at(10, 0).nanos + 7_000_000_000 };
    let lines = render_status_panel(&record, today(), now);
    assert_eq!(
        texts(&lines),
        vec![
            " \u{2500}\u{2500} Monday, 2024-01-15 \u{2500}\u{2500}  | tracking",
            "  Total: 1h 00m  |  Paused: 0h 00m  |  Worked: 1h 00m",
            "",
            "   \u{25B6} Code: 0h 30m",
            "  Unassigned: 0h 30m",
            "",
            "  Last refresh: 10:00:07",
            "",
            "  Session 0 (tracking)",
            "    09:00 Go",
            "    Total: 1h 00m  |  Paused: 0h 00m  |  Worked: 1h 00m",
            "",
        ]
    );
    // durations keep their seconds, for the drawer to write in either unit
    assert_eq!(lines[3].spans[0].text, "   \u{25B6} Code: ");
    assert_eq!(lines[3].spans[0].time, Some(time_tracker::clock::Duration { nanos: (30 * 60 + 7) * 1_000_000_000 }));
    assert_eq!(lines[1].spans[1].text, "");
    assert_eq!(lines[1].spans[1].time, Some(time_tracker::clock::Duration { nanos: 3_607_000_000_000 }));
}

#[test]
fn history_crosses_month_ends() {
    let day = Date { year: 2024, month: 3, day: 1 };
    let (mut app, _, _) = App::new(TrackerConfig::default(), ReaderProbe::Unavailable, &DayRecord::new(day));
    let mut r = DayRecord::new(day);
    let ctx = KeyContext { now: at(9, 0), today: day, entered_hours: None };
    app.handle_key(Key::F(3), &mut r, &ctx);
    app.handle_key(Key::Left, &mut r, &ctx);
    assert_eq!(app.feedback, "Viewing: Thursday, 2024-02-29");
    app.handle_key(Key::Left, &mut r, &ctx);
    assert_eq!(app.get_viewed_date(day), Some(Date { year: 2024, month: 2, day: 28 }));
}

#[test]
fn history_stops_at_the_start_of_the_calendar() {
    let first = Date { year: -262143, month: 1, day: 1 };
    let (mut app, _, _) = App::new(TrackerConfig::default(), ReaderProbe::Unavailable, &DayRecord::new(first));
    let mut r = DayRecord::new(first);
    let ctx = KeyContext { now: at(9, 0), today: first, entered_hours: None };
    app.handle_key(Key::F(3), &mut r, &ctx);
    let e = app.handle_key(Key::Left, &mut r, &ctx);
    assert!(e.out_of_calendar);
    assert_eq!(app.get_viewed_date(first), None);
}

#[test]
fn outside_history_mode_the_viewed_day_is_today() {
    let app = new_app(TrackerConfig::default());
    assert!(!app.history_mode);
    assert_eq!(app.get_viewed_date(today()), Some(today()));
}

#[test]
fn m_in_the_task_editor_edits_the_daily_limit() {
    let mut app = new_app(TrackerConfig::default());
    let mut r = DayRecord::new(today());
    press(&mut app, Key::F(1), &mut r, 9, 0);
    press(&mut app, Key::Char('m'), &mut r, 9, 0);
    assert!(app.editing_max_hours);
    assert_eq!(app.feedback, "Editing max hours/day - type hours (e.g. 8.5), Enter to save, Esc to cancel");
}
