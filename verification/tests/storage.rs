use time_tracker::clock::ClockTime;
use time_tracker::config::{
    config_path, data_dir, join_path, json_path, load_config, slot_key_string, task_spec_hours_text, toml_path,
    Hours, SmartcardConfig, TaskInfo, TrackerConfig,
};
use time_tracker::date::Date;
use time_tracker::editor::{choose_editor, command_name, editor_candidates, split_whitespace};
use time_tracker::launch::{linux_terminal_commands, windows_start_args};
use time_tracker::legacy::{
    collect_tasks_for_range, is_legacy_file_name, migrate_json, migrate_legacy_data, split_into_sessions,
    LegacyDayRecord, LegacyFile,
};
use time_tracker::model::{Event, EventKind, TaskEvent};
use time_tracker::smartcard::{card_transition, first_reader_name, poll_step, probe_readers, CardEvent, ReaderProbe};

fn at(h: u64, m: u64) -> ClockTime {
    ClockTime { nanos: (h * 3600 + m * 60) * 1_000_000_000 }
}

fn ev(kind: EventKind, h: u64, m: u64) -> Event {
    Event { kind, time: at(h, m) }
}

fn task(name: &str, start: ClockTime, end: Option<ClockTime>) -> TaskEvent {
    TaskEvent { task: name.to_string(), start, end }
}

fn hours(value: f64) -> Hours {
    Hours { bits: value.to_bits(), text: format!("{:.2}", value), in_day: value > 0.0 && value <= 24.0 }
}

fn day() -> Date {
    Date { year: 2024, month: 1, day: 15 }
}

#[test]
fn slot_keys_are_decimal_numbers() {
    assert_eq!(slot_key_string(0), "0");
    assert_eq!(slot_key_string(9), "9");
    assert_eq!(slot_key_string(12), "12");
}

#[test]
fn setting_a_slot_then_reading_it() {
    let mut c = TrackerConfig::default();
    assert_eq!(c.task_name(3), None);
    c.set_task_name(3, "  Code Review ", None);
    assert_eq!(c.task_name(3), Some("Code Review".to_string()));
    let info = c.task_info(3).unwrap();
    assert_eq!(info.name, "Code Review");
    assert!(info.max_hours.is_none());
    c.set_task_name(4, "Mail: 2.5", Some(hours(2.5)));
    let mail = c.task_info(4).unwrap();
    assert_eq!(mail.name, "Mail");
    assert_eq!(mail.max_hours.unwrap().text, "2.50");
    assert_eq!(c.task_name(3), Some("Code Review".to_string()));
    c.set_task_name(3, "", None);
    assert_eq!(c.task_name(3), None);
    assert_eq!(c.task_name(4), Some("Mail".to_string()));
    assert_eq!(c.tasks.len(), 1);
}

#[test]
fn a_slot_set_twice_keeps_one_entry() {
    let mut c = TrackerConfig::default();
    c.set_task_name(1, "A", None);
    c.set_task_name(1, "B", None);
    assert_eq!(c.tasks.len(), 1);
    assert_eq!(c.task_name(1), Some("B".to_string()));
}

#[test]
fn a_limit_that_does_not_read_as_a_number_is_dropped() {
    let mut c = TrackerConfig::default();
    c.set_task_name(2, "Ops:abc", None);
    let info = c.task_info(2).unwrap();
    assert_eq!(info.name, "Ops");
    assert!(info.max_hours.is_none());
}

#[test]
fn hours_text_of_a_slot_text() {
    assert_eq!(task_spec_hours_text("Name:2.5"), Some("2.5".to_string()));
    assert_eq!(task_spec_hours_text("Name: 3 : x"), Some("3 : x".to_string()));
    assert_eq!(task_spec_hours_text("Name"), None);
}

#[test]
fn option_setters_change_only_their_option() {
    let mut c = TrackerConfig::default();
    c.set_smartcard_active(true);
    c.set_decimal_time_format(true);
    c.set_max_hours_per_day(Some(hours(8.0)));
    assert!(c.smartcard_active());
    assert!(c.decimal_time_format());
    assert_eq!(c.max_hours_per_day().unwrap().text, "8.00");
    c.set_max_hours_per_day(None);
    assert!(c.max_hours_per_day().is_none());
    assert!(c.smartcard_active());
    let t = TaskInfo::with_max_hours("X".to_string(), Some(hours(1.0)));
    assert_eq!(t.name, "X");
    assert!(TaskInfo::new("Y".to_string()).max_hours.is_none());
}

#[test]
fn loading_options_from_their_file() {
    let none = load_config(None, None, None);
    assert!(!none.save && !none.config.smartcard_active() && none.config.tasks.is_empty());

    let mut parsed = TrackerConfig::default();
    parsed.set_smartcard_active(true);
    parsed.set_task_name(0, "Code", None);
    let current = load_config(Some("[smartcard]\nactive = true\n"), Some(parsed), None);
    assert!(!current.save);
    assert!(current.config.smartcard_active());
    assert_eq!(current.config.task_name(0), Some("Code".to_string()));

    let legacy = load_config(Some("smartcard_active = true\n"), Some(TrackerConfig::default()), Some(true));
    assert!(legacy.save);
    assert!(legacy.config.smartcard_active());
    assert!(legacy.config.tasks.is_empty());

    let broken = load_config(Some("this is not toml"), None, None);
    assert!(!broken.save && !broken.config.smartcard_active());
}

#[test]
fn options_of_the_current_format_need_a_section() {
    let parsed = TrackerConfig {
        smartcard: SmartcardConfig { active: true },
        tasks: Vec::new(),
        max_hours_per_day: None,
        decimal_time_format: true,
    };
    let r = load_config(Some("decimal_time_format = true\n"), Some(parsed), None);
    assert!(!r.save);
    assert!(!r.config.decimal_time_format());
    assert!(!r.config.smartcard_active());
}

#[test]
fn paths_of_the_data_files() {
    let dir = data_dir("/home/ann", false);
    assert_eq!(dir, "/home/ann/.config/time_tracking");
    assert_eq!(config_path(&dir, false), "/home/ann/.config/time_tracking/.tracker_options.toml");
    assert_eq!(toml_path(&dir, day(), false), "/home/ann/.config/time_tracking/2024-01-15.toml");
    assert_eq!(json_path(&dir, day(), false), "/home/ann/.config/time_tracking/2024-01-15.json");
    let win = data_dir("C:\\Users\\ann\\AppData\\Roaming", true);
    assert_eq!(win, "C:\\Users\\ann\\AppData\\Roaming\\time_tracking");
    assert_eq!(join_path("C:", "x", true), "C:x");
    assert_eq!(join_path("/tmp/", "x", false), "/tmp/x");
    assert_eq!(join_path("", "x", false), "x");
    assert_eq!(data_dir("/", false), "//.config/time_tracking");
}

#[test]
fn flat_events_split_into_sessions_at_each_stop() {
    let events = vec![
        ev(EventKind::Go, 9, 0),
        ev(EventKind::Pause, 10, 0),
        ev(EventKind::Go, 10, 30),
        ev(EventKind::Stop, 12, 0),
        ev(EventKind::Go, 13, 0),
    ];
    let tasks = vec![
        task("Code", at(9, 0), Some(at(10, 0))),
        task("Mail", at(12, 0), Some(at(12, 10))),
        task("Docs", at(13, 30), None),
        task("Early", at(8, 0), Some(at(8, 30))),
    ];
    let sessions = split_into_sessions(&events, &tasks);
    assert_eq!(sessions.len(), 2);
    assert_eq!(sessions[0].index, 0);
    assert_eq!(sessions[0].events, events[0..4].to_vec());
    let first: Vec<&str> = sessions[0].task_events.iter().map(|t| t.task.as_str()).collect();
    // "Mail" starts as the session ends: it belongs to neither session
    assert_eq!(first, vec!["Code"]);
    assert_eq!(sessions[1].index, 1);
    assert_eq!(sessions[1].events, vec![ev(EventKind::Go, 13, 0)]);
    let second: Vec<&str> = sessions[1].task_events.iter().map(|t| t.task.as_str()).collect();
    assert_eq!(second, vec!["Docs"]);
}

#[test]
fn a_split_keeps_every_event_in_order() {
    let events = vec![
        ev(EventKind::Go, 8, 0),
        ev(EventKind::Stop, 9, 0),
        ev(EventKind::Stop, 9, 5),
        ev(EventKind::Go, 10, 0),
        ev(EventKind::Stop, 11, 0),
    ];
    let sessions = split_into_sessions(&events, &Vec::new());
    assert_eq!(sessions.len(), 3);
    let all: Vec<Event> = sessions.iter().flat_map(|s| s.events.clone()).collect();
    assert_eq!(all, events);
    assert!(sessions.iter().all(|s| s.is_stopped()));
    assert!(split_into_sessions(&Vec::new(), &Vec::new()).is_empty());
}

#[test]
fn tasks_of_a_time_range() {
    let tasks = vec![task("A", at(9, 0), None), task("B", at(11, 0), None), task("C", at(12, 1), None)];
    let r = collect_tasks_for_range(&tasks, Some(at(9, 0)), Some(at(12, 0)));
    assert_eq!(r.len(), 2);
    assert_eq!(r[1].task, "B");
    assert!(collect_tasks_for_range(&tasks, None, None).is_empty());
    let at_end = collect_tasks_for_range(&tasks, Some(at(9, 0)), Some(at(11, 0)));
    assert_eq!(at_end.len(), 1);
    assert_eq!(at_end[0].task, "A");
    assert_eq!(collect_tasks_for_range(&tasks, Some(at(10, 0)), None).len(), 2);
}

#[test]
fn migrating_files_of_the_earlier_format() {
    let legacy = LegacyDayRecord {
        date: day(),
        events: vec![ev(EventKind::Go, 9, 0), ev(EventKind::Stop, 10, 0)],
        task_events: vec![],
    };
    let r = migrate_json(&legacy);
    assert_eq!(r.date, day());
    assert_eq!(r.sessions.len(), 1);

    let files = vec![
        LegacyFile { name: "2024-01-15.json".to_string(), record: Some(legacy) },
        LegacyFile { name: "2024-01-16.toml".to_string(), record: None },
        LegacyFile { name: "broken.json".to_string(), record: None },
        LegacyFile {
            name: "2024-01-17.json".to_string(),
            record: Some(LegacyDayRecord {
                date: Date { year: 2024, month: 1, day: 17 },
                events: vec![ev(EventKind::Go, 8, 0)],
                task_events: vec![],
            }),
        },
    ];
    let migrated = migrate_legacy_data(&files);
    assert_eq!(migrated.len(), 2);
    assert_eq!(migrated[0].0, "2024-01-15.json");
    assert_eq!(migrated[1].0, "2024-01-17.json");
    assert_eq!(migrated[1].1.date.day, 17);
    assert!(migrated[1].1.has_active_session());
}

#[test]
fn legacy_file_names_end_in_json() {
    assert!(is_legacy_file_name("2024-01-15.json"));
    assert!(is_legacy_file_name("x.json"));
    assert!(is_legacy_file_name("..json"));
    assert!(!is_legacy_file_name(".json"));
    assert!(!is_legacy_file_name("a.jsonx"));
    assert!(!is_legacy_file_name("a.toml"));
    assert!(!is_legacy_file_name("json"));
}

#[test]
fn editors_to_try_in_order() {
    let unix = editor_candidates(Some("hx".to_string()), Some(String::new()), false);
    assert_eq!(unix, vec!["hx", "vim", "nano", "vi", "emacs", "gedit", "kate"]);
    let win = editor_candidates(None, Some("code --wait".to_string()), true);
    assert_eq!(win, vec!["code --wait", "notepad.exe", "notepad++.exe", "code.cmd"]);
}

#[test]
fn an_editor_command_is_its_first_word() {
    assert_eq!(command_name("code --wait"), "code");
    assert_eq!(command_name("  vim  "), "vim");
    assert_eq!(command_name("   "), "   ");
    assert_eq!(split_whitespace(" a  b\tc\n"), vec!["a", "b", "c"]);
    assert!(split_whitespace("").is_empty());
}

#[test]
fn terminals_tried_to_open_the_interface() {
    let cmds = linux_terminal_commands("/usr/bin/tracker");
    let names: Vec<&str> = cmds.iter().map(|(n, _)| n.as_str()).collect();
    assert_eq!(names, vec!["kitty", "alacritty", "gnome-terminal", "foot", "wezterm", "xterm", "x-terminal-emulator"]);
    assert_eq!(cmds[0].1, vec!["/usr/bin/tracker", "tui"]);
    assert_eq!(cmds[4].1, vec!["start", "--", "/usr/bin/tracker", "tui"]);
    assert_eq!(windows_start_args("C:\\t.exe"), vec!["/C", "start", "", "C:\\t.exe", "tui"]);
}

#[test]
fn reader_probes_and_card_events() {
    assert_eq!(probe_readers(false, true, true), ReaderProbe::Unavailable);
    assert_eq!(probe_readers(true, false, true), ReaderProbe::Unavailable);
    assert_eq!(probe_readers(true, true, true), ReaderProbe::Available);
    assert_eq!(probe_readers(true, true, false), ReaderProbe::NoReaders);
    assert_eq!(card_transition(false, true), Some(CardEvent::Inserted));
    assert_eq!(card_transition(true, false), Some(CardEvent::Removed));
    assert_eq!(card_transition(true, true), None);
    assert_eq!(card_transition(false, false), None);
}

#[test]
fn card_events_alternate_over_a_run_of_readings() {
    let readings = [None, Some(true), Some(true), None, Some(false), Some(false), Some(true), None];
    let mut present = false;
    let mut events = Vec::new();
    for r in readings {
        let (p, e) = poll_step(present, r);
        present = p;
        if let Some(e) = e {
            events.push(e);
        }
    }
    assert_eq!(events, vec![CardEvent::Inserted, CardEvent::Removed, CardEvent::Inserted]);
    assert!(present);
}

#[test]
fn the_first_reader_name_of_a_list() {
    let list = b"Reader A\0Reader B\0\0".to_vec();
    assert_eq!(first_reader_name(&list), Some(b"Reader A".to_vec()));
    assert_eq!(first_reader_name(&b"\0\0".to_vec()), None);
    assert_eq!(first_reader_name(&Vec::new()), None);
    assert_eq!(first_reader_name(&b"Only".to_vec()), Some(b"Only".to_vec()));
}

#[test]
fn options_with_a_key_twice_are_not_well_formed() {
    let mut c = TrackerConfig::default();
    assert!(c.keys_unique());
    c.set_task_name(1, "A", None);
    c.set_task_name(2, "B", None);
    assert!(c.keys_unique());
    c.tasks.push(("1".to_string(), TaskInfo::new("C".to_string())));
    assert!(!c.keys_unique());
}

#[test]
fn the_first_editor_that_exists_is_chosen() {
    let candidates = vec!["hx".to_string(), "vim".to_string(), "nano".to_string()];
    assert_eq!(choose_editor(&candidates, &vec![false, true, true]), Some("vim".to_string()));
    assert_eq!(choose_editor(&candidates, &vec![true, false, true]), Some("hx".to_string()));
    assert_eq!(choose_editor(&candidates, &vec![false, false, false]), None);
    assert_eq!(choose_editor(&Vec::new(), &Vec::new()), None);
}
