use time_tracker::actions::{execute_action, execute_go, execute_pause, execute_stop};
use time_tracker::clock::{ClockTime, Duration};
use time_tracker::commands::{cmd_go, cmd_pause, cmd_status, cmd_stop, status_pieces, stop_task_then};
use time_tracker::report::{join_pieces, join_pieces_with};
use time_tracker::date::Date;
use time_tracker::model::{Color, DayRecord, Event, EventKind, Session, TaskEvent};
use time_tracker::tasks::{
    active_task_name, calculate_task_durations, format_task_summary, start_task, stop_active_task,
    suspend_current_task, task_summary_pieces,
};
use time_tracker::timer::{
    record_fits, calculate_session_paused, calculate_session_total, calculate_session_worked, calculate_total_paused,
    calculate_total_time, calculate_worked,
};

const MINUTE: i128 = 60_000_000_000;

fn at(h: u64, m: u64) -> ClockTime {
    ClockTime { nanos: (h * 3600 + m * 60) * 1_000_000_000 }
}

fn date(year: i32, month: u32, day: u32) -> Date {
    Date { year, month, day }
}

fn ev(kind: EventKind, h: u64, m: u64) -> Event {
    Event { kind, time: at(h, m) }
}

fn task(name: &str, start: ClockTime, end: Option<ClockTime>) -> TaskEvent {
    TaskEvent { task: name.to_string(), start, end }
}

fn session(index: u32, events: Vec<Event>, task_events: Vec<TaskEvent>) -> Session {
    Session { index, events, task_events }
}

/// One day: worked 09:00-12:00 and 13:00-17:00, with a task 09:00-11:00.
fn finished_day() -> DayRecord {
    DayRecord {
        date: date(2024, 1, 15),
        sessions: vec![session(
            0,
            vec![
                ev(EventKind::Go, 9, 0),
                ev(EventKind::Pause, 12, 0),
                ev(EventKind::Go, 13, 0),
                ev(EventKind::Stop, 17, 0),
            ],
            vec![task("Code", at(9, 0), Some(at(11, 0)))],
        )],
    }
}

#[test]
fn a_working_day_through_go_pause_and_stop() {
    let mut r = DayRecord::new(date(2024, 1, 15));
    assert_eq!(execute_go(&mut r, at(9, 0)), ("Session 0: Started tracking at 09:00".to_string(), true));
    assert_eq!(execute_go(&mut r, at(9, 30)), ("Already tracking.".to_string(), false));
    assert_eq!(
        execute_pause(&mut r, at(12, 0)),
        ("Session 0: Paused at 12:00. Worked so far: 3h 00m".to_string(), true)
    );
    assert_eq!(execute_pause(&mut r, at(12, 5)), ("Already paused.".to_string(), false));
    assert_eq!(execute_go(&mut r, at(13, 0)), ("Session 0: Resumed at 13:00".to_string(), true));
    assert_eq!(
        execute_stop(&mut r, at(17, 30)),
        ("Session 0: Stopped at 17:30. Total today: 7h 30m".to_string(), true)
    );
    let stopped = "Session 0 is already stopped. Use 'go' to start a new one.".to_string();
    assert_eq!(execute_stop(&mut r, at(18, 0)), (stopped.clone(), false));
    assert_eq!(execute_pause(&mut r, at(18, 0)), (stopped, false));
    assert_eq!(execute_go(&mut r, at(19, 0)), ("Session 1: Started at 19:00".to_string(), true));
    assert_eq!(r.sessions.len(), 2);
    assert_eq!(r.sessions[0].events.len(), 4);
    assert_eq!(r.sessions[1].index, 1);
    assert_eq!(r.sessions[1].events, vec![ev(EventKind::Go, 19, 0)]);
}

#[test]
fn pause_and_stop_need_a_session() {
    let mut r = DayRecord::new(date(2024, 1, 15));
    let msg = "Not tracking yet. Use 'go' first.".to_string();
    assert_eq!(execute_pause(&mut r, at(9, 0)), (msg.clone(), false));
    assert_eq!(execute_stop(&mut r, at(9, 0)), (msg, false));
    assert!(r.sessions.is_empty());
}

#[test]
fn stop_straight_after_go_ends_the_session() {
    let mut r = DayRecord::new(date(2024, 1, 15));
    execute_action(&mut r, EventKind::Go, at(8, 0));
    let (msg, changed) = execute_action(&mut r, EventKind::Stop, at(8, 45));
    assert!(changed);
    assert_eq!(msg, "Session 0: Stopped at 08:45. Total today: 0h 45m");
    assert!(r.sessions[0].is_stopped());
    assert!(!r.has_active_session());
}

#[test]
fn go_twice_leaves_the_record_alone() {
    let mut r = DayRecord::new(date(2024, 1, 15));
    execute_go(&mut r, at(9, 0));
    let before = r.sessions[0].events.clone();
    let (_, changed) = execute_go(&mut r, at(10, 0));
    assert!(!changed);
    assert_eq!(r.sessions.len(), 1);
    assert_eq!(r.sessions[0].events, before);
}

#[test]
fn session_states_follow_the_last_event() {
    let s = session(0, vec![ev(EventKind::Go, 9, 0)], vec![]);
    assert!(s.is_active() && !s.is_paused() && !s.is_stopped());
    assert_eq!(s.last_event_kind(), Some(EventKind::Go));
    let p = session(0, vec![ev(EventKind::Go, 9, 0), ev(EventKind::Pause, 10, 0)], vec![]);
    assert!(p.is_paused() && !p.is_active());
    let mut one = DayRecord::new(date(2024, 1, 15));
    assert!(one.current_session().is_none());
    one.sessions.push(session(7, vec![ev(EventKind::Go, 9, 0)], vec![]));
    assert_eq!(one.current_session().map(|s| s.index), Some(7));
    assert_eq!(one.next_session_index(), 8);
    let e = Session::new(3);
    assert_eq!(e.last_event_kind(), None);
    assert_eq!(e.index, 3);
    let mut r = DayRecord::new(date(2024, 1, 15));
    assert_eq!(r.next_session_index(), 0);
    assert!(!r.is_tracking() && !r.is_paused());
    r.sessions.push(p);
    assert!(r.is_paused() && r.has_active_session() && !r.is_tracking());
    assert_eq!(r.next_session_index(), 1);
}

#[test]
fn event_kinds_have_names_and_colours() {
    assert_eq!(EventKind::Go.label(), "Go");
    assert_eq!(EventKind::Pause.label(), "Pause");
    assert_eq!(EventKind::Stop.label(), "Stop");
    assert_eq!(EventKind::Go.color(), Color::Green);
    assert_eq!(EventKind::Pause.color(), Color::Yellow);
    assert_eq!(EventKind::Stop.color(), Color::Red);
}

#[test]
fn worked_plus_paused_is_total() {
    let r = finished_day();
    let total = calculate_total_time(&r, false, at(20, 0));
    let paused = calculate_total_paused(&r, false, at(20, 0));
    let worked = calculate_worked(&r, false, at(20, 0));
    assert_eq!(total.nanos, 480 * MINUTE);
    assert_eq!(paused.nanos, 60 * MINUTE);
    assert_eq!(worked.nanos, 420 * MINUTE);
    assert_eq!(worked.nanos + paused.nanos, total.nanos);
    assert!(0 <= paused.nanos && paused.nanos <= total.nanos);
}

#[test]
fn paused_time_of_an_ordered_session_stays_within_its_total() {
    let s = session(
        0,
        vec![
            ev(EventKind::Pause, 8, 0),
            ev(EventKind::Go, 8, 30),
            ev(EventKind::Go, 9, 0),
            ev(EventKind::Pause, 10, 0),
        ],
        vec![],
    );
    let total = calculate_session_total(&s, true, at(11, 0)).nanos;
    let paused = calculate_session_paused(&s, true, at(11, 0)).nanos;
    assert_eq!(total, 180 * MINUTE);
    assert_eq!(calculate_session_worked(&s, true, at(11, 0)).nanos, 60 * MINUTE);
    assert_eq!(paused, 120 * MINUTE);
    assert!(0 <= paused && paused <= total);
}

#[test]
fn open_sessions_count_up_to_now_or_to_the_end_of_the_day() {
    let s = session(0, vec![ev(EventKind::Go, 9, 0)], vec![]);
    assert_eq!(calculate_session_worked(&s, true, at(10, 0)).nanos, 60 * MINUTE);
    assert_eq!(calculate_session_total(&s, true, at(10, 0)).nanos, 60 * MINUTE);
    assert_eq!(calculate_session_paused(&s, true, at(10, 0)).nanos, 0);
    let to_end = calculate_session_worked(&s, false, at(10, 0)).nanos;
    assert_eq!(to_end, (86_399 - 9 * 3600) as i128 * 1_000_000_000);
    let paused = session(0, vec![ev(EventKind::Go, 9, 0), ev(EventKind::Pause, 10, 0)], vec![]);
    assert_eq!(calculate_session_worked(&paused, true, at(11, 0)).nanos, 60 * MINUTE);
    assert_eq!(calculate_session_total(&paused, true, at(11, 0)).nanos, 120 * MINUTE);
    assert_eq!(calculate_session_paused(&paused, true, at(11, 0)).nanos, 60 * MINUTE);
}

#[test]
fn tasks_start_and_suspend_with_messages() {
    let mut r = DayRecord::new(date(2024, 1, 15));
    assert_eq!(start_task(&mut r, "Code", at(9, 0)), ("No active session. Use 'go' first.".to_string(), false));
    execute_go(&mut r, at(9, 0));
    assert_eq!(start_task(&mut r, "Code", at(9, 15)), (">> Task \"Code\" started at 09:15".to_string(), true));
    assert_eq!(active_task_name(&r), Some("Code".to_string()));
    assert_eq!(
        start_task(&mut r, "Review", at(10, 0)),
        (">> Task \"Review\" started at 10:00".to_string(), true)
    );
    assert_eq!(r.sessions[0].task_events[0].end, Some(at(10, 0)));
    assert_eq!(active_task_name(&r), Some("Review".to_string()));
    assert_eq!(stop_active_task(&mut r, at(10, 45)), Some("[] Task \"Review\" suspended (0h 45m)".to_string()));
    assert_eq!(stop_active_task(&mut r, at(11, 0)), None);
    assert_eq!(active_task_name(&r), None);
    assert_eq!(suspend_current_task(&mut r, at(11, 0)), None);
}

#[test]
fn starting_a_task_twice_keeps_one_running() {
    let mut r = DayRecord::new(date(2024, 1, 15));
    execute_go(&mut r, at(9, 0));
    start_task(&mut r, "Code", at(9, 0));
    start_task(&mut r, "Code", at(9, 30));
    let open: Vec<_> = r.sessions[0].task_events.iter().filter(|t| t.end.is_none()).collect();
    assert_eq!(open.len(), 1);
    assert_eq!(r.sessions[0].task_events.len(), 2);
}

#[test]
fn task_times_add_up_by_name_in_order_of_first_use() {
    let r = DayRecord {
        date: date(2024, 1, 15),
        sessions: vec![
            session(
                0,
                vec![ev(EventKind::Go, 8, 0), ev(EventKind::Stop, 12, 0)],
                vec![task("Code", at(8, 0), Some(at(9, 0))), task("Mail", at(9, 0), Some(at(9, 30)))],
            ),
            session(
                1,
                vec![ev(EventKind::Go, 13, 0)],
                vec![task("Code", at(13, 0), Some(at(14, 15))), task("Call", at(14, 15), None)],
            ),
        ],
    };
    let totals = calculate_task_durations(&r, date(2024, 1, 15), at(15, 0));
    let names: Vec<&str> = totals.iter().map(|(n, _)| n.as_str()).collect();
    assert_eq!(names, vec!["Code", "Mail", "Call"]);
    assert_eq!(totals[0].1.nanos, 135 * MINUTE);
    assert_eq!(totals[1].1.nanos, 30 * MINUTE);
    assert_eq!(totals[2].1.nanos, 45 * MINUTE);
    let sum: i128 = totals.iter().map(|(_, d)| d.nanos).sum();
    assert_eq!(sum, (60 + 30 + 75 + 45) * MINUTE);
    let past = calculate_task_durations(&r, date(2024, 1, 16), at(15, 0));
    assert_eq!(past[2].1.nanos, (86_399 - (14 * 3600 + 15 * 60)) as i128 * 1_000_000_000);
}

#[test]
fn task_summary_marks_the_running_task_and_the_unassigned_rest() {
    let mut r = finished_day();
    let summary = format_task_summary(&r, Duration { nanos: 420 * MINUTE }, date(2024, 1, 16), at(9, 0));
    assert_eq!(summary, "\n  Tasks:\n    Code: 2h 00m\n\n    Unassigned: 5h 00m\n");
    r.sessions[0].task_events.push(task("Docs", at(16, 0), None));
    let running =
        format_task_summary(&r, Duration { nanos: 600 * MINUTE }, date(2024, 1, 15), at(17, 0));
    assert_eq!(running, "\n  Tasks:\n    Code: 2h 00m\n     >> Docs: 1h 00m\n\n    Unassigned: 7h 00m\n");
    let none = DayRecord::new(date(2024, 1, 15));
    assert_eq!(format_task_summary(&none, Duration { nanos: 0 }, date(2024, 1, 15), at(9, 0)), "");
}

#[test]
fn task_summary_shows_unassigned_time_from_one_second() {
    let r = finished_day();
    let summary = format_task_summary(&r, Duration { nanos: 120 * MINUTE + 999_999_999 }, date(2024, 1, 16), at(9, 0));
    assert_eq!(summary, "\n  Tasks:\n    Code: 2h 00m\n");
    let seconds = format_task_summary(&r, Duration { nanos: 120 * MINUTE + 59_000_000_000 }, date(2024, 1, 16), at(9, 0));
    assert_eq!(seconds, "\n  Tasks:\n    Code: 2h 00m\n\n    Unassigned: 0h 00m\n");
}

#[test]
fn go_pause_stop_commands_print_their_lines() {
    let mut r = DayRecord::new(date(2024, 1, 15));
    let (lines, changed) = cmd_go(&mut r, Some("Code".to_string()), at(9, 0));
    assert!(changed);
    assert_eq!(lines, vec!["Session 0: Started tracking at 09:00", ">> Task \"Code\" started at 09:00"]);
    let (lines, changed) = cmd_pause(&mut r, at(10, 0));
    assert!(changed);
    assert_eq!(
        lines,
        vec!["[] Task \"Code\" suspended (1h 00m)", "Session 0: Paused at 10:00. Worked so far: 1h 00m"]
    );
    let (lines, _) = cmd_go(&mut r, None, at(10, 30));
    assert_eq!(lines, vec!["Session 0: Resumed at 10:30"]);
    let (lines, _) = cmd_stop(&mut r, at(11, 0));
    assert_eq!(lines, vec!["Session 0: Stopped at 11:00. Total today: 1h 30m"]);
    let (lines, changed) = stop_task_then(&mut r, EventKind::Stop, at(11, 5));
    assert!(!changed);
    assert_eq!(lines, vec!["Session 0 is already stopped. Use 'go' to start a new one."]);
}

#[test]
fn status_of_a_past_day() {
    let r = finished_day();
    let out = cmd_status(Some(&r), date(2024, 1, 15), date(2024, 1, 16), at(9, 0));
    let expected = [
        "-- Monday, 2024-01-15 --\n",
        "\n  Session 0 (stopped)\n",
        "    09:00 Go\n",
        "    12:00 Pause\n",
        "    13:00 Go\n",
        "    17:00 Stop\n",
        "  ---------------------\n",
        "    Total:  8h 00m\n",
        "    Paused: 1h 00m\n",
        "    Worked: 7h 00m\n",
        "\n  =====================\n",
        "  Total Time:   8h 00m\n",
        "  Total Paused: 1h 00m\n",
        "  Total Worked: 7h 00m\n",
        "\n  Tasks:\n",
        "    Code: 2h 00m\n",
        "\n    Unassigned: 5h 00m\n",
    ]
    .concat();
    assert_eq!(out, expected);
}

#[test]
fn status_of_today_while_tracking() {
    let r = DayRecord {
        date: date(2024, 1, 15),
        sessions: vec![session(0, vec![ev(EventKind::Go, 9, 0)], vec![])],
    };
    let out = cmd_status(Some(&r), date(2024, 1, 15), date(2024, 1, 15), at(10, 30));
    let expected = [
        "-- Monday, 2024-01-15 --\n",
        "\n  Session 0 (tracking)\n",
        "    09:00 Go\n",
        "  ---------------------\n",
        "    Total:  1h 30m\n",
        "    Paused: 0h 00m\n",
        "    Worked: 1h 30m\n",
        "\n  =====================\n",
        "  Total Time:   1h 30m (tracking)\n",
        "  Total Paused: 0h 00m\n",
        "  Total Worked: 1h 30m\n",
    ]
    .concat();
    assert_eq!(out, expected);
}

#[test]
fn status_without_a_record() {
    let out = cmd_status(None, date(2024, 1, 15), date(2024, 1, 16), at(9, 0));
    assert_eq!(out, "No record for Monday, 2024-01-15\n");
}

#[test]
fn ordinary_records_fit_the_arithmetic() {
    assert!(record_fits(&finished_day()));
    assert!(record_fits(&DayRecord::new(date(2024, 1, 15))));
}

#[test]
fn status_with_durations_in_decimal_hours() {
    let r = finished_day();
    let pieces = status_pieces(Some(&r), date(2024, 1, 15), date(2024, 1, 16), at(9, 0));
    assert_eq!(join_pieces(&pieces), cmd_status(Some(&r), date(2024, 1, 15), date(2024, 1, 16), at(9, 0)));
    let texts: Vec<String> = pieces
        .iter()
        .filter_map(|p| p.time.map(|d| format!("{:.2}h", d.num_seconds() as f64 / 3600.0)))
        .collect();
    let out = join_pieces_with(&pieces, &texts);
    let expected = [
        "-- Monday, 2024-01-15 --\n",
        "\n  Session 0 (stopped)\n",
        "    09:00 Go\n",
        "    12:00 Pause\n",
        "    13:00 Go\n",
        "    17:00 Stop\n",
        "  ---------------------\n",
        "    Total:  8.00h\n",
        "    Paused: 1.00h\n",
        "    Worked: 7.00h\n",
        "\n  =====================\n",
        "  Total Time:   8.00h\n",
        "  Total Paused: 1.00h\n",
        "  Total Worked: 7.00h\n",
        "\n  Tasks:\n",
        "    Code: 2.00h\n",
        "\n    Unassigned: 5.00h\n",
    ]
    .concat();
    assert_eq!(out, expected);
}

#[test]
fn task_summary_as_pieces() {
    let r = finished_day();
    let pieces = task_summary_pieces(&r, Duration { nanos: 450 * MINUTE }, date(2024, 1, 16), at(9, 0));
    let times: Vec<i128> = pieces.iter().filter_map(|p| p.time.map(|d| d.nanos)).collect();
    assert_eq!(times, vec![120 * MINUTE, 330 * MINUTE]);
    assert_eq!(join_pieces(&pieces), "\n  Tasks:\n    Code: 2h 00m\n\n    Unassigned: 5h 30m\n");
}

#[test]
fn tracking_keeps_the_shape_of_the_day() {
    let mut r = DayRecord::new(date(2024, 1, 15));
    execute_go(&mut r, at(8, 0));
    execute_pause(&mut r, at(9, 0));
    execute_pause(&mut r, at(9, 5));
    execute_go(&mut r, at(9, 30));
    execute_go(&mut r, at(9, 40));
    execute_stop(&mut r, at(10, 0));
    execute_go(&mut r, at(11, 0));
    execute_stop(&mut r, at(12, 0));
    execute_stop(&mut r, at(12, 5));
    let kinds: Vec<Vec<EventKind>> = r.sessions.iter().map(|s| s.events.iter().map(|e| e.kind).collect()).collect();
    assert_eq!(
        kinds,
        vec![
            vec![EventKind::Go, EventKind::Pause, EventKind::Go, EventKind::Stop],
            vec![EventKind::Go, EventKind::Stop],
        ]
    );
    assert_eq!(r.sessions[0].index, 0);
    assert_eq!(r.sessions[1].index, 1);
}

#[test]
fn starting_a_task_ends_the_running_one_only() {
    let mut r = DayRecord::new(date(2024, 1, 15));
    execute_go(&mut r, at(9, 0));
    start_task(&mut r, "A", at(9, 0));
    stop_active_task(&mut r, at(9, 30));
    start_task(&mut r, "B", at(10, 0));
    start_task(&mut r, "C", at(11, 0));
    let tes = &r.sessions[0].task_events;
    assert_eq!(tes.len(), 3);
    assert_eq!(tes[0].end, Some(at(9, 30)));
    assert_eq!(tes[1].end, Some(at(11, 0)));
    assert_eq!(tes[2].end, None);
    assert_eq!(tes[2].start, at(11, 0));
}
