//! The command-line commands `go`, `pause`, `stop` and `status`, on the
//! record of the day: what they change and the lines they print.

use vstd::prelude::*;
use crate::actions::{execute_action, go_post, pause_post, stop_post};
use crate::clock::{clock_text, duration_text, format_duration, push_clock, ClockTime, Duration, END_OF_DAY_NANOS};
use crate::date::{long_date_text, push_long_date, Date};
use crate::model::{kind_label, DayRecord, Event, EventKind, Session};
use crate::tasks::{
    day_task_totals, running_task, start_post, start_task, stop_active_task, summary_pieces, task_summary_pieces,
    suspend_post,
};
use crate::text::{dec_nat, push_nat};
use crate::report::{append_pieces, join_pieces, pieces_text, pieces_view, push_text, push_time, text_piece, time_piece, Piece};
use crate::timer::{
    calculate_session_paused, calculate_session_total, calculate_total_paused, calculate_total_time,
    calculate_worked, day_measure, end_for, fits, lemma_day_measure_bound, lemma_size_monotone, record_size,
    session_paused, session_total, size_upto, span_bound, lemma_measure_bound, Measure, RECORD_LIMIT,
};

verus! {

/// What an action does, as `execute_action` states it.
pub open spec fn action_post(action: EventKind, old: DayRecord, new: DayRecord, msg: Seq<char>, changed: bool, now: ClockTime) -> bool {
    match action {
        EventKind::Go => go_post(old, new, msg, changed, now),
        EventKind::Pause => pause_post(old, new, msg, changed, now),
        EventKind::Stop => stop_post(old, new, msg, changed, now),
    }
}

/// Ends the running task, then applies `action`; returns the lines printed
/// and whether the record changed.
pub fn stop_task_then(record: &mut DayRecord, action: EventKind, now: ClockTime) -> (r: (Vec<String>, bool))
    requires
        fits(&*old(record)),
    ensures
        exists|mid: DayRecord, m: Option<Seq<char>>, a: Seq<char>, c: bool| {
            &&& suspend_post(*old(record), mid, now, m)
            &&& action_post(action, mid, *final(record), a, c, now)
            &&& r.1 == (m is Some || c)
            &&& r.0@.len() == (if m is Some { 2int } else { 1 })
            &&& m matches Some(t) ==> r.0@[0]@ == t
            &&& r.0@.last()@ == a
        },
{
    let mut lines: Vec<String> = Vec::new();
    let task_msg = stop_active_task(record, now);
    let ghost mid = *record;
    let ghost m: Option<Seq<char>> = match &task_msg {
        Some(t) => Some(t@),
        None => None,
    };
    let suspended = task_msg.is_some();
    match task_msg {
        Some(t) => lines.push(t),
        None => {},
    }
    let (msg, changed) = execute_action(record, action, now);
    let ghost a = msg@;
    lines.push(msg);
    proof {
        assert(suspend_post(*old(record), mid, now, m));
        assert(action_post(action, mid, *record, a, changed, now));
    }
    (lines, suspended || changed)
}

/// `pause`: ends the running task, then pauses.
pub fn cmd_pause(record: &mut DayRecord, now: ClockTime) -> (r: (Vec<String>, bool))
    requires
        fits(&*old(record)),
    ensures
        exists|mid: DayRecord, m: Option<Seq<char>>, a: Seq<char>, c: bool| {
            &&& suspend_post(*old(record), mid, now, m)
            &&& pause_post(mid, *final(record), a, c, now)
            &&& r.1 == (m is Some || c)
            &&& r.0@.len() == (if m is Some { 2int } else { 1 })
            &&& m matches Some(t) ==> r.0@[0]@ == t
            &&& r.0@.last()@ == a
        },
{
    stop_task_then(record, EventKind::Pause, now)
}

/// `stop`: ends the running task, then stops the session.
pub fn cmd_stop(record: &mut DayRecord, now: ClockTime) -> (r: (Vec<String>, bool))
    requires
        fits(&*old(record)),
    ensures
        exists|mid: DayRecord, m: Option<Seq<char>>, a: Seq<char>, c: bool| {
            &&& suspend_post(*old(record), mid, now, m)
            &&& stop_post(mid, *final(record), a, c, now)
            &&& r.1 == (m is Some || c)
            &&& r.0@.len() == (if m is Some { 2int } else { 1 })
            &&& m matches Some(t) ==> r.0@[0]@ == t
            &&& r.0@.last()@ == a
        },
{
    stop_task_then(record, EventKind::Stop, now)
}

/// `go`: with a task, starts tracking (if need be) and then the task; without
/// one, ends the running task and starts or resumes tracking.
pub fn cmd_go(record: &mut DayRecord, task: Option<String>, now: ClockTime) -> (r: (Vec<String>, bool))
    requires
        fits(&*old(record)),
    ensures
        task matches Some(name) ==> exists|mid: DayRecord, a: Seq<char>, c: bool, t: Seq<char>, c2: bool| {
            &&& go_post(*old(record), mid, a, c, now)
            &&& start_post(mid, *final(record), name@, now, t, c2)
            &&& r.1 == (c || c2)
            &&& r.0@.len() == 2
            &&& r.0@[0]@ == a
            &&& r.0@[1]@ == t
        },
        task is None ==> exists|mid: DayRecord, m: Option<Seq<char>>, a: Seq<char>, c: bool| {
            &&& suspend_post(*old(record), mid, now, m)
            &&& go_post(mid, *final(record), a, c, now)
            &&& r.1 == (m is Some || c)
            &&& r.0@.len() == (if m is Some { 2int } else { 1 })
            &&& m matches Some(t) ==> r.0@[0]@ == t
            &&& r.0@.last()@ == a
        },
{
    match task {
        Some(name) => {
            let (go_msg, c1) = execute_action(record, EventKind::Go, now);
            let ghost mid = *record;
            let (task_msg, c2) = start_task(record, name.as_str(), now);
            let mut lines: Vec<String> = Vec::new();
            let ghost a = go_msg@;
            let ghost t = task_msg@;
            lines.push(go_msg);
            lines.push(task_msg);
            proof {
                assert(go_post(*old(record), mid, a, c1, now));
                assert(start_post(mid, *record, name@, now, t, c2));
            }
            (lines, c1 || c2)
        },
        None => stop_task_then(record, EventKind::Go, now),
    }
}

} // verus!

verus! {

/// The state shown after a session's number in `status`.
pub open spec fn session_state_text(s: Session, is_today: bool, is_last: bool) -> Seq<char> {
    if is_today && is_last && s.running() {
        " (tracking)"@
    } else if s.stopped() {
        " (stopped)"@
    } else {
        " (paused)"@
    }
}

/// `    HH:MM Kind` for each event.
pub open spec fn event_lines(evs: Seq<Event>) -> Seq<char>
    decreases evs.len(),
{
    if evs.len() == 0 {
        Seq::<char>::empty()
    } else {
        event_lines(evs.drop_last()) + "    "@ + clock_text(evs.last().time) + " "@ + kind_label(evs.last().kind) + "\n"@
    }
}

/// The heading of one session in `status`.
pub open spec fn session_header(s: Session, is_today: bool, is_last: bool) -> Seq<char> {
    "\n  Session "@ + dec_nat(s.index as nat) + session_state_text(s, is_today, is_last) + "\n"@
}

/// The pieces of one session's block in `status`: its heading, events and
/// times.
pub open spec fn session_block(s: Session, is_today: bool, is_last: bool, end: u64) -> Seq<(Seq<char>, Option<int>)> {
    let total = session_total(s.events@, end);
    let paused = session_paused(s.events@, end);
    seq![
        text_piece(session_header(s, is_today, is_last) + event_lines(s.events@) + "  ---------------------\n    Total:  "@),
        time_piece(total),
        text_piece("\n    Paused: "@),
        time_piece(paused),
        text_piece("\n    Worked: "@),
        time_piece(total - paused),
        text_piece("\n"@),
    ]
}

/// The blocks of the first `n` sessions.
pub open spec fn session_blocks(ss: Seq<Session>, n: nat, is_today: bool, running: bool, now: ClockTime) -> Seq<(Seq<char>, Option<int>)>
    decreases n,
{
    if n == 0 || n > ss.len() {
        Seq::empty()
    } else {
        session_blocks(ss, (n - 1) as nat, is_today, running, now) + session_block(
            ss[n - 1],
            is_today,
            n == ss.len(),
            end_for(ss.len(), n - 1, running, now),
        )
    }
}

/// What `status` prints for the record of `date`, as pieces of text and
/// durations: each session with its events and times, the day's totals, and
/// the per-task summary. Open spans count up to `now` when the day is today
/// and its last session is not stopped, else up to 23:59:59.
pub open spec fn status_report(record: Option<DayRecord>, date: Date, today: Date, now: ClockTime) -> Seq<(Seq<char>, Option<int>)> {
    match record {
        None => seq![text_piece("No record for "@ + long_date_text(date) + "\n"@)],
        Some(r) => {
            let is_today = date == today;
            let running = is_today && r.active();
            let total = day_measure(Measure::Total, &r, running, now);
            let paused = day_measure(Measure::Paused, &r, running, now);
            let worked = day_measure(Measure::Worked, &r, running, now);
            let indicator = if is_today && r.paused() {
                " (paused)"@
            } else if is_today && r.tracking() {
                " (tracking)"@
            } else {
                Seq::<char>::empty()
            };
            seq![text_piece("-- "@ + long_date_text(date) + " --\n"@)] + session_blocks(
                r.sessions@,
                r.sessions@.len(),
                is_today,
                running,
                now,
            ) + seq![
                text_piece("\n  =====================\n  Total Time:   "@),
                time_piece(total),
                text_piece(indicator + "\n  Total Paused: "@),
                time_piece(paused),
                text_piece("\n  Total Worked: "@),
                time_piece(worked),
                text_piece("\n"@),
            ] + summary_pieces(day_task_totals(r, r.date == today, now), running_task(r), worked)
        },
    }
}

/// What `status` prints, durations in hours and minutes.
pub open spec fn status_text(record: Option<DayRecord>, date: Date, today: Date, now: ClockTime) -> Seq<char> {
    pieces_text(status_report(record, date, today, now))
}

fn push_session_header(out: &mut String, s: &Session, is_today: bool, is_last: bool)
    ensures
        final(out)@ == old(out)@ + session_header(*s, is_today, is_last),
{
    out.append("\n  Session ");
    push_nat(out, s.index as u128);
    if is_today && is_last && s.is_active() {
        out.append(" (tracking)");
    } else if s.is_stopped() {
        out.append(" (stopped)");
    } else {
        out.append(" (paused)");
    }
    out.append("\n");
    assert(out@ =~= old(out)@ + session_header(*s, is_today, is_last));
}

fn push_event_lines(out: &mut String, evs: &Vec<Event>)
    ensures
        final(out)@ == old(out)@ + event_lines(evs@),
{
    let mut k: usize = 0;
    assert(evs@.take(0) =~= Seq::<Event>::empty());
    assert(out@ =~= old(out)@ + event_lines(evs@.take(0)));
    while k < evs.len()
        invariant
            k <= evs@.len(),
            out@ == old(out)@ + event_lines(evs@.take(k as int)),
        decreases evs@.len() - k,
    {
        proof {
            assert(evs@.take(k + 1).drop_last() =~= evs@.take(k as int));
        }
        let ghost before = out@;
        out.append("    ");
        push_clock(out, evs[k].time);
        out.append(" ");
        let label = evs[k].kind.label();
        out.append(label.as_str());
        out.append("\n");
        proof {
            assert(out@ =~= before + "    "@ + clock_text(evs@[k as int].time) + " "@ + kind_label(evs@[k as int].kind) + "\n"@);
            assert(out@ =~= old(out)@ + event_lines(evs@.take(k + 1)));
        }
        k = k + 1;
    }
    assert(evs@.take(k as int) =~= evs@);
}

fn push_session_block(out: &mut Vec<Piece>, s: &Session, is_today: bool, is_last: bool, up_to_now: bool, now: ClockTime)
    requires
        s.events@.len() <= RECORD_LIMIT,
    ensures
        pieces_view(final(out)@) == pieces_view(old(out)@) + session_block(
            *s,
            is_today,
            is_last,
            if up_to_now { now.nanos } else { END_OF_DAY_NANOS },
        ),
{
    let ghost end = if up_to_now { now.nanos } else { END_OF_DAY_NANOS };
    let mut head = String::new();
    push_session_header(&mut head, s, is_today, is_last);
    push_event_lines(&mut head, &s.events);
    head.append("  ---------------------\n    Total:  ");
    let st = calculate_session_total(s, up_to_now, now);
    let sp = calculate_session_paused(s, up_to_now, now);
    proof {
        lemma_measure_bound(Measure::Total, s.events@, end);
        lemma_measure_bound(Measure::Paused, s.events@, end);
        assert(3 * s.events@.len() * span_bound() <= 3 * RECORD_LIMIT * span_bound()) by (nonlinear_arith)
            requires
                s.events@.len() <= RECORD_LIMIT,
        ;
        assert(head@ =~= session_header(*s, is_today, is_last) + event_lines(s.events@) + "  ---------------------\n    Total:  "@);
    }
    push_text(out, head);
    push_time(out, st);
    push_text(out, String::from_str("\n    Paused: "));
    push_time(out, sp);
    push_text(out, String::from_str("\n    Worked: "));
    push_time(out, Duration { nanos: st.nanos - sp.nanos });
    push_text(out, String::from_str("\n"));
    assert(pieces_view(out@) =~= pieces_view(old(out)@) + session_block(*s, is_today, is_last, end));
}

/// Everything `status` prints for the record of `date` (`None` when there is
/// none), on day `today` at `now`, as pieces of text and durations; the
/// printer writes the durations in the unit asked for.
#[verifier::rlimit(40)]
#[verifier::spinoff_prover]
pub fn status_pieces(record: Option<&DayRecord>, date: Date, today: Date, now: ClockTime) -> (out: Vec<Piece>)
    requires
        date.valid(),
        record matches Some(r) ==> fits(r),
    ensures
        pieces_view(out@) == status_report(
            match record {
                Some(r) => Some(*r),
                None => None,
            },
            date,
            today,
            now,
        ),
{
    let mut out: Vec<Piece> = Vec::new();
    let r = match record {
        None => {
            let mut t = String::from_str("No record for ");
            push_long_date(&mut t, date);
            t.append("\n");
            push_text(&mut out, t);
            assert(pieces_view(out@) =~= status_report(None, date, today, now));
            return out;
        },
        Some(r) => r,
    };
    let is_today = date == today;
    let running = is_today && r.has_active_session();
    let total = calculate_total_time(r, running, now);
    let paused = calculate_total_paused(r, running, now);
    let worked = calculate_worked(r, running, now);
    proof {
        lemma_day_measure_bound(Measure::Worked, r, running, now);
    }
    let mut t = String::from_str("-- ");
    push_long_date(&mut t, date);
    t.append(" --\n");
    push_text(&mut out, t);
    let ghost head = pieces_view(out@);
    let count = r.sessions.len();
    let mut i: usize = 0;
    assert(pieces_view(out@) =~= head + session_blocks(r.sessions@, 0, is_today, running, now));
    while i < count
        invariant
            count == r.sessions@.len(),
            i <= count,
            fits(r),
            pieces_view(out@) == head + session_blocks(r.sessions@, i as nat, is_today, running, now),
        decreases count - i,
    {
        let s = &r.sessions[i];
        let is_last = i + 1 == count;
        proof {
            lemma_size_monotone(r.sessions@, (i + 1) as nat, count as nat);
            assert(size_upto(r.sessions@, (i + 1) as nat) >= s.events@.len());
        }
        push_session_block(&mut out, s, is_today, is_last, running && is_last, now);
        proof {
            assert(pieces_view(out@) =~= head + session_blocks(r.sessions@, (i + 1) as nat, is_today, running, now));
        }
        i = i + 1;
    }
    push_text(&mut out, String::from_str("\n  =====================\n  Total Time:   "));
    push_time(&mut out, total);
    let mut t = String::new();
    if is_today && r.is_paused() {
        t.append(" (paused)");
    } else if is_today && r.is_tracking() {
        t.append(" (tracking)");
    }
    t.append("\n  Total Paused: ");
    push_text(&mut out, t);
    push_time(&mut out, paused);
    push_text(&mut out, String::from_str("\n  Total Worked: "));
    push_time(&mut out, worked);
    push_text(&mut out, String::from_str("\n"));
    let summary = task_summary_pieces(r, worked, today, now);
    append_pieces(&mut out, summary);
    assert(pieces_view(out@) =~= status_report(Some(*r), date, today, now));
    out
}

/// Everything `status` prints (one string, lines ending in `\n`) for the
/// record of `date` (`None` when there is none), on day `today` at `now`,
/// durations in hours and minutes.
pub fn cmd_status(record: Option<&DayRecord>, date: Date, today: Date, now: ClockTime) -> (out: String)
    requires
        date.valid(),
        record matches Some(r) ==> fits(r),
    ensures
        out@ == status_text(
            match record {
                Some(r) => Some(*r),
                None => None,
            },
            date,
            today,
            now,
        ),
{
    let pieces = status_pieces(record, date, today, now);
    join_pieces(&pieces)
}

proof fn lemma_session_blocks(ss: Seq<Session>, n: nat, is_today: bool, running: bool, now: ClockTime)
    requires
        n <= ss.len(),
    ensures
        session_blocks(ss, n, is_today, running, now).len() == 7 * n,
        forall|j: int, k: int|
            0 <= j < n && 0 <= k < 7 ==> #[trigger] session_blocks(ss, n, is_today, running, now)[7 * j + k]
                == session_block(ss[j], is_today, j + 1 == ss.len(), end_for(ss.len(), j, running, now))[k],
    decreases n,
{
    if n > 0 {
        lemma_session_blocks(ss, (n - 1) as nat, is_today, running, now);
        let prev = session_blocks(ss, (n - 1) as nat, is_today, running, now);
        let b = session_block(ss[n - 1], is_today, n == ss.len(), end_for(ss.len(), n - 1, running, now));
        assert forall|j: int, k: int| 0 <= j < n && 0 <= k < 7 implies #[trigger] session_blocks(
            ss,
            n,
            is_today,
            running,
            now,
        )[7 * j + k] == session_block(ss[j], is_today, j + 1 == ss.len(), end_for(ss.len(), j, running, now))[k] by {
            if j < n - 1 {
                assert(session_blocks(ss, n, is_today, running, now)[7 * j + k] == prev[7 * j + k]);
            } else {
                assert(session_blocks(ss, n, is_today, running, now)[7 * j + k] == b[k]);
            }
        }
    }
}

/// `status` on today's record whose last session is not stopped (running or
/// on a break) counts open time up to `now`: the day's total, paused and
/// worked time are taken with the last session ending now, and that
/// session's own total runs from its first event to now.
pub proof fn law_status_counts_open_time_up_to_now(r: DayRecord, today: Date, now: ClockTime)
    requires
        r.sessions@.len() > 0,
        !r.sessions@.last().stopped(),
    ensures
        ({
            let rep = status_report(Some(r), today, today, now);
            let n = r.sessions@.len() as int;
            &&& rep[7 * n + 2] == time_piece(day_measure(Measure::Total, &r, true, now))
            &&& rep[7 * n + 4] == time_piece(day_measure(Measure::Paused, &r, true, now))
            &&& rep[7 * n + 6] == time_piece(day_measure(Measure::Worked, &r, true, now))
            &&& r.sessions@.last().events@.len() > 0 ==> rep[7 * (n - 1) + 2] == time_piece(
                now.nanos - r.sessions@.last().events@[0].time.nanos,
            )
        }),
{
    let n = r.sessions@.len();
    lemma_session_blocks(r.sessions@, n, true, true, now);
    let blocks = session_blocks(r.sessions@, n, true, true, now);
    assert(blocks[7 * (n - 1) + 1] == session_block(r.sessions@[n - 1], true, true, end_for(n, n - 1, true, now))[1]);
}

} // verus!
