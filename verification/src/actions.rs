//! Go, Pause and Stop applied to the record of a day.

use vstd::prelude::*;
use crate::clock::{clock_text, duration_text, format_duration, push_clock, ClockTime};
use crate::model::{DayRecord, Event, EventKind, Session};
use crate::text::{dec_nat, push_nat};
use crate::timer::{day_measure, day_sum, fits, record_size, size_upto, Measure, RECORD_LIMIT};

verus! {

/// `new` is `old` with `e` appended to the events of its last session.
pub open spec fn event_appended(old: DayRecord, new: DayRecord, e: Event) -> bool {
    &&& old.sessions@.len() > 0
    &&& new.date == old.date
    &&& new.sessions@.len() == old.sessions@.len()
    &&& forall|i: int| 0 <= i < old.sessions@.len() - 1 ==> new.sessions@[i] == old.sessions@[i]
    &&& new.sessions@.last().index == old.sessions@.last().index
    &&& new.sessions@.last().events@ == old.sessions@.last().events@.push(e)
    &&& new.sessions@.last().task_events@ == old.sessions@.last().task_events@
}

/// `new` is `old` with one more session, of index `index`, holding only `e`.
pub open spec fn session_opened(old: DayRecord, new: DayRecord, index: u32, e: Event) -> bool {
    &&& new.date == old.date
    &&& new.sessions@.len() == old.sessions@.len() + 1
    &&& forall|i: int| 0 <= i < old.sessions@.len() ==> new.sessions@[i] == old.sessions@[i]
    &&& new.sessions@.last().index == index
    &&& new.sessions@.last().events@ == seq![e]
    &&& new.sessions@.last().task_events@.len() == 0
}

pub proof fn lemma_size_prefix(a: Seq<Session>, b: Seq<Session>, n: nat)
    requires
        n <= a.len(),
        n <= b.len(),
        forall|i: int| 0 <= i < n ==> a[i] == b[i],
    ensures
        size_upto(a, n) == size_upto(b, n),
    decreases n,
{
    if n > 0 {
        lemma_size_prefix(a, b, (n - 1) as nat);
    }
}

/// Appends `e` to the events of the last session.
fn append_event(record: &mut DayRecord, e: Event)
    requires
        old(record).sessions@.len() > 0,
    ensures
        event_appended(*old(record), *final(record), e),
        record_size(&*final(record)) == record_size(&*old(record)) + 1,
{
    let mut s = record.sessions.pop().unwrap();
    s.events.push(e);
    record.sessions.push(s);
    proof {
        let n = old(record).sessions@.len();
        lemma_size_prefix(old(record).sessions@, record.sessions@, (n - 1) as nat);
    }
}

/// Opens a new session holding only `e`.
fn open_session(record: &mut DayRecord, index: u32, e: Event)
    ensures
        session_opened(*old(record), *final(record), index, e),
        record_size(&*final(record)) == record_size(&*old(record)) + 1,
{
    let mut s = Session::new(index);
    s.events.push(e);
    record.sessions.push(s);
    proof {
        let n = old(record).sessions@.len();
        lemma_size_prefix(old(record).sessions@, record.sessions@, n);
        assert(record.sessions@.last().events@ =~= seq![e]);
    }
}

/// `"Session <index>: "`.
pub open spec fn session_prefix(index: u32) -> Seq<char> {
    "Session "@ + dec_nat(index as nat) + ": "@
}

pub open spec fn not_tracking_text() -> Seq<char> {
    "Not tracking yet. Use 'go' first."@
}

pub open spec fn already_stopped_text(index: u32) -> Seq<char> {
    "Session "@ + dec_nat(index as nat) + " is already stopped. Use 'go' to start a new one."@
}

/// The message of a Go that opened session `index` at `now`.
pub open spec fn started_text(index: u32, now: ClockTime) -> Seq<char> {
    if index == 0 {
        "Session 0: Started tracking at "@ + clock_text(now)
    } else {
        session_prefix(index) + "Started at "@ + clock_text(now)
    }
}

fn push_session_prefix(s: &mut String, index: u32)
    ensures
        final(s)@ == old(s)@ + session_prefix(index),
{
    s.append("Session ");
    push_nat(s, index as u128);
    s.append(": ");
    assert(s@ =~= old(s)@ + session_prefix(index));
}

fn already_stopped(index: u32) -> (s: String)
    ensures
        s@ == already_stopped_text(index),
{
    let mut s = String::from_str("Session ");
    push_nat(&mut s, index as u128);
    s.append(" is already stopped. Use 'go' to start a new one.");
    assert(s@ =~= already_stopped_text(index));
    s
}

/// What Go at `now` does to `old`, giving `new`, the message and whether
/// anything changed: a running session stays as it is; a stopped one (or
/// none) is followed by a new session; a session on a break resumes.
pub open spec fn go_post(old: DayRecord, new: DayRecord, msg: Seq<char>, changed: bool, now: ClockTime) -> bool {
    let go = Event { kind: EventKind::Go, time: now };
    &&& record_size(&new) <= record_size(&old) + 1
    &&& new.tracking()
    &&& old.tracking() ==> new == old && !changed && msg == "Already tracking."@
    &&& !old.tracking() && !old.active() ==> changed && session_opened(old, new, old.next_index(), go)
        && msg == started_text(old.next_index(), now)
    &&& !old.tracking() && old.active() ==> changed && event_appended(old, new, go) && msg
        == session_prefix(old.sessions@.last().index) + "Resumed at "@ + clock_text(now)
}

/// Starts or resumes tracking at `now`.
///
/// Returns the message, and whether the record changed (and so is to be
/// saved).
pub fn execute_go(record: &mut DayRecord, now: ClockTime) -> (r: (String, bool))
    ensures
        go_post(*old(record), *final(record), r.0@, r.1, now),
{
    if record.is_tracking() {
        return (String::from_str("Already tracking."), false);
    }
    let go = Event { kind: EventKind::Go, time: now };
    if !record.has_active_session() {
        let index = record.next_session_index();
        open_session(record, index, go);
        let mut msg = String::new();
        if index == 0 {
            msg.append("Session 0: Started tracking at ");
        } else {
            push_session_prefix(&mut msg, index);
            msg.append("Started at ");
        }
        push_clock(&mut msg, now);
        assert(msg@ =~= started_text(index, now));
        (msg, true)
    } else {
        let index = record.sessions[record.sessions.len() - 1].index;
        append_event(record, go);
        let mut msg = String::new();
        push_session_prefix(&mut msg, index);
        msg.append("Resumed at ");
        push_clock(&mut msg, now);
        assert(msg@ =~= session_prefix(index) + "Resumed at "@ + clock_text(now));
        (msg, true)
    }
}

/// The message after closing a session's running span with a Pause or Stop.
pub open spec fn closed_text(kind: EventKind, index: u32, now: ClockTime, worked: int) -> Seq<char> {
    if kind == EventKind::Pause {
        session_prefix(index) + "Paused at "@ + clock_text(now) + ". Worked so far: "@
            + duration_text(worked)
    } else {
        session_prefix(index) + "Stopped at "@ + clock_text(now) + ". Total today: "@
            + duration_text(worked)
    }
}

fn closed_message(kind: EventKind, index: u32, now: ClockTime, record: &DayRecord) -> (s: String)
    requires
        record_size(record) <= 2 * RECORD_LIMIT,
    ensures
        s@ == closed_text(kind, index, now, day_measure(Measure::Worked, record, false, now)),
{
    let worked = day_sum(Measure::Worked, record, false, now);
    let mut s = String::new();
    push_session_prefix(&mut s, index);
    if kind == EventKind::Pause {
        s.append("Paused at ");
        push_clock(&mut s, now);
        s.append(". Worked so far: ");
    } else {
        s.append("Stopped at ");
        push_clock(&mut s, now);
        s.append(". Total today: ");
    }
    let d = format_duration(worked);
    s.append(d.as_str());
    assert(s@ =~= closed_text(kind, index, now, day_measure(Measure::Worked, record, false, now)));
    s
}

/// What Pause at `now` does: only a running session takes it; the message
/// then tells the worked time of the day so far.
pub open spec fn pause_post(old: DayRecord, new: DayRecord, msg: Seq<char>, changed: bool, now: ClockTime) -> bool {
    &&& record_size(&new) <= record_size(&old) + 1
    &&& changed <==> old.tracking()
    &&& !changed ==> new == old
    &&& old.sessions@.len() == 0 ==> msg == not_tracking_text()
    &&& old.sessions@.len() > 0 && old.sessions@.last().stopped() ==> msg == already_stopped_text(
        old.sessions@.last().index,
    )
    &&& old.active() && !old.tracking() ==> msg == "Already paused."@
    &&& old.tracking() ==> event_appended(old, new, Event { kind: EventKind::Pause, time: now })
        && msg == closed_text(
        EventKind::Pause,
        old.sessions@.last().index,
        now,
        day_measure(Measure::Worked, &new, false, now),
    )
}

/// Pauses the running session at `now`.
///
/// Returns the message, and whether the record changed.
pub fn execute_pause(record: &mut DayRecord, now: ClockTime) -> (r: (String, bool))
    requires
        fits(&*old(record)),
    ensures
        pause_post(*old(record), *final(record), r.0@, r.1, now),
{
    if record.sessions.len() == 0 {
        return (String::from_str("Not tracking yet. Use 'go' first."), false);
    }
    let last = record.sessions.len() - 1;
    let index = record.sessions[last].index;
    if record.sessions[last].is_stopped() {
        return (already_stopped(index), false);
    }
    if !record.sessions[last].is_active() {
        return (String::from_str("Already paused."), false);
    }
    append_event(record, Event { kind: EventKind::Pause, time: now });
    let msg = closed_message(EventKind::Pause, index, now, record);
    (msg, true)
}

/// What Stop at `now` does: a session not yet stopped takes it, running or on
/// a break; the message then tells the worked time of the day.
pub open spec fn stop_post(old: DayRecord, new: DayRecord, msg: Seq<char>, changed: bool, now: ClockTime) -> bool {
    &&& record_size(&new) <= record_size(&old) + 1
    &&& changed <==> old.active()
    &&& !changed ==> new == old
    &&& old.sessions@.len() == 0 ==> msg == not_tracking_text()
    &&& old.sessions@.len() > 0 && old.sessions@.last().stopped() ==> msg == already_stopped_text(
        old.sessions@.last().index,
    )
    &&& old.active() ==> event_appended(old, new, Event { kind: EventKind::Stop, time: now }) && msg
        == closed_text(
        EventKind::Stop,
        old.sessions@.last().index,
        now,
        day_measure(Measure::Worked, &new, false, now),
    )
}

/// Stops the current session at `now`.
///
/// Returns the message, and whether the record changed.
pub fn execute_stop(record: &mut DayRecord, now: ClockTime) -> (r: (String, bool))
    requires
        fits(&*old(record)),
    ensures
        stop_post(*old(record), *final(record), r.0@, r.1, now),
{
    if record.sessions.len() == 0 {
        return (String::from_str("Not tracking yet. Use 'go' first."), false);
    }
    let last = record.sessions.len() - 1;
    let index = record.sessions[last].index;
    if record.sessions[last].is_stopped() {
        return (already_stopped(index), false);
    }
    append_event(record, Event { kind: EventKind::Stop, time: now });
    let msg = closed_message(EventKind::Stop, index, now, record);
    (msg, true)
}

/// Applies Go, Pause or Stop at `now`.
///
/// Returns the message, and whether the record changed.
pub fn execute_action(record: &mut DayRecord, action: EventKind, now: ClockTime) -> (r: (String, bool))
    requires
        fits(&*old(record)),
    ensures
        action == EventKind::Go ==> go_post(*old(record), *final(record), r.0@, r.1, now),
        action == EventKind::Pause ==> pause_post(*old(record), *final(record), r.0@, r.1, now),
        action == EventKind::Stop ==> stop_post(*old(record), *final(record), r.0@, r.1, now),
{
    match action {
        EventKind::Go => execute_go(record, now),
        EventKind::Pause => execute_pause(record, now),
        EventKind::Stop => execute_stop(record, now),
    }
}

} // verus!

verus! {

/// Go twice: the second Go finds the day tracking and changes nothing.
pub proof fn law_go_is_idempotent(r0: DayRecord, r1: DayRecord, r2: DayRecord, m1: Seq<char>, c1: bool, m2: Seq<char>, c2: bool, t1: ClockTime, t2: ClockTime)
    requires
        go_post(r0, r1, m1, c1, t1),
        go_post(r1, r2, m2, c2, t2),
    ensures
        r2 == r1,
        !c2,
        m2 == "Already tracking."@,
{
}

/// After a Stop the day has no open session: Pause and Stop then change
/// nothing and say the session is already stopped.
pub proof fn law_stop_closes_session(r0: DayRecord, r1: DayRecord, r2: DayRecord, m1: Seq<char>, c1: bool, m2: Seq<char>, c2: bool, t1: ClockTime, t2: ClockTime, pause: bool)
    requires
        stop_post(r0, r1, m1, c1, t1),
        c1,
        pause ==> pause_post(r1, r2, m2, c2, t2),
        !pause ==> stop_post(r1, r2, m2, c2, t2),
    ensures
        !r1.active(),
        r2 == r1,
        !c2,
        m2 == already_stopped_text(r1.sessions@.last().index),
{
}

/// Go after a Stop opens a new session, numbered one past the stopped one,
/// that starts with this Go; the stopped session stays as it was.
pub proof fn law_go_after_stop_opens_next_session(r0: DayRecord, r1: DayRecord, r2: DayRecord, m1: Seq<char>, m2: Seq<char>, c2: bool, t1: ClockTime, t2: ClockTime)
    requires
        stop_post(r0, r1, m1, true, t1),
        go_post(r1, r2, m2, c2, t2),
    ensures
        c2,
        r2.sessions@.len() == r1.sessions@.len() + 1,
        r2.sessions@[r1.sessions@.len() - 1] == r1.sessions@.last(),
        r2.sessions@.last().index == (if r1.sessions@.last().index == u32::MAX {
            0
        } else {
            r1.sessions@.last().index + 1
        }),
        r2.sessions@.last().events@ == seq![Event { kind: EventKind::Go, time: t2 }],
        m2 == started_text(r2.sessions@.last().index, t2),
{
}

/// Go after a Pause resumes the same session: a Go joins its events.
pub proof fn law_go_after_pause_resumes(r0: DayRecord, r1: DayRecord, r2: DayRecord, m1: Seq<char>, m2: Seq<char>, c2: bool, t1: ClockTime, t2: ClockTime)
    requires
        pause_post(r0, r1, m1, true, t1),
        go_post(r1, r2, m2, c2, t2),
    ensures
        c2,
        event_appended(r1, r2, Event { kind: EventKind::Go, time: t2 }),
        m2 == session_prefix(r1.sessions@.last().index) + "Resumed at "@ + clock_text(t2),
{
}

/// `a` is `b` or an earlier part of it.
pub open spec fn is_prefix(a: Seq<Event>, b: Seq<Event>) -> bool {
    a.len() <= b.len() && b.take(a.len() as int) == a
}

/// Go, Pause and Stop only add: every event already recorded stays where it
/// was, and no session goes away.
pub proof fn law_actions_only_append(kind: EventKind, r0: DayRecord, r1: DayRecord, m: Seq<char>, c: bool, t: ClockTime)
    requires
        kind == EventKind::Go ==> go_post(r0, r1, m, c, t),
        kind == EventKind::Pause ==> pause_post(r0, r1, m, c, t),
        kind == EventKind::Stop ==> stop_post(r0, r1, m, c, t),
    ensures
        r1.date == r0.date,
        r1.sessions@.len() >= r0.sessions@.len(),
        forall|i: int|
            0 <= i < r0.sessions@.len() ==> is_prefix(#[trigger] r0.sessions@[i].events@, r1.sessions@[i].events@)
                && r1.sessions@[i].index == r0.sessions@[i].index,
{
    assert forall|i: int| 0 <= i < r0.sessions@.len() implies is_prefix(#[trigger] r0.sessions@[i].events@, r1.sessions@[i].events@)
        && r1.sessions@[i].index == r0.sessions@[i].index by {
        assert(r1.sessions@[i].events@.take(r0.sessions@[i].events@.len() as int) =~= r0.sessions@[i].events@);
    }
}

/// Which event may follow which in a session: after a Go a Pause or a Stop,
/// after a Pause a Go or a Stop, after a Stop nothing.
pub open spec fn may_follow(prev: EventKind, next: EventKind) -> bool {
    match prev {
        EventKind::Go => next != EventKind::Go,
        EventKind::Pause => next != EventKind::Pause,
        EventKind::Stop => false,
    }
}

/// The events of a session in the order tracking makes them: a Go, then
/// Pause and Go in turn, and at most one Stop, at the end
/// (`Go (Pause Go)* Pause? Stop?`).
pub open spec fn session_shape(evs: Seq<Event>) -> bool {
    &&& evs.len() > 0
    &&& evs[0].kind == EventKind::Go
    &&& forall|i: int, j: int|
        #![trigger evs[i], evs[j]]
        0 <= i && j == i + 1 && j < evs.len() ==> may_follow(evs[i].kind, evs[j].kind)
}

/// A day as tracking keeps it: sessions numbered from 0 in order, every
/// session but the last stopped, and each session's events in tracking
/// order.
pub open spec fn day_shape(r: DayRecord) -> bool {
    &&& forall|i: int| 0 <= i < r.sessions@.len() ==> (#[trigger] r.sessions@[i]).index == i
    &&& forall|i: int| 0 <= i < r.sessions@.len() - 1 ==> (#[trigger] r.sessions@[i]).stopped()
    &&& forall|i: int| 0 <= i < r.sessions@.len() ==> session_shape(#[trigger] r.sessions@[i].events@)
}

proof fn lemma_shape_push(evs: Seq<Event>, e: Event)
    requires
        session_shape(evs),
        may_follow(evs.last().kind, e.kind),
    ensures
        session_shape(evs.push(e)),
{
    let n = evs.push(e);
    assert forall|i: int, j: int| 0 <= i && j == i + 1 && j < n.len() implies may_follow(
        #[trigger] n[i].kind,
        #[trigger] n[j].kind,
    ) by {
        if j < evs.len() {
            assert(n[i] == evs[i] && n[j] == evs[j]);
        } else {
            assert(n[i] == evs.last());
        }
    }
}

/// Go, Pause and Stop keep the shape of a day: sessions numbered from 0,
/// all but the last stopped, each `Go (Pause Go)* Pause? Stop?`. (The day
/// holds fewer sessions than a session number can count.)
pub proof fn law_actions_keep_day_shape(kind: EventKind, r0: DayRecord, r1: DayRecord, m: Seq<char>, c: bool, t: ClockTime)
    requires
        day_shape(r0),
        r0.sessions@.len() < u32::MAX,
        kind == EventKind::Go ==> go_post(r0, r1, m, c, t),
        kind == EventKind::Pause ==> pause_post(r0, r1, m, c, t),
        kind == EventKind::Stop ==> stop_post(r0, r1, m, c, t),
    ensures
        day_shape(r1),
{
    let n = r0.sessions@.len();
    if c {
        if n > 0 {
            let last = r0.sessions@[n - 1];
            assert(session_shape(last.events@));
        }
        if kind == EventKind::Go && !r0.active() {
            assert forall|i: int| 0 <= i < r1.sessions@.len() implies session_shape(#[trigger] r1.sessions@[i].events@) by {
                if i < n {
                    assert(r1.sessions@[i] == r0.sessions@[i]);
                } else {
                    assert(r1.sessions@[i].events@ == seq![Event { kind: EventKind::Go, time: t }]);
                }
            }
            assert forall|i: int| 0 <= i < r1.sessions@.len() implies (#[trigger] r1.sessions@[i]).index == i by {
                if i < n {
                    assert(r1.sessions@[i] == r0.sessions@[i]);
                } else if n > 0 {
                    assert(r0.sessions@[n - 1].index == n - 1);
                }
            }
            assert forall|i: int| 0 <= i < r1.sessions@.len() - 1 implies (#[trigger] r1.sessions@[i]).stopped() by {
                assert(r1.sessions@[i] == r0.sessions@[i]);
            }
        } else {
            let k = if kind == EventKind::Go { EventKind::Go } else if kind == EventKind::Pause { EventKind::Pause } else { EventKind::Stop };
            let e = Event { kind: k, time: t };
            assert(event_appended(r0, r1, e));
            lemma_shape_push(r0.sessions@.last().events@, e);
            assert forall|i: int| 0 <= i < r1.sessions@.len() implies session_shape(#[trigger] r1.sessions@[i].events@)
                && r1.sessions@[i].index == i by {
                if i < n - 1 {
                    assert(r1.sessions@[i] == r0.sessions@[i]);
                }
            }
            assert forall|i: int| 0 <= i < r1.sessions@.len() - 1 implies (#[trigger] r1.sessions@[i]).stopped() by {
                assert(r1.sessions@[i] == r0.sessions@[i]);
            }
        }
    }
}

} // verus!
