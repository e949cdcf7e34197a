//! Worked, paused and total time of sessions and of whole days.

use vstd::prelude::*;
use crate::clock::{ClockTime, Duration, END_OF_DAY_NANOS};
use crate::model::{DayRecord, Event, EventKind, Session};

verus! {

/// The most events and task spans a record may hold in all: more than fit in
/// the memory of any machine, since each takes more than sixteen bytes.
pub const RECORD_LIMIT: u64 = 1_152_921_504_606_846_976;

/// A bound on one span between two times of day.
pub open spec fn span_bound() -> int {
    0x1_0000_0000_0000_0000
}

/// Events and task spans of the first `n` sessions.
pub open spec fn size_upto(ss: Seq<Session>, n: nat) -> nat
    decreases n,
{
    if n == 0 || n > ss.len() {
        0
    } else {
        size_upto(ss, (n - 1) as nat) + ss[n - 1].events@.len() + ss[n - 1].task_events@.len()
    }
}

/// All events and task spans of a record.
pub open spec fn record_size(r: &DayRecord) -> nat {
    size_upto(r.sessions@, r.sessions@.len())
}

/// A record that fits in memory (see `RECORD_LIMIT`).
pub open spec fn fits(r: &DayRecord) -> bool {
    record_size(r) <= RECORD_LIMIT
}

/// Walks the events: the worked time of the closed Go..Pause/Stop spans, and
/// the time of a Go that no Pause or Stop has closed yet.
pub open spec fn scan(evs: Seq<Event>) -> (int, Option<u64>)
    decreases evs.len(),
{
    if evs.len() == 0 {
        (0, None)
    } else {
        let prev = scan(evs.drop_last());
        let e = evs.last();
        match e.kind {
            EventKind::Go => (prev.0, Some(e.time.nanos)),
            _ => match prev.1 {
                Some(start) => (prev.0 + e.time.nanos - start, None),
                None => (prev.0, None),
            },
        }
    }
}

/// Worked time of a session: its closed spans, and a span still open counted
/// up to `end`.
pub open spec fn session_worked(evs: Seq<Event>, end: u64) -> int {
    let s = scan(evs);
    match s.1 {
        Some(start) => s.0 + end - start,
        None => s.0,
    }
}

/// Total time of a session: from its first event to its Stop, or to `end`
/// while it has not been stopped.
pub open spec fn session_total(evs: Seq<Event>, end: u64) -> int {
    if evs.len() == 0 {
        0
    } else if evs.last().kind == EventKind::Stop {
        evs.last().time.nanos - evs[0].time.nanos
    } else {
        end - evs[0].time.nanos
    }
}

/// Paused time of a session: the part of its total that was not worked.
pub open spec fn session_paused(evs: Seq<Event>, end: u64) -> int {
    session_total(evs, end) - session_worked(evs, end)
}

/// Where open spans of the session at position `i` (of `count`) end: now for
/// the last session of a day still running, 23:59:59 otherwise.
pub open spec fn end_for(count: nat, i: int, up_to_now: bool, now: ClockTime) -> u64 {
    if up_to_now && i + 1 == count {
        now.nanos
    } else {
        END_OF_DAY_NANOS
    }
}

/// Which of the three measures of a session.
pub enum Measure {
    Worked,
    Total,
    Paused,
}

pub open spec fn measure(m: Measure, evs: Seq<Event>, end: u64) -> int {
    match m {
        Measure::Worked => session_worked(evs, end),
        Measure::Total => session_total(evs, end),
        Measure::Paused => session_paused(evs, end),
    }
}

/// A measure summed over the first `n` sessions.
pub open spec fn sum_upto(m: Measure, ss: Seq<Session>, n: nat, up_to_now: bool, now: ClockTime) -> int
    decreases n,
{
    if n == 0 || n > ss.len() {
        0
    } else {
        sum_upto(m, ss, (n - 1) as nat, up_to_now, now) + measure(
            m,
            ss[n - 1].events@,
            end_for(ss.len(), n - 1, up_to_now, now),
        )
    }
}

/// A measure summed over all sessions of a day.
pub open spec fn day_measure(m: Measure, r: &DayRecord, up_to_now: bool, now: ClockTime) -> int {
    sum_upto(m, r.sessions@, r.sessions@.len(), up_to_now, now)
}

proof fn lemma_scan_bound(evs: Seq<Event>)
    ensures
        -(evs.len() * span_bound()) <= scan(evs).0 <= evs.len() * span_bound(),
        scan(evs).1 is Some ==> evs.len() >= 1,
    decreases evs.len(),
{
    if evs.len() > 0 {
        lemma_scan_bound(evs.drop_last());
    }
}

pub proof fn lemma_measure_bound(m: Measure, evs: Seq<Event>, end: u64)
    ensures
        -(3 * evs.len() * span_bound()) <= measure(m, evs, end) <= 3 * evs.len() * span_bound(),
{
    lemma_scan_bound(evs);
    assert(0 <= evs.len() * span_bound()) by (nonlinear_arith);
    if evs.len() > 0 {
        assert(span_bound() <= evs.len() * span_bound()) by (nonlinear_arith)
            requires
                evs.len() >= 1,
        ;
    }
}

pub proof fn lemma_sum_bound(m: Measure, ss: Seq<Session>, n: nat, up_to_now: bool, now: ClockTime)
    requires
        n <= ss.len(),
    ensures
        -(3 * size_upto(ss, n) * span_bound()) <= sum_upto(m, ss, n, up_to_now, now) <= 3 * size_upto(ss, n) * span_bound(),
    decreases n,
{
    if n > 0 {
        lemma_sum_bound(m, ss, (n - 1) as nat, up_to_now, now);
        let evs = ss[n - 1].events@;
        lemma_measure_bound(m, evs, end_for(ss.len(), n - 1, up_to_now, now));
        let a = size_upto(ss, (n - 1) as nat);
        let b = evs.len();
        let c = ss[n - 1].task_events@.len();
        assert(3 * a * span_bound() + 3 * b * span_bound() <= 3 * (a + b + c) * span_bound()) by (nonlinear_arith);
    }
}

pub proof fn lemma_size_monotone(ss: Seq<Session>, i: nat, n: nat)
    requires
        i <= n <= ss.len(),
    ensures
        size_upto(ss, i) <= size_upto(ss, n),
    decreases n,
{
    if i < n {
        lemma_size_monotone(ss, i, (n - 1) as nat);
    }
}

/// Every measure of a day that fits in memory stays below 2^126 in size.
pub proof fn lemma_day_measure_bound(m: Measure, r: &DayRecord, up_to_now: bool, now: ClockTime)
    requires
        fits(r),
    ensures
        -0x4000_0000_0000_0000_0000_0000_0000_0000 <= day_measure(m, r, up_to_now, now)
            <= 0x4000_0000_0000_0000_0000_0000_0000_0000,
{
    lemma_sum_bound(m, r.sessions@, r.sessions@.len(), up_to_now, now);
    assert(3 * record_size(r) * span_bound() <= 3 * RECORD_LIMIT * span_bound()) by (nonlinear_arith)
        requires
            record_size(r) <= RECORD_LIMIT,
    ;
}

/// One measure of a session's events, counting open spans up to `end`.
fn measure_session(m: &Measure, evs: &Vec<Event>, end: ClockTime) -> (d: Duration)
    requires
        evs@.len() <= 2 * RECORD_LIMIT,
    ensures
        d.nanos == measure(*m, evs@, end.nanos),
{
    let mut total: i128 = 0;
    let mut last_go: Option<u64> = None;
    let mut i: usize = 0;
    while i < evs.len()
        invariant
            i <= evs.len(),
            evs@.len() <= 2 * RECORD_LIMIT,
            (total as int, last_go) == scan(evs@.take(i as int)),
            -(i * span_bound()) <= total <= i * span_bound(),
        decreases evs.len() - i,
    {
        proof {
            assert(i * span_bound() <= 2 * RECORD_LIMIT * span_bound()) by (nonlinear_arith)
                requires
                    i <= 2 * RECORD_LIMIT,
            ;
            lemma_scan_bound(evs@.take(i as int + 1));
            assert(evs@.take(i as int + 1).drop_last() =~= evs@.take(i as int));
        }
        let e = evs[i];
        match e.kind {
            EventKind::Go => {
                last_go = Some(e.time.nanos);
            },
            _ => {
                if let Some(start) = last_go {
                    total = total + ((e.time.nanos as i128) - (start as i128));
                    last_go = None;
                }
            },
        }
        i = i + 1;
    }
    assert(evs@.take(evs.len() as int) =~= evs@);
    proof {
        lemma_scan_bound(evs@);
        assert(evs.len() * span_bound() <= 2 * RECORD_LIMIT * span_bound()) by (nonlinear_arith)
            requires
                evs.len() <= 2 * RECORD_LIMIT,
        ;
    }
    let worked: i128 = match last_go {
        Some(start) => total + ((end.nanos as i128) - (start as i128)),
        None => total,
    };
    match m {
        Measure::Worked => Duration { nanos: worked },
        _ => {
            let span: i128 = if evs.len() == 0 {
                0
            } else if evs[evs.len() - 1].kind == EventKind::Stop {
                (evs[evs.len() - 1].time.nanos as i128) - (evs[0].time.nanos as i128)
            } else {
                (end.nanos as i128) - (evs[0].time.nanos as i128)
            };
            match m {
                Measure::Total => Duration { nanos: span },
                _ => Duration { nanos: span - worked },
            }
        },
    }
}

/// Worked time of one session; an open Go counts up to `now` when
/// `up_to_now`, else up to 23:59:59.
pub fn calculate_session_worked(session: &Session, up_to_now: bool, now: ClockTime) -> (d: Duration)
    requires
        session.events@.len() <= RECORD_LIMIT,
    ensures
        d.nanos == session_worked(session.events@, if up_to_now { now.nanos } else { END_OF_DAY_NANOS }),
{
    let end = if up_to_now { now } else { ClockTime::end_of_day() };
    measure_session(&Measure::Worked, &session.events, end)
}

/// Total time of one session (first event to Stop, or to the end of counting).
pub fn calculate_session_total(session: &Session, up_to_now: bool, now: ClockTime) -> (d: Duration)
    requires
        session.events@.len() <= RECORD_LIMIT,
    ensures
        d.nanos == session_total(session.events@, if up_to_now { now.nanos } else { END_OF_DAY_NANOS }),
{
    let end = if up_to_now { now } else { ClockTime::end_of_day() };
    measure_session(&Measure::Total, &session.events, end)
}

/// Paused time of one session: total minus worked.
pub fn calculate_session_paused(session: &Session, up_to_now: bool, now: ClockTime) -> (d: Duration)
    requires
        session.events@.len() <= RECORD_LIMIT,
    ensures
        d.nanos == session_paused(session.events@, if up_to_now { now.nanos } else { END_OF_DAY_NANOS }),
{
    let end = if up_to_now { now } else { ClockTime::end_of_day() };
    measure_session(&Measure::Paused, &session.events, end)
}

pub(crate) fn day_sum(m: Measure, record: &DayRecord, up_to_now: bool, now: ClockTime) -> (d: Duration)
    requires
        record_size(record) <= 2 * RECORD_LIMIT,
    ensures
        d.nanos == day_measure(m, record, up_to_now, now),
{
    let count = record.sessions.len();
    let mut total: i128 = 0;
    let mut i: usize = 0;
    while i < count
        invariant
            count == record.sessions@.len(),
            record_size(record) <= 2 * RECORD_LIMIT,
            i <= count,
            total == sum_upto(m, record.sessions@, i as nat, up_to_now, now),
        decreases count - i,
    {
        let end = if up_to_now && i + 1 == count {
            now
        } else {
            ClockTime::end_of_day()
        };
        proof {
            lemma_size_monotone(record.sessions@, (i + 1) as nat, count as nat);
            assert(size_upto(record.sessions@, (i + 1) as nat) >= record.sessions@[i as int].events@.len());
        }
        let part = measure_session(&m, &record.sessions[i].events, end);
        proof {
            lemma_sum_bound(m, record.sessions@, (i + 1) as nat, up_to_now, now);
            lemma_size_monotone(record.sessions@, (i + 1) as nat, count as nat);
            assert(3 * size_upto(record.sessions@, (i + 1) as nat) * span_bound() <= 6 * RECORD_LIMIT * span_bound()) by (nonlinear_arith)
                requires
                    size_upto(record.sessions@, (i + 1) as nat) <= 2 * RECORD_LIMIT,
            ;
        }
        total = total + part.nanos;
        i = i + 1;
    }
    Duration { nanos: total }
}

/// Worked time of a whole day; the open span of the last session counts up to
/// `now` when `up_to_now`.
pub fn calculate_worked(record: &DayRecord, up_to_now: bool, now: ClockTime) -> (d: Duration)
    requires
        fits(record),
    ensures
        d.nanos == day_measure(Measure::Worked, record, up_to_now, now),
{
    day_sum(Measure::Worked, record, up_to_now, now)
}

/// Total time of a whole day.
pub fn calculate_total_time(record: &DayRecord, up_to_now: bool, now: ClockTime) -> (d: Duration)
    requires
        fits(record),
    ensures
        d.nanos == day_measure(Measure::Total, record, up_to_now, now),
{
    day_sum(Measure::Total, record, up_to_now, now)
}

/// Paused time of a whole day.
pub fn calculate_total_paused(record: &DayRecord, up_to_now: bool, now: ClockTime) -> (d: Duration)
    requires
        fits(record),
    ensures
        d.nanos == day_measure(Measure::Paused, record, up_to_now, now),
{
    day_sum(Measure::Paused, record, up_to_now, now)
}

} // verus!

verus! {

/// Every session's time splits into worked and paused time: the paused time
/// of a day plus its worked time is its total time.
pub proof fn law_worked_plus_paused_is_total(r: &DayRecord, up_to_now: bool, now: ClockTime)
    ensures
        day_measure(Measure::Worked, r, up_to_now, now) + day_measure(Measure::Paused, r, up_to_now, now)
            == day_measure(Measure::Total, r, up_to_now, now),
{
    lemma_sums_split(r.sessions@, r.sessions@.len(), up_to_now, now);
}

proof fn lemma_sums_split(ss: Seq<Session>, n: nat, up_to_now: bool, now: ClockTime)
    ensures
        sum_upto(Measure::Worked, ss, n, up_to_now, now) + sum_upto(Measure::Paused, ss, n, up_to_now, now)
            == sum_upto(Measure::Total, ss, n, up_to_now, now),
    decreases n,
{
    if n > 0 {
        lemma_sums_split(ss, (n - 1) as nat, up_to_now, now);
    }
}

} // verus!

verus! {

/// Whether a record holds few enough events and task spans for the
/// arithmetic on it (see `RECORD_LIMIT`); every record that fits in memory
/// does.
pub fn record_fits(r: &DayRecord) -> (b: bool)
    ensures
        b == fits(r),
{
    let n = r.sessions.len();
    let mut total: u64 = 0;
    let mut i: usize = 0;
    while i < n
        invariant
            n == r.sessions@.len(),
            i <= n,
            total == size_upto(r.sessions@, i as nat),
            total <= RECORD_LIMIT,
        decreases n - i,
    {
        let s = &r.sessions[i];
        let ev = s.events.len() as u64;
        let te = s.task_events.len() as u64;
        if ev > RECORD_LIMIT - total || te > RECORD_LIMIT - total - ev {
            proof {
                lemma_size_monotone(r.sessions@, (i + 1) as nat, n as nat);
            }
            return false;
        }
        total = total + ev + te;
        i = i + 1;
    }
    true
}

} // verus!

verus! {

/// The events come in the order of their times.
pub open spec fn chronological(evs: Seq<Event>) -> bool {
    forall|i: int, j: int| 0 <= i <= j < evs.len() ==> evs[i].time.nanos <= evs[j].time.nanos
}

proof fn lemma_scan_within(evs: Seq<Event>)
    requires
        chronological(evs),
        evs.len() > 0,
    ensures
        scan(evs).0 >= 0,
        scan(evs).1 matches Some(s) ==> evs[0].time.nanos <= s <= evs.last().time.nanos,
        scan(evs).0 + (match scan(evs).1 {
            Some(s) => evs.last().time.nanos - s,
            None => 0,
        }) <= evs.last().time.nanos - evs[0].time.nanos,
    decreases evs.len(),
{
    let prev = evs.drop_last();
    if evs.len() == 1 {
        assert(prev =~= Seq::<Event>::empty());
        assert(scan(prev) == (0int, None::<u64>));
    } else {
        assert(chronological(prev));
        lemma_scan_within(prev);
        assert(prev[0] == evs[0]);
        assert(prev.last() == evs[evs.len() - 2]);
        assert(prev.last().time.nanos <= evs.last().time.nanos);
    }
}

/// A session whose events come in order of time, with open spans ending no
/// earlier than its last event, has worked no more than its total time:
/// its paused time is never negative, and never more than its total.
pub proof fn law_paused_within_total(evs: Seq<Event>, end: u64)
    requires
        chronological(evs),
        evs.len() > 0 ==> end >= evs.last().time.nanos,
    ensures
        0 <= session_worked(evs, end) <= session_total(evs, end),
        0 <= session_paused(evs, end) <= session_total(evs, end),
{
    if evs.len() > 0 {
        lemma_scan_within(evs);
        if evs.last().kind == EventKind::Stop {
            if evs.len() > 1 {
                assert(evs.drop_last().last() == evs[evs.len() - 2]);
            }
        }
    }
}

} // verus!
