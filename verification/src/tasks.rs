//! Named tasks inside sessions: starting and suspending them, and the time
//! spent on each.

use vstd::prelude::*;
use crate::clock::{clock_text, duration_text, format_duration, push_clock, seconds_of, ClockTime, Duration, END_OF_DAY_NANOS};
use crate::model::{DayRecord, Session, TaskEvent};
use crate::timer::{fits, lemma_size_monotone, record_size, size_upto, span_bound, RECORD_LIMIT};
use crate::actions::lemma_size_prefix;
use crate::report::{join_pieces, pieces_text, pieces_view, push_text, push_time, text_piece, time_piece, Piece};

verus! {

/// Position of the last task span that has not ended, if any.
pub open spec fn open_task(tes: Seq<TaskEvent>) -> Option<int>
    decreases tes.len(),
{
    if tes.len() == 0 {
        None
    } else if tes.last().end is None {
        Some(tes.len() - 1)
    } else {
        open_task(tes.drop_last())
    }
}

proof fn lemma_open_task(tes: Seq<TaskEvent>)
    ensures
        open_task(tes) matches Some(i) ==> 0 <= i < tes.len() && tes[i].end is None && forall|j: int|
            i < j < tes.len() ==> tes[j].end is Some,
        open_task(tes) is None ==> forall|j: int| 0 <= j < tes.len() ==> tes[j].end is Some,
    decreases tes.len(),
{
    if tes.len() > 0 {
        lemma_open_task(tes.drop_last());
        assert(forall|j: int| 0 <= j < tes.len() - 1 ==> tes.drop_last()[j] == tes[j]);
    }
}

/// The name of the task running in the current session, if any.
pub open spec fn running_task(r: DayRecord) -> Option<Seq<char>> {
    if r.sessions@.len() == 0 {
        None
    } else {
        let tes = r.sessions@.last().task_events@;
        match open_task(tes) {
            Some(i) => Some(tes[i].task@),
            None => None,
        }
    }
}

/// The message of suspending task `name`, which had run for `elapsed`.
pub open spec fn suspended_text(name: Seq<char>, elapsed: int) -> Seq<char> {
    "[] Task \""@ + name + "\" suspended ("@ + duration_text(elapsed) + ")"@
}

/// The message of starting task `name` at `now`.
pub open spec fn started_task_text(name: Seq<char>, now: ClockTime) -> Seq<char> {
    ">> Task \""@ + name + "\" started at "@ + clock_text(now)
}

/// What suspending at `at` does: the running task of the current session, if
/// any, ends at `at`, and nothing else changes.
pub open spec fn suspend_post(old: DayRecord, new: DayRecord, at: ClockTime, msg: Option<Seq<char>>) -> bool {
    &&& record_size(&new) == record_size(&old)
    &&& msg is Some <==> running_task(old) is Some
    &&& msg is None ==> new == old
    &&& msg is Some ==> {
        let tes = old.sessions@.last().task_events@;
        let k = open_task(tes)->0;
        &&& new.date == old.date
        &&& new.sessions@.len() == old.sessions@.len()
        &&& forall|i: int| 0 <= i < old.sessions@.len() - 1 ==> new.sessions@[i] == old.sessions@[i]
        &&& new.sessions@.last().index == old.sessions@.last().index
        &&& new.sessions@.last().events@ == old.sessions@.last().events@
        &&& new.sessions@.last().task_events@.len() == tes.len()
        &&& forall|j: int| 0 <= j < tes.len() && j != k ==> new.sessions@.last().task_events@[j] == tes[j]
        &&& new.sessions@.last().task_events@[k].task == tes[k].task
        &&& new.sessions@.last().task_events@[k].start == tes[k].start
        &&& new.sessions@.last().task_events@[k].end == Some(at)
        &&& msg->0 == suspended_text(tes[k].task@, at.nanos - tes[k].start.nanos)
    }
}

fn find_open_task(tes: &Vec<TaskEvent>) -> (r: Option<usize>)
    ensures
        r matches Some(i) ==> open_task(tes@) == Some(i as int) && i < tes@.len(),
        r is None ==> open_task(tes@) is None,
{
    proof {
        lemma_open_task(tes@);
    }
    let mut i = tes.len();
    assert(tes@.take(i as int) =~= tes@);
    while i > 0
        invariant
            i <= tes@.len(),
            forall|j: int| i <= j < tes@.len() ==> tes@[j].end is Some,
            open_task(tes@) == open_task(tes@.take(i as int)),
        decreases i,
    {
        proof {
            assert(tes@.take(i as int).drop_last() =~= tes@.take(i - 1));
        }
        if tes[i - 1].end.is_none() {
            return Some(i - 1);
        }
        i = i - 1;
    }
    assert(tes@.take(0) =~= Seq::<TaskEvent>::empty());
    None
}

/// Ends the task running in the current session at `at`, if any; returns the
/// message about it.
pub fn suspend_current_task(record: &mut DayRecord, at: ClockTime) -> (msg: Option<String>)
    ensures
        suspend_post(*old(record), *final(record), at, match msg {
            Some(m) => Some(m@),
            None => None,
        }),
{
    if record.sessions.len() == 0 {
        return None;
    }
    let last = record.sessions.len() - 1;
    let found = find_open_task(&record.sessions[last].task_events);
    match found {
        None => {
            proof {
                lemma_open_task(record.sessions@.last().task_events@);
            }
            None
        },
        Some(k) => {
            let mut s = record.sessions.pop().unwrap();
            let te = s.task_events.remove(k);
            let elapsed = at.since(te.start);
            let mut msg = String::from_str("[] Task \"");
            msg.append(te.task.as_str());
            msg.append("\" suspended (");
            let d = format_duration(elapsed);
            msg.append(d.as_str());
            msg.append(")");
            let closed = TaskEvent { task: te.task, start: te.start, end: Some(at) };
            s.task_events.insert(k, closed);
            record.sessions.push(s);
            proof {
                let n = old(record).sessions@.len();
                lemma_size_prefix(old(record).sessions@, record.sessions@, (n - 1) as nat);
                let tes = old(record).sessions@.last().task_events@;
                let nt = record.sessions@.last().task_events@;
                assert forall|j: int| 0 <= j < tes.len() && j != k implies nt[j] == tes[j] by {
                    if j < k {
                    } else {
                    }
                }
                lemma_open_task(tes);
            }
            assert(msg@ =~= suspended_text(
                old(record).sessions@.last().task_events@[k as int].task@,
                at.nanos - old(record).sessions@.last().task_events@[k as int].start.nanos,
            ));
            Some(msg)
        },
    }
}

/// Ends the running task, if any; returns the message about it. The record
/// changed exactly when a message comes back.
pub fn stop_active_task(record: &mut DayRecord, now: ClockTime) -> (msg: Option<String>)
    ensures
        suspend_post(*old(record), *final(record), now, match msg {
            Some(m) => Some(m@),
            None => None,
        }),
{
    suspend_current_task(record, now)
}

/// The span `t` ended at `at`.
pub open spec fn ended_at(t: TaskEvent, at: ClockTime) -> TaskEvent {
    TaskEvent { task: t.task, start: t.start, end: Some(at) }
}

/// The spans of the current session after the running one (`open_task`)
/// was suspended at `at`: that one ends at `at`, every other is as it was.
pub open spec fn suspended_spans(tes: Seq<TaskEvent>, at: ClockTime) -> Seq<TaskEvent> {
    match open_task(tes) {
        Some(k) => tes.update(k, ended_at(tes[k], at)),
        None => tes,
    }
}

/// What starting task `name` at `now` does: the running task of the current
/// session is suspended (ends at `now`, every other span stays as it was),
/// then a span of `name` opens at `now` after the others. Without a session
/// nothing changes.
pub open spec fn start_post(old: DayRecord, new: DayRecord, name: Seq<char>, now: ClockTime, msg: Seq<char>, changed: bool) -> bool {
    &&& record_size(&new) <= record_size(&old) + 1
    &&& changed <==> old.sessions@.len() > 0
    &&& !changed ==> new == old && msg == "No active session. Use 'go' first."@
    &&& changed ==> {
        &&& msg == started_task_text(name, now)
        &&& new.date == old.date
        &&& new.sessions@.len() == old.sessions@.len()
        &&& forall|i: int| 0 <= i < old.sessions@.len() - 1 ==> new.sessions@[i] == old.sessions@[i]
        &&& new.sessions@.last().index == old.sessions@.last().index
        &&& new.sessions@.last().events@ == old.sessions@.last().events@
        &&& new.sessions@.last().task_events@.len() == old.sessions@.last().task_events@.len() + 1
        &&& new.sessions@.last().task_events@.last().task@ == name
        &&& new.sessions@.last().task_events@.last().start == now
        &&& new.sessions@.last().task_events@.last().end is None
        &&& running_task(new) == Some(name)
        &&& new.sessions@.last().task_events@ == suspended_spans(old.sessions@.last().task_events@, now).push(
            TaskEvent { task: new.sessions@.last().task_events@.last().task, start: now, end: None },
        )
    }
}

/// Starts task `name` at `now`, suspending the running one.
///
/// Returns the message, and whether the record changed.
pub fn start_task(record: &mut DayRecord, name: &str, now: ClockTime) -> (r: (String, bool))
    ensures
        start_post(*old(record), *final(record), name@, now, r.0@, r.1),
{
    let _prev = suspend_current_task(record, now);
    let ghost old_r = *old(record);
    if record.sessions.len() == 0 {
        return (String::from_str("No active session. Use 'go' first."), false);
    }
    let ghost mid = *record;
    let mut s = record.sessions.pop().unwrap();
    s.task_events.push(TaskEvent { task: name.to_owned(), start: now, end: None });
    record.sessions.push(s);
    let mut msg = String::from_str(">> Task \"");
    msg.append(name);
    msg.append("\" started at ");
    push_clock(&mut msg, now);
    proof {
        let n = mid.sessions@.len();
        lemma_size_prefix(mid.sessions@, record.sessions@, (n - 1) as nat);
        lemma_open_task(record.sessions@.last().task_events@);
        let ot = old_r.sessions@.last().task_events@;
        let mt = mid.sessions@.last().task_events@;
        lemma_open_task(ot);
        if _prev.is_some() {
            let k = open_task(ot)->0;
            assert(mt[k] == ended_at(ot[k], now));
            assert(mt =~= suspended_spans(ot, now));
        } else {
            assert(mid == old_r);
            assert(mt =~= suspended_spans(ot, now));
        }
        assert(record.sessions@.last().task_events@ =~= suspended_spans(ot, now).push(
            TaskEvent { task: record.sessions@.last().task_events@.last().task, start: now, end: None },
        ));
    }
    assert(msg@ =~= started_task_text(name@, now));
    (msg, true)
}

/// The name of the task running in the current session, if any.
pub fn active_task_name(record: &DayRecord) -> (r: Option<String>)
    ensures
        match r {
            Some(s) => running_task(*record) == Some(s@),
            None => running_task(*record) is None,
        },
{
    if record.sessions.len() == 0 {
        return None;
    }
    let last = record.sessions.len() - 1;
    match find_open_task(&record.sessions[last].task_events) {
        Some(k) => Some(record.sessions[last].task_events[k].task.clone()),
        None => None,
    }
}

} // verus!

verus! {

/// How long a task span lasted; one still running counts up to `default_end`.
pub open spec fn task_elapsed(te: TaskEvent, default_end: u64) -> int {
    match te.end {
        Some(e) => e.nanos - te.start.nanos,
        None => default_end - te.start.nanos,
    }
}

/// Position of the first entry named `name`.
pub open spec fn find_name(acc: Seq<(Seq<char>, int)>, name: Seq<char>) -> Option<int>
    decreases acc.len(),
{
    if acc.len() == 0 {
        None
    } else {
        match find_name(acc.drop_last(), name) {
            Some(j) => Some(j),
            None => if acc.last().0 == name {
                Some(acc.len() - 1)
            } else {
                None
            },
        }
    }
}

/// Adds one span to the totals: to the entry of its task, or as a new entry
/// at the end.
pub open spec fn add_span(acc: Seq<(Seq<char>, int)>, te: TaskEvent, default_end: u64) -> Seq<(Seq<char>, int)> {
    let el = task_elapsed(te, default_end);
    match find_name(acc, te.task@) {
        Some(j) => acc.update(j, (acc[j].0, acc[j].1 + el)),
        None => acc.push((te.task@, el)),
    }
}

pub open spec fn add_spans(acc: Seq<(Seq<char>, int)>, tes: Seq<TaskEvent>, default_end: u64) -> Seq<(Seq<char>, int)>
    decreases tes.len(),
{
    if tes.len() == 0 {
        acc
    } else {
        add_span(add_spans(acc, tes.drop_last(), default_end), tes.last(), default_end)
    }
}

/// Time per task over the first `n` sessions, in the order tasks first appear.
pub open spec fn task_totals(ss: Seq<Session>, n: nat, default_end: u64) -> Seq<(Seq<char>, int)>
    decreases n,
{
    if n == 0 || n > ss.len() {
        seq![]
    } else {
        add_spans(task_totals(ss, (n - 1) as nat, default_end), ss[n - 1].task_events@, default_end)
    }
}

/// Time per task over a whole day; spans still running count up to `now` on
/// the current day, up to 23:59:59 on a past day.
pub open spec fn day_task_totals(r: DayRecord, is_today: bool, now: ClockTime) -> Seq<(Seq<char>, int)> {
    task_totals(r.sessions@, r.sessions@.len(), if is_today { now.nanos } else { END_OF_DAY_NANOS })
}

pub open spec fn abs(x: int) -> int {
    if x < 0 {
        -x
    } else {
        x
    }
}

/// Sum of the sizes of the amounts.
pub open spec fn abs_sum(acc: Seq<(Seq<char>, int)>) -> int
    decreases acc.len(),
{
    if acc.len() == 0 {
        0
    } else {
        abs_sum(acc.drop_last()) + abs(acc.last().1)
    }
}

/// Sum of the amounts.
pub open spec fn amount_sum(acc: Seq<(Seq<char>, int)>) -> int
    decreases acc.len(),
{
    if acc.len() == 0 {
        0
    } else {
        amount_sum(acc.drop_last()) + acc.last().1
    }
}

pub proof fn lemma_find_name(acc: Seq<(Seq<char>, int)>, name: Seq<char>)
    ensures
        find_name(acc, name) matches Some(j) ==> 0 <= j < acc.len() && acc[j].0 == name && forall|k: int|
            0 <= k < j ==> acc[k].0 != name,
        find_name(acc, name) is None ==> forall|k: int| 0 <= k < acc.len() ==> acc[k].0 != name,
    decreases acc.len(),
{
    if acc.len() > 0 {
        lemma_find_name(acc.drop_last(), name);
        assert(forall|k: int| 0 <= k < acc.len() - 1 ==> acc.drop_last()[k] == acc[k]);
    }
}

proof fn lemma_sums_update(acc: Seq<(Seq<char>, int)>, j: int, e: (Seq<char>, int))
    requires
        0 <= j < acc.len(),
    ensures
        abs_sum(acc.update(j, e)) == abs_sum(acc) - abs(acc[j].1) + abs(e.1),
        amount_sum(acc.update(j, e)) == amount_sum(acc) - acc[j].1 + e.1,
    decreases acc.len(),
{
    if j < acc.len() - 1 {
        lemma_sums_update(acc.drop_last(), j, e);
        assert(acc.update(j, e).drop_last() =~= acc.drop_last().update(j, e));
    } else {
        assert(acc.update(j, e).drop_last() =~= acc.drop_last());
    }
}

proof fn lemma_sums_push(acc: Seq<(Seq<char>, int)>, e: (Seq<char>, int))
    ensures
        abs_sum(acc.push(e)) == abs_sum(acc) + abs(e.1),
        amount_sum(acc.push(e)) == amount_sum(acc) + e.1,
{
    assert(acc.push(e).drop_last() =~= acc);
}

pub proof fn lemma_abs_sum_prefix(acc: Seq<(Seq<char>, int)>, k: int)
    requires
        0 <= k <= acc.len(),
    ensures
        -abs_sum(acc.take(k)) <= amount_sum(acc.take(k)) <= abs_sum(acc.take(k)) <= abs_sum(acc),
        0 <= abs_sum(acc.take(k)),
    decreases acc.len(),
{
    if acc.len() > 0 {
        if k == acc.len() {
            assert(acc.take(k) =~= acc);
            lemma_abs_sum_prefix(acc.drop_last(), k - 1);
            assert(acc.drop_last().take(k - 1) =~= acc.drop_last());
        } else {
            lemma_abs_sum_prefix(acc.drop_last(), k);
            assert(acc.drop_last().take(k) =~= acc.take(k));
        }
    } else {
        assert(acc.take(k) =~= acc);
    }
}

fn find_entry(names: &Vec<String>, name: &String) -> (r: Option<usize>)
    ensures
        r matches Some(j) ==> j < names@.len() && names@[j as int]@ == name@ && forall|k: int|
            0 <= k < j ==> names@[k]@ != name@,
        r is None ==> forall|k: int| 0 <= k < names@.len() ==> names@[k]@ != name@,
{
    let mut k: usize = 0;
    while k < names.len()
        invariant
            k <= names@.len(),
            forall|i: int| 0 <= i < k ==> names@[i]@ != name@,
        decreases names.len() - k,
    {
        if names[k] == *name {
            return Some(k);
        }
        k = k + 1;
    }
    None
}

/// Time spent per task over all sessions of the day, in the order tasks first
/// appear. Spans still running count up to `now` when the record is of
/// `today`, else up to 23:59:59.
pub fn calculate_task_durations(record: &DayRecord, today: crate::date::Date, now: ClockTime) -> (r: Vec<(String, Duration)>)
    requires
        fits(record),
    ensures
        r@.len() == day_task_totals(*record, record.date == today, now).len(),
        forall|k: int|
            0 <= k < r@.len() ==> (#[trigger] r@[k]).0@ == day_task_totals(*record, record.date == today, now)[k].0
                && r@[k].1.nanos == day_task_totals(*record, record.date == today, now)[k].1,
        abs_sum(day_task_totals(*record, record.date == today, now)) <= record_size(record) * span_bound(),
{
    let is_today = record.date == today;
    let default_end: u64 = if is_today { now.nanos } else { END_OF_DAY_NANOS };
    let ghost dflt = default_end;
    let ghost ss = record.sessions@;
    let mut names: Vec<String> = Vec::new();
    let mut durs: Vec<i128> = Vec::new();
    let mut i: usize = 0;
    while i < record.sessions.len()
        invariant
            ss == record.sessions@,
            fits(record),
            dflt == default_end,
            i <= ss.len(),
            names@.len() == durs@.len(),
            names@.len() == task_totals(ss, i as nat, dflt).len(),
            forall|k: int|
                0 <= k < names@.len() ==> (#[trigger] names@[k])@ == task_totals(ss, i as nat, dflt)[k].0
                    && durs@[k] == task_totals(ss, i as nat, dflt)[k].1,
            abs_sum(task_totals(ss, i as nat, dflt)) <= size_upto(ss, i as nat) * span_bound(),
        decreases ss.len() - i,
    {
        let tes = &record.sessions[i].task_events;
        let ghost base = task_totals(ss, i as nat, dflt);
        let mut j: usize = 0;
        assert(tes@.take(0) =~= Seq::<TaskEvent>::empty());
        assert(add_spans(base, tes@.take(0), dflt) == base);
        while j < tes.len()
            invariant
                ss == record.sessions@,
                fits(record),
                dflt == default_end,
                i < ss.len(),
                tes@ == ss[i as int].task_events@,
                j <= tes@.len(),
                names@.len() == durs@.len(),
                names@.len() == add_spans(base, tes@.take(j as int), dflt).len(),
                forall|k: int|
                    0 <= k < names@.len() ==> (#[trigger] names@[k])@ == add_spans(base, tes@.take(j as int), dflt)[k].0
                        && durs@[k] == add_spans(base, tes@.take(j as int), dflt)[k].1,
                abs_sum(add_spans(base, tes@.take(j as int), dflt)) <= (size_upto(ss, i as nat) + j)
                    * span_bound(),
            decreases tes@.len() - j,
        {
            let ghost acc = add_spans(base, tes@.take(j as int), dflt);
            let te = &tes[j];
            let stop: u64 = match te.end {
                Some(e) => e.nanos,
                None => default_end,
            };
            let el: i128 = (stop as i128) - (te.start.nanos as i128);
            let ghost next = add_span(acc, tes@[j as int], dflt);
            proof {
                assert(tes@.take(j + 1).drop_last() =~= tes@.take(j as int));
                assert(add_spans(base, tes@.take(j + 1), dflt) == next);
                lemma_find_name(acc, te.task@);
                lemma_size_monotone(ss, (i + 1) as nat, ss.len());
                assert(size_upto(ss, i as nat) + j + 1 <= size_upto(ss, (i + 1) as nat));
                assert((size_upto(ss, i as nat) + j + 1) * span_bound() <= 2 * RECORD_LIMIT * span_bound()) by (nonlinear_arith)
                    requires
                        size_upto(ss, i as nat) + j + 1 <= RECORD_LIMIT,
                ;
                assert((size_upto(ss, i as nat) + j + 1) * span_bound() == (size_upto(ss, i as nat) + j) * span_bound() + span_bound()) by (nonlinear_arith);
                assert(forall|k: int| 0 <= k < acc.len() ==> abs(acc[k].1) <= abs_sum(acc)) by {
                    assert forall|k: int| 0 <= k < acc.len() implies abs(acc[k].1) <= abs_sum(acc) by {
                        lemma_sums_update(acc, k, (acc[k].0, 0));
                        lemma_abs_sum_prefix(acc.update(k, (acc[k].0, 0)), acc.len() as int);
                        assert(acc.update(k, (acc[k].0, 0)).take(acc.len() as int) =~= acc.update(k, (acc[k].0, 0)));
                    }
                }
            }
            let ghost names0 = names@;
            let ghost durs0 = durs@;
            assert(forall|m: int| 0 <= m < names0.len() ==> (#[trigger] names0[m])@ == acc[m].0 && durs0[m] == acc[m].1);
            match find_entry(&names, &te.task) {
                Some(k) => {
                    let v = durs[k] + el;
                    durs.set(k, v);
                    proof {
                        lemma_sums_update(acc, k as int, (acc[k as int].0, v as int));
                        assert(acc[k as int].0 == te.task@);
                        assert(find_name(acc, te.task@) == Some(k as int)) by {
                            match find_name(acc, te.task@) {
                                Some(jj) => {
                                    if jj < k {
                                        assert(names@[jj]@ == acc[jj].0);
                                    } else if jj > k {
                                    }
                                },
                                None => {},
                            }
                        }
                        assert(el == task_elapsed(tes@[j as int], dflt));
                        assert(next == acc.update(k as int, (acc[k as int].0, v as int)));
                        assert forall|m: int| 0 <= m < names@.len() implies (#[trigger] names@[m])@ == next[m].0
                            && durs@[m] == next[m].1 by {
                            assert(names@[m] == names0[m]);
                            if m != k {
                                assert(durs@[m] == durs0[m]);
                            }
                        }
                    }
                },
                None => {
                    names.push(te.task.clone());
                    durs.push(el);
                    proof {
                        lemma_sums_push(acc, (te.task@, el as int));
                        assert(find_name(acc, te.task@) is None) by {
                            match find_name(acc, te.task@) {
                                Some(jj) => {
                                    assert(names@[jj]@ == acc[jj].0);
                                },
                                None => {},
                            }
                        }
                        assert(el == task_elapsed(tes@[j as int], dflt));
                        assert(next == acc.push((te.task@, el as int)));
                        assert forall|m: int| 0 <= m < names@.len() implies (#[trigger] names@[m])@ == next[m].0
                            && durs@[m] == next[m].1 by {
                            if m < acc.len() {
                                assert(names@[m] == names0[m]);
                                assert(durs@[m] == durs0[m]);
                            }
                        }
                    }
                },
            }
            j = j + 1;
        }
        proof {
            assert(tes@.take(tes@.len() as int) =~= tes@);
        }
        i = i + 1;
    }
    let mut r: Vec<(String, Duration)> = Vec::new();
    let mut k: usize = 0;
    while k < names.len()
        invariant
            k <= names@.len(),
            names@.len() == durs@.len(),
            r@.len() == k,
            forall|m: int| 0 <= m < k ==> (#[trigger] r@[m]).0@ == names@[m]@ && r@[m].1.nanos == durs@[m],
        decreases names@.len() - k,
    {
        r.push((names[k].clone(), Duration { nanos: durs[k] }));
        k = k + 1;
    }
    r
}

} // verus!

verus! {

/// One line of the task summary; the running task is marked `>>`.
/// The pieces of one task's line of the summary.
pub open spec fn task_line_pieces(name: Seq<char>, d: int, current: Option<Seq<char>>) -> Seq<(Seq<char>, Option<int>)> {
    seq![
        text_piece(
            "    "@ + (if current == Some(name) {
                " >> "@
            } else {
                Seq::<char>::empty()
            }) + name + ": "@,
        ),
        time_piece(d),
        text_piece("\n"@),
    ]
}

/// The pieces of the lines of time per task.
pub open spec fn task_pieces(entries: Seq<(Seq<char>, int)>, current: Option<Seq<char>>) -> Seq<(Seq<char>, Option<int>)>
    decreases entries.len(),
{
    if entries.len() == 0 {
        Seq::empty()
    } else {
        task_pieces(entries.drop_last(), current) + task_line_pieces(entries.last().0, entries.last().1, current)
    }
}

/// The summary of time per task, as pieces; worked time not spent on any
/// task shows as unassigned when it is at least a second. Empty without
/// tasks.
pub open spec fn summary_pieces(entries: Seq<(Seq<char>, int)>, current: Option<Seq<char>>, worked: int) -> Seq<(Seq<char>, Option<int>)> {
    if entries.len() == 0 {
        Seq::empty()
    } else {
        let unassigned = worked - amount_sum(entries);
        seq![text_piece("\n  Tasks:\n"@)] + task_pieces(entries, current) + (if seconds_of(unassigned) > 0 {
            seq![text_piece("\n    Unassigned: "@), time_piece(unassigned), text_piece("\n"@)]
        } else {
            Seq::empty()
        })
    }
}

/// The summary of time per task, written out.
pub open spec fn summary_text(entries: Seq<(Seq<char>, int)>, current: Option<Seq<char>>, worked: int) -> Seq<char> {
    pieces_text(summary_pieces(entries, current, worked))
}

/// The per-task summary of a day as pieces, given the worked time of the day.
#[verifier::rlimit(40)]
pub fn task_summary_pieces(record: &DayRecord, total_worked: Duration, today: crate::date::Date, now: ClockTime) -> (r: Vec<Piece>)
    requires
        fits(record),
        -0x4000_0000_0000_0000_0000_0000_0000_0000 <= total_worked.nanos <= 0x4000_0000_0000_0000_0000_0000_0000_0000,
    ensures
        pieces_view(r@) == summary_pieces(
            day_task_totals(*record, record.date == today, now),
            running_task(*record),
            total_worked.nanos as int,
        ),
{
    let durations = calculate_task_durations(record, today, now);
    let ghost entries = day_task_totals(*record, record.date == today, now);
    let mut summary: Vec<Piece> = Vec::new();
    if durations.len() == 0 {
        assert(pieces_view(summary@) =~= summary_pieces(entries, running_task(*record), total_worked.nanos as int));
        return summary;
    }
    let current = active_task_name(record);
    let ghost cur: Option<Seq<char>> = match &current {
        Some(c) => Some(c@),
        None => None,
    };
    push_text(&mut summary, String::from_str("\n  Tasks:\n"));
    let ghost head = pieces_view(summary@);
    let mut task_total: i128 = 0;
    let mut k: usize = 0;
    proof {
        assert(record_size(record) * span_bound() <= RECORD_LIMIT * span_bound()) by (nonlinear_arith)
            requires
                record_size(record) <= RECORD_LIMIT,
        ;
        assert(entries.take(0) =~= Seq::<(Seq<char>, int)>::empty());
        assert(head =~= seq![text_piece("\n  Tasks:\n"@)]);
    }
    while k < durations.len()
        invariant
            k <= durations@.len(),
            durations@.len() == entries.len(),
            forall|m: int|
                0 <= m < durations@.len() ==> (#[trigger] durations@[m]).0@ == entries[m].0 && durations@[m].1.nanos
                    == entries[m].1,
            abs_sum(entries) <= RECORD_LIMIT * span_bound(),
            task_total == amount_sum(entries.take(k as int)),
            pieces_view(summary@) == head + task_pieces(entries.take(k as int), cur),
            head == seq![text_piece("\n  Tasks:\n"@)],
            cur == running_task(*record),
            match &current {
                Some(c) => cur == Some(c@),
                None => cur is None,
            },
        decreases durations@.len() - k,
    {
        let name = &durations[k].0;
        let d = durations[k].1;
        proof {
            lemma_abs_sum_prefix(entries, k + 1);
            assert(entries.take(k + 1).drop_last() =~= entries.take(k as int));
        }
        let running = match &current {
            Some(c) => *c == *name,
            None => false,
        };
        let mut t = String::from_str("    ");
        if running {
            t.append(" >> ");
        }
        t.append(name.as_str());
        t.append(": ");
        let ghost before = pieces_view(summary@);
        push_text(&mut summary, t);
        push_time(&mut summary, d);
        push_text(&mut summary, String::from_str("\n"));
        task_total = task_total + d.nanos;
        proof {
            assert(running == (cur == Some(entries[k as int].0)));
            assert(pieces_view(summary@) =~= head + task_pieces(entries.take(k + 1), cur));
        }
        k = k + 1;
    }
    proof {
        assert(entries.take(k as int) =~= entries);
        lemma_abs_sum_prefix(entries, k as int);
    }
    let unassigned = Duration { nanos: total_worked.nanos - task_total };
    if unassigned.num_seconds() > 0 {
        push_text(&mut summary, String::from_str("\n    Unassigned: "));
        push_time(&mut summary, unassigned);
        push_text(&mut summary, String::from_str("\n"));
    }
    assert(pieces_view(summary@) =~= summary_pieces(entries, cur, total_worked.nanos as int));
    summary
}

/// The per-task summary of a day, given the worked time of the day.
pub fn format_task_summary(record: &DayRecord, total_worked: Duration, today: crate::date::Date, now: ClockTime) -> (r: String)
    requires
        fits(record),
        -0x4000_0000_0000_0000_0000_0000_0000_0000 <= total_worked.nanos <= 0x4000_0000_0000_0000_0000_0000_0000_0000,
    ensures
        r@ == summary_text(
            day_task_totals(*record, record.date == today, now),
            running_task(*record),
            total_worked.nanos as int,
        ),
{
    let pieces = task_summary_pieces(record, total_worked, today, now);
    join_pieces(&pieces)
}

} // verus!

verus! {

/// No two entries have the same name.
pub open spec fn names_unique(acc: Seq<(Seq<char>, int)>) -> bool {
    forall|i: int, j: int| 0 <= i < j < acc.len() ==> (#[trigger] acc[i]).0 != (#[trigger] acc[j]).0
}

/// The time of all task spans of the first `n` sessions.
pub open spec fn spans_time(ss: Seq<Session>, n: nat, default_end: u64) -> int
    decreases n,
{
    if n == 0 || n > ss.len() {
        0
    } else {
        spans_time(ss, (n - 1) as nat, default_end) + list_time(ss[n - 1].task_events@, default_end)
    }
}

pub open spec fn list_time(tes: Seq<TaskEvent>, default_end: u64) -> int
    decreases tes.len(),
{
    if tes.len() == 0 {
        0
    } else {
        list_time(tes.drop_last(), default_end) + task_elapsed(tes.last(), default_end)
    }
}

proof fn lemma_add_span(acc: Seq<(Seq<char>, int)>, te: TaskEvent, d: u64)
    requires
        names_unique(acc),
    ensures
        names_unique(add_span(acc, te, d)),
        amount_sum(add_span(acc, te, d)) == amount_sum(acc) + task_elapsed(te, d),
{
    lemma_find_name(acc, te.task@);
    let el = task_elapsed(te, d);
    match find_name(acc, te.task@) {
        Some(j) => {
            lemma_sums_update(acc, j, (acc[j].0, acc[j].1 + el));
            let n = add_span(acc, te, d);
            assert forall|a: int, b: int| 0 <= a < b < n.len() implies (#[trigger] n[a]).0 != (#[trigger] n[b]).0 by {
                assert(n[a].0 == acc[a].0);
                assert(n[b].0 == acc[b].0);
            }
        },
        None => {
            lemma_sums_push(acc, (te.task@, el));
            let n = add_span(acc, te, d);
            assert forall|a: int, b: int| 0 <= a < b < n.len() implies (#[trigger] n[a]).0 != (#[trigger] n[b]).0 by {
                assert(n[a] == acc[a]);
                if b < acc.len() {
                    assert(n[b] == acc[b]);
                }
            }
        },
    }
}

proof fn lemma_add_spans(acc: Seq<(Seq<char>, int)>, tes: Seq<TaskEvent>, d: u64)
    requires
        names_unique(acc),
    ensures
        names_unique(add_spans(acc, tes, d)),
        amount_sum(add_spans(acc, tes, d)) == amount_sum(acc) + list_time(tes, d),
    decreases tes.len(),
{
    if tes.len() > 0 {
        lemma_add_spans(acc, tes.drop_last(), d);
        lemma_add_span(add_spans(acc, tes.drop_last(), d), tes.last(), d);
    }
}

proof fn lemma_task_totals(ss: Seq<Session>, n: nat, d: u64)
    ensures
        names_unique(task_totals(ss, n, d)),
        amount_sum(task_totals(ss, n, d)) == spans_time(ss, n, d),
    decreases n,
{
    if n > 0 && n <= ss.len() {
        lemma_task_totals(ss, (n - 1) as nat, d);
        lemma_add_spans(task_totals(ss, (n - 1) as nat, d), ss[n - 1].task_events@, d);
    }
}

/// Time per task lists every task once, and adds up to the time of all task
/// spans of the day.
pub proof fn law_task_totals_partition(r: DayRecord, is_today: bool, now: ClockTime)
    ensures
        names_unique(day_task_totals(r, is_today, now)),
        amount_sum(day_task_totals(r, is_today, now)) == spans_time(
            r.sessions@,
            r.sessions@.len(),
            if is_today { now.nanos } else { END_OF_DAY_NANOS },
        ),
{
    lemma_task_totals(r.sessions@, r.sessions@.len(), if is_today { now.nanos } else { END_OF_DAY_NANOS });
}

/// A task started in a session is the one `active_task_name` reports, until
/// another starts or it is suspended.
pub proof fn law_started_task_is_active(r0: DayRecord, r1: DayRecord, name: Seq<char>, now: ClockTime, msg: Seq<char>)
    requires
        start_post(r0, r1, name, now, msg, true),
    ensures
        running_task(r1) == Some(name),
{
}

/// Suspending twice: when the current session had at most one running task,
/// the second suspension finds none and changes nothing.
pub proof fn law_suspend_twice(r0: DayRecord, r1: DayRecord, r2: DayRecord, t1: ClockTime, t2: ClockTime, m1: Option<Seq<char>>, m2: Option<Seq<char>>)
    requires
        r0.sessions@.len() > 0,
        forall|i: int, j: int|
            0 <= i < j < r0.sessions@.last().task_events@.len() ==> (#[trigger] r0.sessions@.last().task_events@[i]).end is Some
                || (#[trigger] r0.sessions@.last().task_events@[j]).end is Some,
        suspend_post(r0, r1, t1, m1),
        suspend_post(r1, r2, t2, m2),
    ensures
        m2 is None,
        r2 == r1,
{
    let tes = r0.sessions@.last().task_events@;
    lemma_open_task(tes);
    let nt = r1.sessions@.last().task_events@;
    lemma_open_task(nt);
    if m1 is Some {
        let k = open_task(tes)->0;
        if open_task(nt) is Some {
            let j = open_task(nt)->0;
            assert(j != k);
            assert(nt[j] == tes[j]);
            if j < k {
                assert(tes[j].end is Some || tes[k].end is Some);
            } else {
                assert(tes[k].end is Some || tes[j].end is Some);
            }
        }
    }
}

/// No two spans of a list are both still running.
pub open spec fn at_most_one_open(tes: Seq<TaskEvent>) -> bool {
    forall|i: int, j: int| 0 <= i < j < tes.len() ==> (#[trigger] tes[i]).end is Some || (#[trigger] tes[j]).end is Some
}

/// Exactly one span of the list runs, the last one.
pub open spec fn only_last_open(tes: Seq<TaskEvent>) -> bool {
    &&& tes.len() > 0
    &&& tes.last().end is None
    &&& forall|j: int| 0 <= j < tes.len() - 1 ==> (#[trigger] tes[j]).end is Some
}

/// Starting a task leaves exactly one task running in the session, the one
/// just started, when no more than one ran before (as starting and
/// suspending keep it).
pub proof fn law_start_leaves_one_open(r0: DayRecord, r1: DayRecord, name: Seq<char>, now: ClockTime, msg: Seq<char>)
    requires
        start_post(r0, r1, name, now, msg, true),
        at_most_one_open(r0.sessions@.last().task_events@),
    ensures
        only_last_open(r1.sessions@.last().task_events@),
{
    let ot = r0.sessions@.last().task_events@;
    let nt = r1.sessions@.last().task_events@;
    lemma_open_task(ot);
    assert forall|j: int| 0 <= j < nt.len() - 1 implies (#[trigger] nt[j]).end is Some by {
        assert(nt[j] == suspended_spans(ot, now)[j]);
        match open_task(ot) {
            Some(k) => {
                if j != k {
                    assert(nt[j] == ot[j]);
                    if ot[j].end is None {
                        if j < k {
                            assert(ot[j].end is Some || ot[k].end is Some);
                        } else {
                            assert(ot[k].end is Some || ot[j].end is Some);
                        }
                    }
                }
            },
            None => {},
        }
    }
}

} // verus!
