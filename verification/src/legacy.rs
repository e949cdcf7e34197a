//! Records of the earlier format: one flat list of events per day, which
//! becomes sessions split at each Stop.

use vstd::prelude::*;
use crate::clock::ClockTime;
use crate::date::Date;
use crate::model::{DayRecord, Event, EventKind, Session, TaskEvent};

verus! {

/// A day of the earlier format: all events of the day in one list, and all
/// task spans in another.
pub struct LegacyDayRecord {
    pub date: Date,
    pub events: Vec<Event>,
    pub task_events: Vec<TaskEvent>,
}

/// The task spans that start at or after `from` and, when `until` is given,
/// before `until`, in their order: a span belongs to a session when it
/// started within it, before the session ended.
pub open spec fn tasks_in_range(tes: Seq<TaskEvent>, from: u64, until: Option<u64>) -> Seq<TaskEvent>
    decreases tes.len(),
{
    if tes.len() == 0 {
        Seq::<TaskEvent>::empty()
    } else {
        let prev = tasks_in_range(tes.drop_last(), from, until);
        let t = tes.last();
        if t.start.nanos >= from && (until matches Some(u) ==> t.start.nanos < u) {
            prev.push(t)
        } else {
            prev
        }
    }
}

/// The task spans of a session running from `from` to `until` (or still open).
/// Nothing when the session has no start.
pub fn collect_tasks_for_range(task_events: &Vec<TaskEvent>, from: Option<ClockTime>, until: Option<ClockTime>) -> (r: Vec<TaskEvent>)
    ensures
        from is None ==> r@.len() == 0,
        from matches Some(f) ==> r@ == tasks_in_range(task_events@, f.nanos, match until {
            Some(u) => Some(u.nanos),
            None => None,
        }),
{
    let mut r: Vec<TaskEvent> = Vec::new();
    let start_bound = match from {
        Some(f) => f,
        None => {
            return r;
        },
    };
    let ghost u: Option<u64> = match until {
        Some(x) => Some(x.nanos),
        None => None,
    };
    let mut i: usize = 0;
    assert(task_events@.take(0) =~= Seq::<TaskEvent>::empty());
    while i < task_events.len()
        invariant
            i <= task_events@.len(),
            u == match until {
                Some(x) => Some(x.nanos),
                None => None,
            },
            r@ == tasks_in_range(task_events@.take(i as int), start_bound.nanos, u),
        decreases task_events@.len() - i,
    {
        proof {
            assert(task_events@.take(i + 1).drop_last() =~= task_events@.take(i as int));
        }
        let te = &task_events[i];
        let within = match until {
            Some(end) => te.start.nanos < end.nanos,
            None => true,
        };
        if te.start.nanos >= start_bound.nanos && within {
            r.push(te.duplicate());
        }
        i = i + 1;
    }
    assert(task_events@.take(i as int) =~= task_events@);
    r
}

/// Walks the flat events: the sessions closed by a Stop so far (index and
/// events), the events of the session still open, and the next index.
pub open spec fn split_state(evs: Seq<Event>) -> (Seq<(u32, Seq<Event>)>, Seq<Event>, u32)
    decreases evs.len(),
{
    if evs.len() == 0 {
        (Seq::empty(), Seq::empty(), 0)
    } else {
        let prev = split_state(evs.drop_last());
        let e = evs.last();
        let cur = prev.1.push(e);
        if e.kind == EventKind::Stop {
            (prev.0.push((prev.2, cur)), Seq::empty(), if prev.2 == u32::MAX {
                0
            } else {
                (prev.2 + 1) as u32
            })
        } else {
            (prev.0, cur, prev.2)
        }
    }
}

pub proof fn lemma_split_closed_nonempty(evs: Seq<Event>)
    ensures
        forall|k: int|
            0 <= k < split_state(evs).0.len() ==> (#[trigger] split_state(evs).0[k]).1.len() > 0,
    decreases evs.len(),
{
    if evs.len() > 0 {
        lemma_split_closed_nonempty(evs.drop_last());
        let prev = split_state(evs.drop_last());
        let st = split_state(evs);
        if evs.last().kind == EventKind::Stop {
            assert forall|k: int| 0 <= k < st.0.len() implies (#[trigger] st.0[k]).1.len() > 0 by {
                if k < prev.0.len() {
                    assert(st.0[k] == prev.0[k]);
                }
            }
        }
    }
}

/// The sessions a flat list of events becomes: one per Stop, ending with it,
/// and one more for events after the last Stop. Each gets the task spans that
/// started within it.
pub open spec fn split_sessions_ok(evs: Seq<Event>, tes: Seq<TaskEvent>, r: Seq<Session>) -> bool {
    let st = split_state(evs);
    let closed = st.0;
    let open = st.1;
    &&& r.len() == closed.len() + (if open.len() > 0 { 1int } else { 0 })
    &&& forall|k: int|
        0 <= k < closed.len() ==> {
            &&& (#[trigger] r[k]).index == closed[k].0
            &&& r[k].events@ == closed[k].1
            &&& r[k].task_events@ == tasks_in_range(
                tes,
                closed[k].1[0].time.nanos,
                Some(closed[k].1.last().time.nanos),
            )
        }
    &&& open.len() > 0 ==> {
        &&& r.last().index == st.2
        &&& r.last().events@ == open
        &&& r.last().task_events@ == tasks_in_range(tes, open[0].time.nanos, None)
    }
}

/// Splits a flat list of events at each Stop into sessions.
pub fn split_into_sessions(events: &Vec<Event>, task_events: &Vec<TaskEvent>) -> (r: Vec<Session>)
    ensures
        split_sessions_ok(events@, task_events@, r@),
{
    let mut sessions: Vec<Session> = Vec::new();
    let mut current: Vec<Event> = Vec::new();
    let mut index: u32 = 0;
    let mut i: usize = 0;
    assert(events@.take(0) =~= Seq::<Event>::empty());
    while i < events.len()
        invariant
            i <= events@.len(),
            split_state(events@.take(i as int)).1 == current@,
            split_state(events@.take(i as int)).2 == index,
            sessions@.len() == split_state(events@.take(i as int)).0.len(),
            forall|k: int|
                0 <= k < sessions@.len() ==> {
                    let c = split_state(events@.take(i as int)).0[k];
                    &&& (#[trigger] sessions@[k]).index == c.0
                    &&& sessions@[k].events@ == c.1
                    &&& sessions@[k].task_events@ == tasks_in_range(
                        task_events@,
                        c.1[0].time.nanos,
                        Some(c.1.last().time.nanos),
                    )
                },
        decreases events@.len() - i,
    {
        proof {
            assert(events@.take(i + 1).drop_last() =~= events@.take(i as int));
            lemma_split_closed_nonempty(events@.take(i + 1));
        }
        let e = events[i];
        current.push(e);
        if e.kind == EventKind::Stop {
            let first = current[0].time;
            let last = current[current.len() - 1].time;
            let tasks = collect_tasks_for_range(task_events, Some(first), Some(last));
            let mut evs: Vec<Event> = Vec::new();
            std::mem::swap(&mut evs, &mut current);
            sessions.push(Session { index, events: evs, task_events: tasks });
            index = index.wrapping_add(1);
        }
        i = i + 1;
    }
    assert(events@.take(i as int) =~= events@);
    if current.len() > 0 {
        let first = current[0].time;
        let tasks = collect_tasks_for_range(task_events, Some(first), None);
        sessions.push(Session { index, events: current, task_events: tasks });
    }
    sessions
}

/// Turns a record of the earlier format into sessions.
pub fn migrate_json(legacy: &LegacyDayRecord) -> (r: DayRecord)
    ensures
        r.date == legacy.date,
        split_sessions_ok(legacy.events@, legacy.task_events@, r.sessions@),
{
    DayRecord { date: legacy.date, sessions: split_into_sessions(&legacy.events, &legacy.task_events) }
}

} // verus!

verus! {

/// Whether a file name has the extension `json`, as `Path::extension` reads
/// it: the part after the last dot, when there is a dot that is not the
/// first character.
pub open spec fn json_file_name(name: Seq<char>) -> bool {
    exists|d: int|
        #![trigger name[d]]
        0 < d < name.len() && name[d] == '.' && name.subrange(d + 1, name.len() as int) == "json"@ && name
            != ".."@
}

/// Whether a directory entry of this name holds a record of the earlier format.
pub fn is_legacy_file_name(name: &str) -> (b: bool)
    ensures
        b == json_file_name(name@),
{
    let n = name.unicode_len();
    proof {
        reveal_strlit("json");
        reveal_strlit("..");
    }
    if n < 6 {
        // the shortest such name is `x.json`
        assert(!json_file_name(name@)) by {
            if json_file_name(name@) {
                let d = choose|d: int| 0 < d < name@.len() && name@[d] == '.' && name@.subrange(d + 1, name@.len() as int) == "json"@ && name@ != ".."@;
                assert(name@.subrange(d + 1, name@.len() as int).len() == 4);
            }
        }
        return false;
    }
    let d = n - 5;
    let ok = name.get_char(d) == '.' && name.get_char(d + 1) == 'j' && name.get_char(d + 2) == 's'
        && name.get_char(d + 3) == 'o' && name.get_char(d + 4) == 'n';
    proof {
        if ok {
            assert(name@.subrange(d + 1, name@.len() as int) =~= "json"@);
            assert(name@ != ".."@) by {
                assert(name@.len() != 2);
            }
        } else {
            if json_file_name(name@) {
                let e = choose|e: int| 0 < e < name@.len() && name@[e] == '.' && name@.subrange(e + 1, name@.len() as int) == "json"@ && name@ != ".."@;
                assert(name@.subrange(e + 1, name@.len() as int).len() == 4);
                assert(e == d);
                assert(name@.subrange(e + 1, name@.len() as int)[0] == name@[d + 1]);
                assert(name@.subrange(e + 1, name@.len() as int)[1] == name@[d + 2]);
                assert(name@.subrange(e + 1, name@.len() as int)[2] == name@[d + 3]);
                assert(name@.subrange(e + 1, name@.len() as int)[3] == name@[d + 4]);
            }
        }
    }
    ok
}

/// A directory entry of the data directory: its file name, and the record
/// of the earlier format read from it when it could be read and parsed.
pub struct LegacyFile {
    pub name: String,
    pub record: Option<LegacyDayRecord>,
}

/// Which entries become migrations: `.json` files that were read and parsed,
/// in their order.
pub open spec fn migratable(files: Seq<LegacyFile>) -> Seq<int>
    decreases files.len(),
{
    if files.len() == 0 {
        Seq::<int>::empty()
    } else {
        let prev = migratable(files.drop_last());
        let f = files.last();
        if json_file_name(f.name@) && f.record is Some {
            prev.push(files.len() - 1)
        } else {
            prev
        }
    }
}

pub proof fn lemma_migratable(files: Seq<LegacyFile>)
    ensures
        forall|k: int|
            0 <= k < migratable(files).len() ==> 0 <= #[trigger] migratable(files)[k] < files.len()
                && json_file_name(files[migratable(files)[k]].name@) && files[migratable(files)[k]].record is Some,
    decreases files.len(),
{
    if files.len() > 0 {
        lemma_migratable(files.drop_last());
    }
}

/// Converts every `.json` entry that was read and parsed into a record of
/// sessions; gives, in order, the name of the file to remove and the record
/// to save in its place. Other entries are passed over.
pub fn migrate_legacy_data(files: &Vec<LegacyFile>) -> (r: Vec<(String, DayRecord)>)
    ensures
        r@.len() == migratable(files@).len(),
        forall|k: int|
            0 <= k < r@.len() ==> {
                let f = files@[migratable(files@)[k]];
                &&& (#[trigger] r@[k]).0@ == f.name@
                &&& r@[k].1.date == f.record->0.date
                &&& split_sessions_ok(f.record->0.events@, f.record->0.task_events@, r@[k].1.sessions@)
            },
{
    let mut r: Vec<(String, DayRecord)> = Vec::new();
    let mut i: usize = 0;
    assert(files@.take(0) =~= Seq::<LegacyFile>::empty());
    while i < files.len()
        invariant
            i <= files@.len(),
            r@.len() == migratable(files@.take(i as int)).len(),
            forall|k: int|
                0 <= k < r@.len() ==> {
                    let f = files@[migratable(files@.take(i as int))[k]];
                    &&& (#[trigger] r@[k]).0@ == f.name@
                    &&& r@[k].1.date == f.record->0.date
                    &&& split_sessions_ok(f.record->0.events@, f.record->0.task_events@, r@[k].1.sessions@)
                },
        decreases files@.len() - i,
    {
        proof {
            assert(files@.take(i + 1).drop_last() =~= files@.take(i as int));
            lemma_migratable(files@.take(i as int));
            lemma_migratable(files@.take(i + 1));
        }
        let f = &files[i];
        if is_legacy_file_name(f.name.as_str()) {
            match &f.record {
                Some(legacy) => {
                    let migrated = migrate_json(legacy);
                    r.push((f.name.clone(), migrated));
                },
                None => {},
            }
        }
        proof {
            let m = migratable(files@.take(i + 1));
            assert forall|k: int| 0 <= k < r@.len() implies files@[m[k]] == files@.take(i + 1)[m[k]] by {
            }
        }
        i = i + 1;
    }
    assert(files@.take(i as int) =~= files@);
    r
}

} // verus!

verus! {

/// The events of all sessions, one session after the other.
pub open spec fn all_events(ss: Seq<Session>) -> Seq<Event>
    decreases ss.len(),
{
    if ss.len() == 0 {
        Seq::<Event>::empty()
    } else {
        all_events(ss.drop_last()) + ss.last().events@
    }
}

pub open spec fn closed_events(cl: Seq<(u32, Seq<Event>)>) -> Seq<Event>
    decreases cl.len(),
{
    if cl.len() == 0 {
        Seq::<Event>::empty()
    } else {
        closed_events(cl.drop_last()) + cl.last().1
    }
}

/// No Stop among the events, but possibly the last one.
pub open spec fn stop_only_at_end(evs: Seq<Event>) -> bool {
    forall|j: int| 0 <= j < evs.len() - 1 ==> (#[trigger] evs[j]).kind != EventKind::Stop
}

#[verifier::rlimit(40)]
#[verifier::spinoff_prover]
proof fn lemma_split_state(evs: Seq<Event>)
    ensures
        closed_events(split_state(evs).0) + split_state(evs).1 == evs,
        forall|k: int|
            0 <= k < split_state(evs).0.len() ==> {
                let c = #[trigger] split_state(evs).0[k];
                &&& c.1.len() > 0
                &&& c.1.last().kind == EventKind::Stop
                &&& stop_only_at_end(c.1)
                &&& c.0 == k % 0x1_0000_0000
            },
        forall|j: int| 0 <= j < split_state(evs).1.len() ==> (#[trigger] split_state(evs).1[j]).kind != EventKind::Stop,
        split_state(evs).2 == split_state(evs).0.len() % 0x1_0000_0000,
    decreases evs.len(),
{
    if evs.len() > 0 {
        let prev = split_state(evs.drop_last());
        lemma_split_state(evs.drop_last());
        let st = split_state(evs);
        let e = evs.last();
        if e.kind == EventKind::Stop {
            assert(st.0.drop_last() =~= prev.0);
            assert(closed_events(st.0) =~= closed_events(prev.0) + prev.1.push(e));
            assert(evs =~= evs.drop_last().push(e));
            assert((closed_events(prev.0) + prev.1).push(e) =~= closed_events(prev.0) + prev.1.push(e));
            assert(closed_events(st.0) + st.1 =~= evs);
            assert forall|k: int| 0 <= k < st.0.len() implies {
                let c = #[trigger] st.0[k];
                &&& c.1.len() > 0
                &&& c.1.last().kind == EventKind::Stop
                &&& stop_only_at_end(c.1)
                &&& c.0 == k % 0x1_0000_0000
            } by {
                if k < prev.0.len() {
                    assert(st.0[k] == prev.0[k]);
                } else {
                    let c = st.0[k];
                    assert(c.1 == prev.1.push(e));
                    assert forall|j: int| 0 <= j < c.1.len() - 1 implies (#[trigger] c.1[j]).kind != EventKind::Stop by {
                        assert(c.1[j] == prev.1[j]);
                    }
                }
            }
        } else {
            assert(st.1 =~= prev.1.push(e));
            assert(closed_events(st.0) + st.1 =~= (closed_events(prev.0) + prev.1).push(e));
            assert(evs =~= evs.drop_last().push(e));
        }
    }
}

proof fn lemma_closed_sessions(r: Seq<Session>, cl: Seq<(u32, Seq<Event>)>, n: nat)
    requires
        n <= cl.len(),
        n <= r.len(),
        forall|k: int| 0 <= k < n ==> (#[trigger] r[k]).events@ == cl[k].1,
    ensures
        all_events(r.take(n as int)) == closed_events(cl.take(n as int)),
    decreases n,
{
    if n > 0 {
        lemma_closed_sessions(r, cl, (n - 1) as nat);
        assert(r.take(n as int).drop_last() =~= r.take(n - 1));
        assert(cl.take(n as int).drop_last() =~= cl.take(n - 1));
    }
}

/// Splitting loses, adds and reorders no event: the sessions, one after the
/// other, hold exactly the flat events. Every session ends at its first Stop,
/// all but the last end with one, and the sessions are numbered from 0 up
/// (modulo 2^32).
pub proof fn law_split_keeps_events(evs: Seq<Event>, tes: Seq<TaskEvent>, r: Seq<Session>)
    requires
        split_sessions_ok(evs, tes, r),
    ensures
        all_events(r) == evs,
        forall|k: int| 0 <= k < r.len() ==> stop_only_at_end(#[trigger] r[k].events@) && r[k].events@.len() > 0,
        forall|k: int| 0 <= k < r.len() - 1 ==> (#[trigger] r[k].events@).last().kind == EventKind::Stop,
        forall|k: int| 0 <= k < r.len() ==> (#[trigger] r[k]).index == k % 0x1_0000_0000,
{
    let st = split_state(evs);
    lemma_split_state(evs);
    lemma_closed_sessions(r, st.0, st.0.len());
    assert(st.0.take(st.0.len() as int) =~= st.0);
    if st.1.len() > 0 {
        assert(r.drop_last() =~= r.take(st.0.len() as int));
        assert(all_events(r) == all_events(r.drop_last()) + st.1);
        assert forall|j: int| 0 <= j < st.1.len() - 1 implies (#[trigger] st.1[j]).kind != EventKind::Stop by {
        }
    } else {
        assert(r =~= r.take(st.0.len() as int));
    }
    assert forall|k: int| 0 <= k < r.len() - 1 implies (#[trigger] r[k].events@).last().kind == EventKind::Stop by {
        assert(r[k].events@ == st.0[k].1);
    }
    assert forall|k: int| 0 <= k < r.len() implies stop_only_at_end(#[trigger] r[k].events@) && r[k].events@.len() > 0 by {
        if k < st.0.len() {
            assert(r[k].events@ == st.0[k].1);
        }
    }
}

/// The task spans given to a session are exactly the spans that start at or
/// after `from` and (when `until` is given) before `until`, in their order:
/// every such span is kept, none other is.
pub proof fn law_tasks_in_range_keep_every_span_of_the_window(tes: Seq<TaskEvent>, from: u64, until: Option<u64>)
    ensures
        tasks_in_range(tes, from, until) == tes.filter(
            |t: TaskEvent| t.start.nanos >= from && (until matches Some(u) ==> t.start.nanos < u),
        ),
        forall|i: int|
            0 <= i < tes.len() && tes[i].start.nanos >= from && (until matches Some(u) ==> tes[i].start.nanos < u)
                ==> #[trigger] tasks_in_range(tes, from, until).contains(tes[i]),
        forall|j: int|
            0 <= j < tasks_in_range(tes, from, until).len() ==> {
                let t = #[trigger] tasks_in_range(tes, from, until)[j];
                &&& tes.contains(t)
                &&& t.start.nanos >= from
                &&& (until matches Some(u) ==> t.start.nanos < u)
            },
    decreases tes.len(),
{
    let pred = |t: TaskEvent| t.start.nanos >= from && (until matches Some(u) ==> t.start.nanos < u);
    reveal(Seq::filter);
    if tes.len() > 0 {
        law_tasks_in_range_keep_every_span_of_the_window(tes.drop_last(), from, until);
        assert(tasks_in_range(tes, from, until) == tes.filter(pred));
    }
    tes.filter_lemma(pred);
    assert forall|j: int| 0 <= j < tes.filter(pred).len() implies tes.contains(#[trigger] tes.filter(pred)[j]) by {
        lemma_filter_from(tes, pred, j);
    }
}

proof fn lemma_filter_from(s: Seq<TaskEvent>, pred: spec_fn(TaskEvent) -> bool, j: int)
    requires
        0 <= j < s.filter(pred).len(),
    ensures
        s.contains(s.filter(pred)[j]),
    decreases s.len(),
{
    reveal(Seq::filter);
    if s.len() > 0 {
        let sub = s.drop_last().filter(pred);
        if j < sub.len() {
            lemma_filter_from(s.drop_last(), pred, j);
            assert(s.filter(pred)[j] == sub[j]);
            let k = choose|k: int| 0 <= k < s.drop_last().len() && s.drop_last()[k] == sub[j];
            assert(s[k] == sub[j]);
        } else {
            assert(s.filter(pred)[j] == s.last());
            assert(s[s.len() - 1] == s.last());
        }
    }
}

} // verus!
