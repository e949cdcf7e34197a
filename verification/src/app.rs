//! The state of the terminal interface and how it reacts to keys, card
//! events and the results of the outside work it asks for.

use vstd::prelude::*;
use crate::actions::{execute_action, go_post, pause_post, stop_post};
use crate::clock::ClockTime;
use crate::config::{slot_key, slot_set, spec_hours_text, task_spec_hours_text, Hours, TaskInfo, TrackerConfig};
use crate::date::{add_days, long_date_text, push_long_date, shifted_date, Date};
use crate::model::{DayRecord, EventKind};
use crate::smartcard::{CardEvent, ReaderProbe};
use crate::tasks::{running_task, start_post, start_task, stop_active_task, suspend_post, active_task_name};
use crate::text::{dec_nat, push_char, push_nat, trim, trimmed};
use crate::timer::fits;

verus! {

/// A key the interface reacts to.
#[derive(Clone, Copy, PartialEq, Eq, Structural, Debug)]
pub enum Key {
    Char(char),
    F(u8),
    Esc,
    Enter,
    Backspace,
    Left,
    Right,
    Other,
}

/// Whether the options are to be saved after a key, and whether a failure to
/// save them is to show in the feedback line (it does not where the key
/// wrote the feedback after saving).
#[derive(Clone, Copy, PartialEq, Eq, Structural, Debug)]
pub enum ConfigSave {
    No,
    Quiet,
    Reported,
}

/// Outside work a key needs before it can finish.
#[derive(Clone, Copy, PartialEq, Eq, Structural, Debug)]
pub enum Request {
    /// Probe the smartcard readers, then call `finish_smartcard_toggle`.
    ProbeReaders,
    /// Look for an editor and the viewed day's file, then call `finish_edit_day`.
    EditDay,
}

/// The outside work that follows a key.
#[derive(Clone, Copy, PartialEq, Eq, Structural, Debug)]
pub struct Effects {
    /// Today's record changed and is to be saved.
    pub save_record: bool,
    pub save_config: ConfigSave,
    /// The smartcard watcher is to be stopped.
    pub stop_watcher: bool,
    /// A smartcard watcher is to be started.
    pub spawn_watcher: bool,
    pub request: Option<Request>,
    /// The viewed day lies outside the calendar: there is no date to show.
    pub out_of_calendar: bool,
}

pub open spec fn no_effects() -> Effects {
    Effects {
        save_record: false,
        save_config: ConfigSave::No,
        stop_watcher: false,
        spawn_watcher: false,
        request: None,
        out_of_calendar: false,
    }
}

fn none() -> (e: Effects)
    ensures
        e == no_effects(),
{
    Effects {
        save_record: false,
        save_config: ConfigSave::No,
        stop_watcher: false,
        spawn_watcher: false,
        request: None,
        out_of_calendar: false,
    }
}

/// What the interface knows when a key comes: the time and day, and what the
/// text that Enter would read as hours (see `App::hours_text_to_read`) reads
/// as.
pub struct KeyContext {
    pub now: ClockTime,
    pub today: Date,
    pub entered_hours: Option<Hours>,
}

/// The interface's state.
pub struct App {
    pub config: TrackerConfig,
    pub feedback: String,
    pub should_quit: bool,
    pub reader_status: ReaderProbe,
    /// A smartcard watcher runs.
    pub watching: bool,
    pub task_editor_open: bool,
    pub editing_slot: Option<u8>,
    pub editing_buffer: String,
    pub editing_max_hours: bool,
    pub active_task: Option<u8>,
    pub decimal_time_format: bool,
    pub history_mode: bool,
    /// Days from today to the day viewed in history mode; never positive.
    pub viewed_day_offset: i32,
}

/// The interface's state as values: the options by what they hold, and the
/// texts as character sequences.
#[verifier::ext_equal]
pub struct AppView {
    pub smartcard_on: bool,
    pub tasks: Map<Seq<char>, TaskInfo>,
    pub max_hours: Option<Hours>,
    pub decimal_saved: bool,
    pub feedback: Seq<char>,
    pub should_quit: bool,
    pub reader_status: ReaderProbe,
    pub watching: bool,
    pub task_editor_open: bool,
    pub editing_slot: Option<u8>,
    pub buffer: Seq<char>,
    pub editing_max_hours: bool,
    pub active_task: Option<u8>,
    pub decimal: bool,
    pub history_mode: bool,
    pub offset: int,
}

impl View for App {
    type V = AppView;

    open spec fn view(&self) -> AppView {
        AppView {
            smartcard_on: self.config.smartcard.active,
            tasks: self.config.task_view(),
            max_hours: self.config.max_hours_per_day,
            decimal_saved: self.config.decimal_time_format,
            feedback: self.feedback@,
            should_quit: self.should_quit,
            reader_status: self.reader_status,
            watching: self.watching,
            task_editor_open: self.task_editor_open,
            editing_slot: self.editing_slot,
            buffer: self.editing_buffer@,
            editing_max_hours: self.editing_max_hours,
            active_task: self.active_task,
            decimal: self.decimal_time_format,
            history_mode: self.history_mode,
            offset: self.viewed_day_offset as int,
        }
    }
}

/// The first slot from `from` up to 9 whose task is named `name`.
pub open spec fn first_slot_named(tasks: Map<Seq<char>, TaskInfo>, name: Seq<char>, from: nat) -> Option<u8>
    decreases 10 - from,
{
    if from >= 10 {
        None
    } else if tasks.contains_key(slot_key(from as u8)) && tasks[slot_key(from as u8)].name@ == name {
        Some(from as u8)
    } else {
        first_slot_named(tasks, name, from + 1)
    }
}

/// The slot of the task running today, found by its name among the slots.
pub open spec fn recovered_slot(config: TrackerConfig, record: DayRecord) -> Option<u8> {
    match running_task(record) {
        Some(name) => first_slot_named(config.task_view(), name, 0),
        None => None,
    }
}

impl App {
    /// The state invariant: the options are well formed, a card watcher runs
    /// exactly while smartcard tracking is on, the time format shown is the
    /// one in the options, the viewed day is never after
    /// today, and outside history mode it is today.
    pub open spec fn wf(&self) -> bool {
        &&& self.config.wf()
        &&& self.watching == self.config.smartcard.active
        &&& self.decimal_time_format == self.config.decimal_time_format
        &&& self.viewed_day_offset <= 0
        &&& !self.history_mode ==> self.viewed_day_offset == 0
    }

    /// The slot of the task running today, found by its name.
    pub fn recover_active_task(config: &TrackerConfig, record: &DayRecord) -> (r: Option<u8>)
        requires
            config.wf(),
        ensures
            r == recovered_slot(*config, *record),
    {
        let running = match active_task_name(record) {
            Some(n) => n,
            None => {
                return None;
            },
        };
        let mut slot: u8 = 0;
        while slot < 10
            invariant
                slot <= 10,
                config.wf(),
                recovered_slot(*config, *record) == first_slot_named(config.task_view(), running@, slot as nat),
            decreases 10 - slot,
        {
            match config.task_name(slot) {
                Some(n) => {
                    if n == running {
                        return Some(slot);
                    }
                },
                None => {},
            }
            slot = slot + 1;
        }
        None
    }

    /// The interface at start, with the options loaded, the readers probed,
    /// and today's record. Smartcard tracking left on resumes when a reader is
    /// there (the returned flag: a watcher is to be started); without one it
    /// turns off (and the options are to be saved, which the second flag
    /// tells).
    pub fn new(config: TrackerConfig, reader_status: ReaderProbe, record: &DayRecord) -> (r: (App, bool, bool))
        requires
            config.wf(),
        ensures
            r.0.wf(),
            r.1 == (config.smartcard.active && reader_status == ReaderProbe::Available),
            r.2 == (config.smartcard.active && reader_status != ReaderProbe::Available),
            r.0.watching == r.1,
            r.0.config.smartcard.active == r.1,
            r.0.config.tasks == config.tasks,
            r.0.config.max_hours_per_day == config.max_hours_per_day,
            r.0.config.decimal_time_format == config.decimal_time_format,
            r.0.feedback@ == "Press a key to execute a command."@,
            !r.0.should_quit,
            r.0.reader_status == reader_status,
            !r.0.task_editor_open,
            r.0.editing_slot is None,
            r.0.editing_buffer@.len() == 0,
            !r.0.editing_max_hours,
            r.0.active_task == recovered_slot(config, *record),
            r.0.decimal_time_format == config.decimal_time_format,
            !r.0.history_mode,
            r.0.viewed_day_offset == 0,
    {
        let mut config = config;
        let spawn = config.smartcard_active() && reader_status == ReaderProbe::Available;
        let save = config.smartcard_active() && reader_status != ReaderProbe::Available;
        if save {
            config.set_smartcard_active(false);
        }
        let active_task = Self::recover_active_task(&config, record);
        let decimal = config.decimal_time_format();
        let app = App {
            config,
            feedback: String::from_str("Press a key to execute a command."),
            should_quit: false,
            reader_status,
            watching: spawn,
            task_editor_open: false,
            editing_slot: None,
            editing_buffer: String::new(),
            editing_max_hours: false,
            active_task,
            decimal_time_format: decimal,
            history_mode: false,
            viewed_day_offset: 0,
        };
        (app, spawn, save)
    }
}

} // verus!

verus! {

pub open spec fn with_feedback(v: AppView, fb: Seq<char>) -> AppView {
    AppView { feedback: fb, ..v }
}

/// Effects of a key that only saves the options.
pub open spec fn saving(s: ConfigSave) -> Effects {
    Effects { save_config: s, ..no_effects() }
}

/// Effects of a key whose day lies outside the calendar.
pub open spec fn off_calendar() -> Effects {
    Effects { out_of_calendar: true, ..no_effects() }
}

/// The state after F12.
pub open spec fn time_format_toggled(v: AppView) -> AppView {
    AppView {
        decimal: !v.decimal,
        decimal_saved: !v.decimal,
        feedback: if !v.decimal {
            "Time format: Decimal hours"@
        } else {
            "Time format: Hours and minutes"@
        },
        ..v
    }
}

/// The state after F3.
pub open spec fn history_toggled(v: AppView) -> AppView {
    AppView {
        history_mode: !v.history_mode,
        offset: if v.history_mode {
            0
        } else {
            v.offset
        },
        feedback: if !v.history_mode {
            "History mode: ON - Use ← → to navigate days"@
        } else {
            "History mode: OFF - Viewing today"@
        },
        ..v
    }
}

/// The offset after moving one day in `direction`, never past today (an
/// `i32` that wraps, as a release build's does, past its least value).
pub open spec fn moved_offset(offset: int, direction: int) -> int {
    let sum = if offset + direction < i32::MIN {
        i32::MAX as int
    } else {
        offset + direction
    };
    if sum > 0 {
        0
    } else {
        sum
    }
}

pub open spec fn with_offset(v: AppView, off: int) -> AppView {
    AppView { offset: off, ..v }
}

/// The date `t` of the date library's result.
pub open spec fn as_date(t: (int, int, int)) -> Date {
    Date { year: t.0 as i32, month: t.1 as u32, day: t.2 as u32 }
}

/// The day `offset` days from `today`, if in the calendar.
pub open spec fn viewed_day(today: Date, offset: int) -> Option<(int, int, int)> {
    shifted_date(today.year as int, today.month as int, today.day as int, offset)
}

impl App {
    /// Shows that saving the options failed.
    pub fn config_save_failed(&mut self, err: &str)
        ensures
            final(self)@ == with_feedback(old(self)@, "Error: "@ + err@),
            final(self).wf() == old(self).wf(),
    {
        let mut fb = String::from_str("Error: ");
        fb.append(err);
        self.feedback = fb;
    }

    /// F12: switches between hours-and-minutes and decimal hours.
    pub fn toggle_time_format(&mut self) -> (e: Effects)
        requires
            old(self).wf(),
        ensures
            final(self).wf(),
            final(self)@ == time_format_toggled(old(self)@),
            e == saving(ConfigSave::Reported),
    {
        self.decimal_time_format = !self.decimal_time_format;
        let d = self.decimal_time_format;
        self.config.set_decimal_time_format(d);
        if self.decimal_time_format {
            self.feedback = String::from_str("Time format: Decimal hours");
        } else {
            self.feedback = String::from_str("Time format: Hours and minutes");
        }
        Effects { save_config: ConfigSave::Reported, ..none() }
    }

    /// F3: switches history mode; leaving it returns to today.
    pub fn toggle_history_mode(&mut self) -> (e: Effects)
        requires
            old(self).wf(),
        ensures
            final(self).wf(),
            final(self)@ == history_toggled(old(self)@),
            e == no_effects(),
    {
        self.history_mode = !self.history_mode;
        if self.history_mode {
            self.feedback = String::from_str("History mode: ON - Use ← → to navigate days");
        } else {
            self.viewed_day_offset = 0;
            self.feedback = String::from_str("History mode: OFF - Viewing today");
        }
        none()
    }

    /// The day viewed: `offset` days from today (today itself outside
    /// history mode), never after today; `None` outside the calendar.
    pub fn get_viewed_date(&self, today: Date) -> (r: Option<Date>)
        requires
            today.valid(),
        ensures
            match r {
                Some(d) => shifted_date(today.year as int, today.month as int, today.day as int, self.viewed_day_offset as int)
                    == Some((d.year as int, d.month as int, d.day as int)) && d.valid(),
                None => shifted_date(today.year as int, today.month as int, today.day as int, self.viewed_day_offset as int) is None,
            },
            self.wf() && !self.history_mode ==> r == Some(today),
            self.wf() ==> (r matches Some(d) ==> d.not_after(today)),
    {
        add_days(today, self.viewed_day_offset as i64)
    }

    /// Left / Right in history mode: one day back or forth, never past today;
    /// the feedback names the day now viewed.
    pub fn navigate_history(&mut self, direction: i32, today: Date) -> (e: Effects)
        requires
            old(self).wf(),
            old(self).history_mode,
            today.valid(),
            direction == 1 || direction == -1,
        ensures
            final(self).wf(),
            final(self)@.offset == moved_offset(old(self)@.offset, direction as int),
            viewed_day(today, moved_offset(old(self)@.offset, direction as int)) matches Some(t)
                ==> final(self)@ == with_feedback(
                with_offset(old(self)@, moved_offset(old(self)@.offset, direction as int)),
                "Viewing: "@ + long_date_text(as_date(t)),
            ) && e == no_effects(),
            viewed_day(today, moved_offset(old(self)@.offset, direction as int)) is None ==> e
                == off_calendar(),
    {
        self.viewed_day_offset = self.viewed_day_offset.wrapping_add(direction);
        if self.viewed_day_offset > 0 {
            self.viewed_day_offset = 0;
        }
        match self.get_viewed_date(today) {
            Some(d) => {
                let mut fb = String::from_str("Viewing: ");
                push_long_date(&mut fb, d);
                self.feedback = fb;
                none()
            },
            None => Effects { out_of_calendar: true, ..none() },
        }
    }
}

} // verus!

verus! {

/// The name of the task in slot `slot`, if configured.
pub open spec fn slot_task(v: AppView, slot: u8) -> Option<Seq<char>> {
    if v.tasks.contains_key(slot_key(slot)) {
        Some(v.tasks[slot_key(slot)].name@)
    } else {
        None
    }
}

/// `a | b`, the two messages of one key.
pub open spec fn joined_msgs(a: Seq<char>, b: Seq<char>) -> Seq<char> {
    a + " | "@ + b
}

/// What `g` does: nothing but a message while tracking; else Go, and then the
/// task of the active slot (if it has one) starts.
pub open spec fn go_key_post(old: AppView, new: AppView, r0: DayRecord, r1: DayRecord, now: ClockTime, saved: bool) -> bool {
    if r0.tracking() {
        new == with_feedback(old, "Already tracking."@) && r1 == r0 && !saved
    } else {
        exists|mid: DayRecord, a: Seq<char>, c: bool| {
            &&& #[trigger] go_post(r0, mid, a, c, now)
            &&& saved
            &&& if old.active_task is Some && slot_task(old, old.active_task->0) is Some {
                exists|t: Seq<char>, c2: bool| {
                    &&& #[trigger] start_post(mid, r1, slot_task(old, old.active_task->0)->0, now, t, c2)
                    &&& new == with_feedback(old, joined_msgs(a, t))
                }
            } else {
                r1 == mid && new == with_feedback(old, a)
            }
        }
    }
}

/// The running task is suspended (`r0` to `mid`), then Pause or Stop applies
/// (`mid` to `r1`).
pub open spec fn close_steps(kind: EventKind, r0: DayRecord, mid: DayRecord, r1: DayRecord, m: Option<Seq<char>>, a: Seq<char>, c: bool, now: ClockTime) -> bool {
    &&& suspend_post(r0, mid, now, m)
    &&& (if kind == EventKind::Pause {
        pause_post(mid, r1, a, c, now)
    } else {
        stop_post(mid, r1, a, c, now)
    })
}

/// What `p` and `s` do: the running task is suspended, then Pause or Stop
/// applies; the feedback joins both messages. Stop also forgets the active
/// slot.
pub open spec fn close_key_post(kind: EventKind, old: AppView, new: AppView, r0: DayRecord, r1: DayRecord, now: ClockTime, saved: bool) -> bool {
    exists|mid: DayRecord, m: Option<Seq<char>>, a: Seq<char>, c: bool| {
        &&& #[trigger] close_steps(kind, r0, mid, r1, m, a, c, now)
        &&& saved == (m is Some || c)
        &&& new == with_feedback(
            AppView {
                active_task: if kind == EventKind::Stop {
                    None
                } else {
                    old.active_task
                },
                ..old
            },
            match m {
                Some(t) => joined_msgs(t, a),
                None => a,
            },
        )
    }
}

impl App {
    fn handle_go(&mut self, record: &mut DayRecord, now: ClockTime) -> (saved: bool)
        requires
            old(self).wf(),
            fits(&*old(record)),
        ensures
            final(self).wf(),
            go_key_post(old(self)@, final(self)@, *old(record), *final(record), now, saved),
    {
        if record.is_tracking() {
            self.feedback = String::from_str("Already tracking.");
            return false;
        }
        let (base, changed) = execute_action(record, EventKind::Go, now);
        let ghost mid = *record;
        let ghost a = base@;
        match self.active_task {
            Some(slot) => {
                match self.config.task_name(slot) {
                    Some(name) => {
                        let (t, c2) = start_task(record, name.as_str(), now);
                        let ghost tv = t@;
                        let mut fb = base;
                        fb.append(" | ");
                        fb.append(t.as_str());
                        self.feedback = fb;
                        proof {
                            assert(go_post(*old(record), mid, a, changed, now));
                            assert(slot_task(old(self)@, old(self)@.active_task->0)->0 == name@);
                            assert(start_post(mid, *record, slot_task(old(self)@, old(self)@.active_task->0)->0, now, tv, c2));
                            assert(self@ == with_feedback(old(self)@, joined_msgs(a, tv)));
                        }
                        return true;
                    },
                    None => {},
                }
            },
            None => {},
        }
        self.feedback = base;
        proof {
            assert(go_post(*old(record), mid, a, changed, now));
        }
        true
    }

    fn close_session_key(&mut self, record: &mut DayRecord, kind: EventKind, now: ClockTime) -> (saved: bool)
        requires
            old(self).wf(),
            fits(&*old(record)),
            kind == EventKind::Pause || kind == EventKind::Stop,
        ensures
            final(self).wf(),
            close_key_post(kind, old(self)@, final(self)@, *old(record), *final(record), now, saved),
    {
        let task_part = stop_active_task(record, now);
        let ghost mid = *record;
        let ghost m: Option<Seq<char>> = match &task_part {
            Some(t) => Some(t@),
            None => None,
        };
        if kind == EventKind::Stop {
            self.active_task = None;
        }
        let (base, changed) = execute_action(record, kind, now);
        let ghost a = base@;
        let suspended = task_part.is_some();
        match task_part {
            Some(t) => {
                let mut fb = t;
                fb.append(" | ");
                fb.append(base.as_str());
                self.feedback = fb;
            },
            None => {
                self.feedback = base;
            },
        }
        proof {
            assert(close_steps(kind, *old(record), mid, *record, m, a, changed, now));
        }
        suspended || changed
    }
}

} // verus!

verus! {

/// Where the task of the slot starts: after Go when the day has no open
/// session (`r0` to `mid`), else at once.
pub open spec fn task_start_steps(r0: DayRecord, mid: DayRecord, r1: DayRecord, name: Seq<char>, t: Seq<char>, c: bool, c2: bool, now: ClockTime) -> bool {
    &&& (if r0.active() {
        mid == r0 && !c
    } else {
        exists|a: Seq<char>| #[trigger] go_post(r0, mid, a, c, now)
    })
    &&& start_post(mid, r1, name, now, t, c2)
}

pub open spec fn no_task_text(slot: u8) -> Seq<char> {
    "Slot "@ + dec_nat(slot as nat) + " has no task assigned. Press F1 to edit."@
}

/// What a digit key does outside the task editor: an empty slot only says
/// so; the active slot's task is suspended and the slot made inactive; any
/// other slot's task starts (after Go, when no session is open) and the slot
/// becomes the active one.
pub open spec fn toggle_task_post(old: AppView, new: AppView, r0: DayRecord, r1: DayRecord, slot: u8, now: ClockTime, saved: bool) -> bool {
    match slot_task(old, slot) {
        None => new == with_feedback(old, no_task_text(slot)) && r1 == r0 && !saved,
        Some(name) => if old.active_task == Some(slot) {
            exists|m: Option<Seq<char>>| {
                &&& #[trigger] suspend_post(r0, r1, now, m)
                &&& saved == m is Some
                &&& new == with_feedback(
                    AppView { active_task: None, ..old },
                    match m {
                        Some(t) => t,
                        None => old.feedback,
                    },
                )
            }
        } else {
            slot_task_started(old, new, r0, r1, slot, name, now, saved)
        },
    }
}

/// The task `name` of slot `slot` started, and the slot is the active one.
pub open spec fn slot_task_started(old: AppView, new: AppView, r0: DayRecord, r1: DayRecord, slot: u8, name: Seq<char>, now: ClockTime, saved: bool) -> bool {
    exists|mid: DayRecord, t: Seq<char>, c: bool, c2: bool| {
        &&& #[trigger] task_start_steps(r0, mid, r1, name, t, c, c2, now)
        &&& saved == (c || c2)
        &&& new == with_feedback(AppView { active_task: Some(slot), ..old }, t)
    }
}

/// What F1 does: opens or closes the task editor (closing drops any editing).
pub open spec fn task_editor_toggled(v: AppView) -> AppView {
    AppView {
        editing_slot: if v.task_editor_open {
            None
        } else {
            v.editing_slot
        },
        editing_max_hours: if v.task_editor_open {
            false
        } else {
            v.editing_max_hours
        },
        buffer: if v.task_editor_open {
            Seq::<char>::empty()
        } else {
            v.buffer
        },
        task_editor_open: !v.task_editor_open,
        feedback: if !v.task_editor_open {
            "Task Editor opened. Press 0 - 9 to edit a slot, H for max hours."@
        } else {
            "Task Editor closed."@
        },
        ..v
    }
}

/// What F2 does before any probe: with tracking on, stops the watcher and
/// turns tracking off; with the library known missing, says so.
pub open spec fn smartcard_off(v: AppView) -> AppView {
    AppView { watching: false, smartcard_on: false, feedback: "Smartcard auto-tracking OFF."@, ..v }
}

/// What F2 does after a probe.
pub open spec fn smartcard_probed(v: AppView, probe: ReaderProbe) -> AppView {
    match probe {
        ReaderProbe::Available => AppView {
            reader_status: probe,
            watching: true,
            smartcard_on: true,
            feedback: "Smartcard auto-tracking ON."@,
            ..v
        },
        ReaderProbe::NoReaders => AppView {
            reader_status: probe,
            feedback: "Cannot activate: no smartcard reader detected."@,
            ..v
        },
        ReaderProbe::Unavailable => AppView {
            reader_status: probe,
            feedback: "Cannot activate: PC/SC subsystem unavailable."@,
            ..v
        },
    }
}

impl App {
    fn start_slot_task(&mut self, slot: u8, name: &String, record: &mut DayRecord, now: ClockTime) -> (saved: bool)
        requires
            old(self).wf(),
            fits(&*old(record)),
        ensures
            final(self).wf(),
            slot_task_started(old(self)@, final(self)@, *old(record), *final(record), slot, name@, now, saved),
    {
        let mut c = false;
        let ghost mut a: Seq<char> = Seq::empty();
        if !record.has_active_session() {
            let (go_msg, changed) = execute_action(record, EventKind::Go, now);
            proof {
                a = go_msg@;
            }
            c = changed;
        }
        let ghost mid = *record;
        proof {
            if !old(record).active() {
                assert(go_post(*old(record), mid, a, c, now));
            }
        }
        let (t, c2) = start_task(record, name.as_str(), now);
        let ghost tv = t@;
        self.feedback = t;
        self.active_task = Some(slot);
        proof {
            assert(task_start_steps(*old(record), mid, *record, name@, tv, c, c2, now));
        }
        c || c2
    }

    fn toggle_task(&mut self, slot: u8, record: &mut DayRecord, now: ClockTime) -> (saved: bool)
        requires
            old(self).wf(),
            fits(&*old(record)),
        ensures
            final(self).wf(),
            toggle_task_post(old(self)@, final(self)@, *old(record), *final(record), slot, now, saved),
    {
        let name = match self.config.task_name(slot) {
            Some(n) => n,
            None => {
                let mut fb = String::from_str("Slot ");
                push_nat(&mut fb, slot as u128);
                fb.append(" has no task assigned. Press F1 to edit.");
                assert(fb@ =~= no_task_text(slot));
                self.feedback = fb;
                return false;
            },
        };
        assert(slot_task(old(self)@, slot) == Some(name@));
        let is_active = match self.active_task {
            Some(s) => s == slot,
            None => false,
        };
        if is_active {
            let msg = stop_active_task(record, now);
            let ghost m: Option<Seq<char>> = match &msg {
                Some(t) => Some(t@),
                None => None,
            };
            let saved = msg.is_some();
            match msg {
                Some(t) => {
                    self.feedback = t;
                },
                None => {},
            }
            self.active_task = None;
            proof {
                assert(suspend_post(*old(record), *record, now, m));
                assert(toggle_task_post(old(self)@, self@, *old(record), *record, slot, now, saved));
            }
            return saved;
        }
        assert(old(self)@.active_task != Some(slot));
        let saved = self.start_slot_task(slot, &name, record, now);
        assert(toggle_task_post(old(self)@, self@, *old(record), *record, slot, now, saved));
        saved
    }

    fn toggle_task_editor(&mut self) -> (e: Effects)
        requires
            old(self).wf(),
        ensures
            final(self).wf(),
            final(self)@ == task_editor_toggled(old(self)@),
            e == saving(ConfigSave::Quiet),
    {
        if self.task_editor_open {
            self.editing_slot = None;
            self.editing_max_hours = false;
            self.editing_buffer = String::new();
        }
        self.task_editor_open = !self.task_editor_open;
        if self.task_editor_open {
            self.feedback = String::from_str("Task Editor opened. Press 0 - 9 to edit a slot, H for max hours.");
        } else {
            self.feedback = String::from_str("Task Editor closed.");
        }
        Effects { save_config: ConfigSave::Quiet, ..none() }
    }

    fn toggle_smartcard(&mut self) -> (e: Effects)
        requires
            old(self).wf(),
        ensures
            final(self).wf(),
            old(self)@.smartcard_on ==> final(self)@ == smartcard_off(old(self)@) && e == (Effects {
                stop_watcher: old(self)@.watching,
                save_config: ConfigSave::Quiet,
                ..no_effects()
            }),
            !old(self)@.smartcard_on && old(self)@.reader_status == ReaderProbe::Unavailable ==> final(self)@
                == with_feedback(old(self)@, "Cannot activate: PC/SC library not found on this system."@)
                && e == no_effects(),
            !old(self)@.smartcard_on && old(self)@.reader_status != ReaderProbe::Unavailable ==> final(self)@
                == old(self)@ && e == (Effects { request: Some(Request::ProbeReaders), ..no_effects() }),
    {
        if self.config.smartcard_active() {
            let stop = self.watching;
            self.watching = false;
            self.config.set_smartcard_active(false);
            self.feedback = String::from_str("Smartcard auto-tracking OFF.");
            return Effects { stop_watcher: stop, save_config: ConfigSave::Quiet, ..none() };
        }
        if self.reader_status == ReaderProbe::Unavailable {
            self.feedback = String::from_str("Cannot activate: PC/SC library not found on this system.");
            return none();
        }
        Effects { request: Some(Request::ProbeReaders), ..none() }
    }

    /// Finishes F2 with the result of a fresh probe: a reader turns tracking
    /// on (a watcher is to be started, the options saved).
    pub fn finish_smartcard_toggle(&mut self, probe: ReaderProbe) -> (e: Effects)
        requires
            old(self).wf(),
        ensures
            final(self).wf(),
            final(self)@ == smartcard_probed(old(self)@, probe),
            e == (if probe == ReaderProbe::Available {
                Effects { spawn_watcher: true, save_config: ConfigSave::Quiet, ..no_effects() }
            } else {
                no_effects()
            }),
    {
        self.reader_status = probe;
        match probe {
            ReaderProbe::Available => {
                self.watching = true;
                self.config.set_smartcard_active(true);
                self.feedback = String::from_str("Smartcard auto-tracking ON.");
                Effects { spawn_watcher: true, save_config: ConfigSave::Quiet, ..none() }
            },
            ReaderProbe::NoReaders => {
                self.feedback = String::from_str("Cannot activate: no smartcard reader detected.");
                none()
            },
            ReaderProbe::Unavailable => {
                self.feedback = String::from_str("Cannot activate: PC/SC subsystem unavailable.");
                none()
            },
        }
    }
}

} // verus!

verus! {

pub open spec fn is_digit(c: char) -> bool {
    '0' <= c <= '9'
}

pub open spec fn digit_slot(c: char) -> u8 {
    ((c as u32) - 48) as u8
}

pub open spec fn max_hours_prompt() -> Seq<char> {
    "Editing max hours/day - type hours (e.g. 8.5), Enter to save, Esc to cancel"@
}

pub open spec fn slot_prompt(slot: u8) -> Seq<char> {
    "Editing slot "@ + dec_nat(slot as nat) + " - format: TaskName or TaskName:2.5 - Enter to save, Esc to cancel"@
}

/// The text a slot's task is edited from: its name, and `:` with its limit
/// when it has one.
pub open spec fn slot_edit_text(v: AppView, slot: u8) -> Seq<char> {
    if v.tasks.contains_key(slot_key(slot)) {
        let info = v.tasks[slot_key(slot)];
        info.name@ + match info.max_hours {
            Some(h) => ":"@ + h.text@,
            None => Seq::<char>::empty(),
        }
    } else {
        Seq::<char>::empty()
    }
}

/// What a key does in the task editor when nothing is being edited: `m`
/// (or `h`, `H`) edits the daily limit, a digit edits its slot.
pub open spec fn browse_key(v: AppView, key: Key) -> (AppView, Effects) {
    match key {
        Key::F(1) | Key::Esc => (task_editor_toggled(v), saving(ConfigSave::Quiet)),
        Key::Char(c) => if c == 'h' || c == 'H' || c == 'm' {
            (
                AppView {
                    buffer: match v.max_hours {
                        Some(h) => h.text@,
                        None => Seq::<char>::empty(),
                    },
                    editing_max_hours: true,
                    feedback: max_hours_prompt(),
                    ..v
                },
                no_effects(),
            )
        } else if is_digit(c) {
            (
                AppView {
                    buffer: slot_edit_text(v, digit_slot(c)),
                    editing_slot: Some(digit_slot(c)),
                    feedback: slot_prompt(digit_slot(c)),
                    ..v
                },
                no_effects(),
            )
        } else {
            (v, no_effects())
        },
        _ => (v, no_effects()),
    }
}

impl App {
    fn handle_key_editor_browse(&mut self, key: Key) -> (e: Effects)
        requires
            old(self).wf(),
        ensures
            final(self).wf(),
            (final(self)@, e) == browse_key(old(self)@, key),
    {
        match key {
            Key::F(1) | Key::Esc => self.toggle_task_editor(),
            Key::Char(c) => {
                if c == 'h' || c == 'H' || c == 'm' {
                    self.editing_buffer = match self.config.max_hours_per_day() {
                        Some(h) => h.text,
                        None => String::new(),
                    };
                    self.editing_max_hours = true;
                    self.feedback = String::from_str(
                        "Editing max hours/day - type hours (e.g. 8.5), Enter to save, Esc to cancel",
                    );
                    none()
                } else if '0' <= c && c <= '9' {
                    let slot: u8 = ((c as u32) - 48) as u8;
                    let mut buf = String::new();
                    match self.config.task_info(slot) {
                        Some(info) => {
                            buf.append(info.name.as_str());
                            match &info.max_hours {
                                Some(h) => {
                                    buf.append(":");
                                    buf.append(h.text.as_str());
                                },
                                None => {},
                            }
                        },
                        None => {},
                    }
                    assert(buf@ =~= slot_edit_text(old(self)@, slot));
                    self.editing_buffer = buf;
                    self.editing_slot = Some(slot);
                    let mut fb = String::from_str("Editing slot ");
                    push_nat(&mut fb, slot as u128);
                    fb.append(" - format: TaskName or TaskName:2.5 - Enter to save, Esc to cancel");
                    assert(fb@ =~= slot_prompt(slot));
                    self.feedback = fb;
                    none()
                } else {
                    none()
                }
            },
            _ => none(),
        }
    }
}

} // verus!

verus! {

/// The text Enter reads as hours while editing: the whole (trimmed) text
/// when editing the daily limit, the part after `:` when editing a slot.
pub open spec fn spec_hours_to_read(v: AppView) -> Option<Seq<char>> {
    if v.editing_max_hours {
        Some(trimmed(v.buffer))
    } else if v.editing_slot is Some {
        spec_hours_text(trimmed(v.buffer))
    } else {
        None
    }
}

pub open spec fn slot_saved_text(slot: u8, name: Seq<char>) -> Seq<char> {
    "Slot "@ + dec_nat(slot as nat) + " -> \""@ + name + "\" saved."@
}

pub open spec fn slot_cleared_text(slot: u8) -> Seq<char> {
    "Slot "@ + dec_nat(slot as nat) + " cleared."@
}

/// Enter while editing the daily limit: an empty text clears it; hours in
/// `(0, 24]` set it; anything else is refused. Editing ends.
pub open spec fn max_hours_entered(v: AppView, hours: Option<Hours>) -> AppView {
    let t = trimmed(v.buffer);
    let (max, fb) = if t.len() == 0 {
        (None, "Max hours/day cleared."@)
    } else if hours matches Some(h) && h.in_day {
        (hours, "Max hours/day set to "@ + hours->0.text@ + "h"@)
    } else {
        (v.max_hours, "Invalid hours. Enter a number between 0 and 24."@)
    };
    AppView { max_hours: max, feedback: fb, editing_max_hours: false, buffer: Seq::<char>::empty(), ..v }
}

/// What a key does while a slot or the daily limit is being edited.
pub open spec fn editing_post(old: AppView, new: AppView, key: Key, hours: Option<Hours>, e: Effects) -> bool {
    match key {
        Key::Enter => if old.editing_max_hours {
            new == max_hours_entered(old, hours) && e == saving(ConfigSave::Reported)
        } else {
            let slot = old.editing_slot->0;
            let name = trimmed(old.buffer);
            &&& slot_set(old.tasks, new.tasks, slot, name, hours)
            &&& e == saving(ConfigSave::Quiet)
            &&& new == AppView {
                tasks: new.tasks,
                editing_slot: None,
                buffer: Seq::<char>::empty(),
                feedback: if name.len() == 0 {
                    slot_cleared_text(slot)
                } else {
                    slot_saved_text(slot, name)
                },
                active_task: if name.len() == 0 && old.active_task == Some(slot) {
                    None
                } else {
                    old.active_task
                },
                ..old
            }
        },
        Key::Esc => e == no_effects() && new == if old.editing_max_hours {
            AppView {
                editing_max_hours: false,
                feedback: "Editing max hours cancelled."@,
                buffer: Seq::<char>::empty(),
                ..old
            }
        } else {
            AppView {
                editing_slot: None,
                feedback: "Editing slot "@ + dec_nat(old.editing_slot->0 as nat) + " cancelled."@,
                buffer: Seq::<char>::empty(),
                ..old
            }
        },
        Key::Backspace => e == no_effects() && new == AppView {
            buffer: if old.buffer.len() > 0 {
                old.buffer.drop_last()
            } else {
                old.buffer
            },
            ..old
        },
        Key::Char(c) => e == no_effects() && new == if old.editing_max_hours && !(is_digit(c) || c == '.') {
            old
        } else {
            AppView { buffer: old.buffer.push(c), ..old }
        },
        _ => e == no_effects() && new == old,
    }
}

/// Removes the last character, if any.
pub fn pop_char(s: &mut String)
    ensures
        final(s)@ == if old(s)@.len() > 0 {
            old(s)@.drop_last()
        } else {
            old(s)@
        },
{
    let n = s.as_str().unicode_len();
    if n > 0 {
        let t = s.as_str().substring_char(0, n - 1).to_owned();
        *s = t;
        assert(s@ =~= old(s)@.drop_last());
    }
}

impl App {
    /// The text that Enter would read as hours, if it reads any: to be read
    /// as a number and handed to `handle_key` in `KeyContext::entered_hours`.
    pub fn hours_text_to_read(&self) -> (r: Option<String>)
        ensures
            match r {
                Some(t) => spec_hours_to_read(self@) == Some(t@),
                None => spec_hours_to_read(self@) is None,
            },
    {
        if self.editing_max_hours {
            Some(trim(self.editing_buffer.as_str()))
        } else if self.editing_slot.is_some() {
            let name = trim(self.editing_buffer.as_str());
            task_spec_hours_text(name.as_str())
        } else {
            None
        }
    }

    fn handle_key_editing(&mut self, key: Key, hours: Option<Hours>) -> (e: Effects)
        requires
            old(self).wf(),
            old(self).editing_slot is Some || old(self).editing_max_hours,
        ensures
            final(self).wf(),
            editing_post(old(self)@, final(self)@, key, hours, e),
    {
        match key {
            Key::Enter => {
                if self.editing_max_hours {
                    let t = trim(self.editing_buffer.as_str());
                    if t.unicode_len() == 0 {
                        self.config.set_max_hours_per_day(None);
                        self.feedback = String::from_str("Max hours/day cleared.");
                    } else {
                        match hours {
                            Some(h) => {
                                if h.in_day {
                                    let mut fb = String::from_str("Max hours/day set to ");
                                    fb.append(h.text.as_str());
                                    fb.append("h");
                                    self.feedback = fb;
                                    self.config.set_max_hours_per_day(Some(h));
                                } else {
                                    self.feedback = String::from_str("Invalid hours. Enter a number between 0 and 24.");
                                }
                            },
                            None => {
                                self.feedback = String::from_str("Invalid hours. Enter a number between 0 and 24.");
                            },
                        }
                    }
                    self.editing_max_hours = false;
                    self.editing_buffer = String::new();
                    Effects { save_config: ConfigSave::Reported, ..none() }
                } else {
                    let slot = match self.editing_slot {
                        Some(s) => s,
                        None => 0,
                    };
                    self.editing_slot = None;
                    let name = trim(self.editing_buffer.as_str());
                    self.config.set_task_name(slot, name.as_str(), hours);
                    if name.unicode_len() == 0 {
                        let mut fb = String::from_str("Slot ");
                        push_nat(&mut fb, slot as u128);
                        fb.append(" cleared.");
                        assert(fb@ =~= slot_cleared_text(slot));
                        self.feedback = fb;
                        let was_active = match self.active_task {
                            Some(a) => a == slot,
                            None => false,
                        };
                        if was_active {
                            self.active_task = None;
                        }
                    } else {
                        let mut fb = String::from_str("Slot ");
                        push_nat(&mut fb, slot as u128);
                        fb.append(" -> \"");
                        fb.append(name.as_str());
                        fb.append("\" saved.");
                        assert(fb@ =~= slot_saved_text(slot, name@));
                        self.feedback = fb;
                    }
                    self.editing_buffer = String::new();
                    Effects { save_config: ConfigSave::Quiet, ..none() }
                }
            },
            Key::Esc => {
                if self.editing_max_hours {
                    self.editing_max_hours = false;
                    self.feedback = String::from_str("Editing max hours cancelled.");
                } else {
                    let slot = match self.editing_slot {
                        Some(s) => s,
                        None => 0,
                    };
                    self.editing_slot = None;
                    let mut fb = String::from_str("Editing slot ");
                    push_nat(&mut fb, slot as u128);
                    fb.append(" cancelled.");
                    self.feedback = fb;
                }
                self.editing_buffer = String::new();
                none()
            },
            Key::Backspace => {
                pop_char(&mut self.editing_buffer);
                none()
            },
            Key::Char(c) => {
                if self.editing_max_hours {
                    if ('0' <= c && c <= '9') || c == '.' {
                        push_char(&mut self.editing_buffer, c);
                    }
                } else {
                    push_char(&mut self.editing_buffer, c);
                }
                none()
            },
            _ => none(),
        }
    }
}

} // verus!

verus! {

/// Finishing `e`: without an editor, says so; else the viewed day's file is
/// to be created (as an empty record) when missing, and the feedback names
/// the day.
pub open spec fn edit_day_finished(v: AppView, editor: Option<(Date, bool)>) -> (AppView, bool) {
    match editor {
        None => (with_feedback(v, "No text editor found. Set EDITOR environment variable."@), false),
        Some((day, exists)) => (
            with_feedback(v, "Opening "@ + crate::date::iso_date_text(day) + " in editor..."@),
            !exists,
        ),
    }
}

/// Effects of a key that changed (or not) today's record.
pub open spec fn record_effects(saved: bool) -> Effects {
    Effects { save_record: saved, ..no_effects() }
}

/// What a key does outside the task editor.
pub open spec fn normal_post(old: AppView, new: AppView, r0: DayRecord, r1: DayRecord, key: Key, now: ClockTime, today: Date, e: Effects) -> bool {
    match key {
        Key::Char(c) => if c == 'q' {
            new == AppView { should_quit: true, ..old } && r1 == r0 && e == no_effects()
        } else if c == 'g' {
            go_key_post(old, new, r0, r1, now, e.save_record) && e == record_effects(e.save_record)
        } else if c == 'p' {
            close_key_post(EventKind::Pause, old, new, r0, r1, now, e.save_record) && e == record_effects(
                e.save_record,
            )
        } else if c == 's' {
            close_key_post(EventKind::Stop, old, new, r0, r1, now, e.save_record) && e == record_effects(
                e.save_record,
            )
        } else if c == 'e' {
            new == old && r1 == r0 && e == (Effects { request: Some(Request::EditDay), ..no_effects() })
        } else if is_digit(c) {
            toggle_task_post(old, new, r0, r1, digit_slot(c), now, e.save_record) && e == record_effects(
                e.save_record,
            )
        } else {
            new == old && r1 == r0 && e == no_effects()
        },
        Key::Esc => new == AppView { should_quit: true, ..old } && r1 == r0 && e == no_effects(),
        Key::F(n) => r1 == r0 && if n == 1 {
            new == task_editor_toggled(old) && e == saving(ConfigSave::Quiet)
        } else if n == 2 {
            if old.smartcard_on {
                new == smartcard_off(old) && e == (Effects {
                    stop_watcher: old.watching,
                    save_config: ConfigSave::Quiet,
                    ..no_effects()
                })
            } else if old.reader_status == ReaderProbe::Unavailable {
                new == with_feedback(old, "Cannot activate: PC/SC library not found on this system."@) && e
                    == no_effects()
            } else {
                new == old && e == (Effects { request: Some(Request::ProbeReaders), ..no_effects() })
            }
        } else if n == 3 {
            new == history_toggled(old) && e == no_effects()
        } else if n == 12 {
            new == time_format_toggled(old) && e == saving(ConfigSave::Reported)
        } else {
            new == old && e == no_effects()
        },
        Key::Left | Key::Right => r1 == r0 && if old.history_mode {
            let dir: int = if key == Key::Left {
                -1
            } else {
                1
            };
            let off = moved_offset(old.offset, dir);
            &&& new.offset == off
            &&& viewed_day(today, off) matches Some(t) ==> new == with_feedback(
                with_offset(old, off),
                "Viewing: "@ + long_date_text(as_date(t)),
            ) && e == no_effects()
            &&& viewed_day(today, off) is None ==> e == off_calendar()
        } else {
            new == old && e == no_effects()
        },
        _ => new == old && r1 == r0 && e == no_effects(),
    }
}

/// What a key does: while editing, it edits; in the task editor, it browses
/// the slots; else it is a command.
pub open spec fn key_post(old: AppView, new: AppView, r0: DayRecord, r1: DayRecord, key: Key, now: ClockTime, today: Date, hours: Option<Hours>, e: Effects) -> bool {
    if old.editing_slot is Some || old.editing_max_hours {
        r1 == r0 && editing_post(old, new, key, hours, e)
    } else if old.task_editor_open {
        r1 == r0 && (new, e) == browse_key(old, key)
    } else {
        normal_post(old, new, r0, r1, key, now, today, e)
    }
}

impl App {
    /// Finishes `e` with what was found: `None` without an editor, else the
    /// viewed day and whether its file exists. Returns whether that file is to
    /// be created, holding an empty record.
    pub fn finish_edit_day(&mut self, editor: Option<(Date, bool)>) -> (create: bool)
        requires
            old(self).wf(),
        ensures
            final(self).wf(),
            (final(self)@, create) == edit_day_finished(old(self)@, editor),
    {
        match editor {
            None => {
                self.feedback = String::from_str("No text editor found. Set EDITOR environment variable.");
                false
            },
            Some((day, exists)) => {
                let mut fb = String::from_str("Opening ");
                crate::date::push_iso_date(&mut fb, day);
                fb.append(" in editor...");
                self.feedback = fb;
                !exists
            },
        }
    }

    fn handle_key_normal(&mut self, key: Key, record: &mut DayRecord, now: ClockTime, today: Date) -> (e: Effects)
        requires
            old(self).wf(),
            fits(&*old(record)),
            today.valid(),
        ensures
            final(self).wf(),
            normal_post(old(self)@, final(self)@, *old(record), *final(record), key, now, today, e),
    {
        match key {
            Key::Char(c) => {
                if c == 'q' {
                    self.should_quit = true;
                    none()
                } else if c == 'g' {
                    let saved = self.handle_go(record, now);
                    Effects { save_record: saved, ..none() }
                } else if c == 'p' {
                    let saved = self.close_session_key(record, EventKind::Pause, now);
                    Effects { save_record: saved, ..none() }
                } else if c == 's' {
                    let saved = self.close_session_key(record, EventKind::Stop, now);
                    Effects { save_record: saved, ..none() }
                } else if c == 'e' {
                    Effects { request: Some(Request::EditDay), ..none() }
                } else if '0' <= c && c <= '9' {
                    let slot: u8 = ((c as u32) - 48) as u8;
                    let saved = self.toggle_task(slot, record, now);
                    Effects { save_record: saved, ..none() }
                } else {
                    none()
                }
            },
            Key::Esc => {
                self.should_quit = true;
                none()
            },
            Key::F(n) => {
                if n == 1 {
                    self.toggle_task_editor()
                } else if n == 2 {
                    self.toggle_smartcard()
                } else if n == 3 {
                    self.toggle_history_mode()
                } else if n == 12 {
                    self.toggle_time_format()
                } else {
                    none()
                }
            },
            Key::Left => {
                if self.history_mode {
                    self.navigate_history(-1, today)
                } else {
                    none()
                }
            },
            Key::Right => {
                if self.history_mode {
                    self.navigate_history(1, today)
                } else {
                    none()
                }
            },
            _ => none(),
        }
    }

    /// Reacts to a key. Today's record (`record`) may change; what the
    /// interface is then to do outside comes back.
    pub fn handle_key(&mut self, key: Key, record: &mut DayRecord, ctx: &KeyContext) -> (e: Effects)
        requires
            old(self).wf(),
            fits(&*old(record)),
            ctx.today.valid(),
        ensures
            final(self).wf(),
            key_post(old(self)@, final(self)@, *old(record), *final(record), key, ctx.now, ctx.today, ctx.entered_hours, e),
    {
        if self.editing_slot.is_some() || self.editing_max_hours {
            let hours = match &ctx.entered_hours {
                Some(h) => Some(h.duplicate()),
                None => None,
            };
            return self.handle_key_editing(key, hours);
        }
        if self.task_editor_open {
            return self.handle_key_editor_browse(key);
        }
        self.handle_key_normal(key, record, ctx.now, ctx.today)
    }
}

} // verus!

verus! {

/// What a card event does: an inserted card acts as `g`, a removed one as
/// `p`; the feedback tells which.
pub open spec fn card_post(old: AppView, new: AppView, r0: DayRecord, r1: DayRecord, evt: CardEvent, now: ClockTime, saved: bool) -> bool {
    exists|mid: AppView| {
        &&& #[trigger] card_step(old, mid, r0, r1, evt, now, saved)
        &&& new == with_feedback(
            mid,
            match evt {
                CardEvent::Inserted => "\u{1F511} Card inserted - "@,
                CardEvent::Removed => "\u{1F511} Card removed - "@,
            } + mid.feedback,
        )
    }
}

pub open spec fn card_step(old: AppView, mid: AppView, r0: DayRecord, r1: DayRecord, evt: CardEvent, now: ClockTime, saved: bool) -> bool {
    match evt {
        CardEvent::Inserted => go_key_post(old, mid, r0, r1, now, saved),
        CardEvent::Removed => close_key_post(EventKind::Pause, old, mid, r0, r1, now, saved),
    }
}

impl App {
    /// Reacts to an event of the card watcher; returns whether today's record
    /// changed (and is to be saved).
    pub fn process_card_event(&mut self, evt: CardEvent, record: &mut DayRecord, now: ClockTime) -> (saved: bool)
        requires
            old(self).wf(),
            fits(&*old(record)),
        ensures
            final(self).wf(),
            card_post(old(self)@, final(self)@, *old(record), *final(record), evt, now, saved),
    {
        let saved = match evt {
            CardEvent::Inserted => self.handle_go(record, now),
            CardEvent::Removed => self.close_session_key(record, EventKind::Pause, now),
        };
        let ghost mid = self@;
        let mut fb = match evt {
            CardEvent::Inserted => String::from_str("\u{1F511} Card inserted - "),
            CardEvent::Removed => String::from_str("\u{1F511} Card removed - "),
        };
        fb.append(self.feedback.as_str());
        self.feedback = fb;
        proof {
            assert(card_step(old(self)@, mid, *old(record), *record, evt, now, saved));
        }
        saved
    }
}

} // verus!

verus! {

/// How often the interface redraws when no key comes, in milliseconds.
pub const REFRESH_MILLIS: u64 = 60000;

/// How long the interface waits for a key before it draws again, in
/// milliseconds, given whether smartcard tracking is on and how long ago the
/// last refresh was: a quarter second while cards are watched, so that their
/// events show soon, and never past the next refresh.
pub fn key_wait_millis(smartcard_active: bool, since_refresh_millis: u64) -> (r: u64)
    ensures
        r == vstd::math::min(
            if smartcard_active { 250 } else { REFRESH_MILLIS as int },
            if since_refresh_millis >= REFRESH_MILLIS { 0 } else { REFRESH_MILLIS - since_refresh_millis },
        ),
{
    let max_wait: u64 = if smartcard_active { 250 } else { REFRESH_MILLIS };
    let left: u64 = REFRESH_MILLIS.saturating_sub(since_refresh_millis);
    if max_wait < left {
        max_wait
    } else {
        left
    }
}

} // verus!

verus! {

/// The state `v` with the message of F12 that came back to `v`'s format.
pub open spec fn format_restored(v: AppView) -> AppView {
    AppView {
        decimal_saved: v.decimal,
        feedback: if v.decimal {
            "Time format: Decimal hours"@
        } else {
            "Time format: Hours and minutes"@
        },
        ..v
    }
}

/// F12 twice gives back the time format it started with; only the message
/// (and the saved option, which follows the shown one) tells it happened.
/// Where the saved option is the one shown, as `App::wf` keeps it, nothing
/// but the message changes.
pub proof fn law_time_format_toggle_twice(v: AppView)
    ensures
        time_format_toggled(time_format_toggled(v)) == format_restored(v),
        v.decimal_saved == v.decimal ==> time_format_toggled(time_format_toggled(v)) == with_feedback(
            v,
            format_restored(v).feedback,
        ),
{
    assert(time_format_toggled(time_format_toggled(v)) =~= format_restored(v));
    if v.decimal_saved == v.decimal {
        assert(format_restored(v) =~= with_feedback(v, format_restored(v).feedback));
    }
}

/// F3 twice from outside history mode comes back to today with everything
/// else as it was, but the message.
pub proof fn law_history_toggle_twice(v: AppView)
    requires
        !v.history_mode,
    ensures
        history_toggled(history_toggled(v)) == with_feedback(with_offset(v, 0), "History mode: OFF - Viewing today"@),
{
    assert(history_toggled(history_toggled(v)) =~= with_feedback(with_offset(v, 0), "History mode: OFF - Viewing today"@));
}

/// The state `v` with the task editor closed and nothing being edited.
pub open spec fn editor_closed(v: AppView) -> AppView {
    AppView {
        task_editor_open: false,
        editing_slot: None,
        editing_max_hours: false,
        buffer: Seq::<char>::empty(),
        feedback: "Task Editor closed."@,
        ..v
    }
}

/// F1 twice closes the task editor again and drops whatever was being
/// edited in it.
pub proof fn law_task_editor_toggle_twice(v: AppView)
    requires
        !v.task_editor_open,
    ensures
        task_editor_toggled(task_editor_toggled(v)) == editor_closed(v),
{
    assert(task_editor_toggled(task_editor_toggled(v)) =~= editor_closed(v));
}

/// Slot `s` holds the task named `name`.
pub open spec fn slot_named(tasks: Map<Seq<char>, TaskInfo>, s: u8, name: Seq<char>) -> bool {
    tasks.contains_key(slot_key(s)) && tasks[slot_key(s)].name@ == name
}

proof fn lemma_first_slot_named(tasks: Map<Seq<char>, TaskInfo>, name: Seq<char>, from: nat)
    ensures
        first_slot_named(tasks, name, from) matches Some(s) ==> from <= s <= 9 && slot_named(tasks, s, name)
            && forall|t: u8| from <= t < s ==> !slot_named(tasks, t, name),
        first_slot_named(tasks, name, from) is None ==> forall|t: u8| from <= t <= 9 ==> !slot_named(tasks, t, name),
    decreases 10 - from,
{
    if from < 10 {
        lemma_first_slot_named(tasks, name, from + 1);
        assert(((from as u8) as nat) == from);
    }
}

/// The task slot found again at start is the running task's: the least slot
/// of `0` to `9` named like the task running today, and none when no task
/// runs or no slot bears its name.
pub proof fn law_recovered_slot_is_the_least_slot_of_the_running_task(config: TrackerConfig, record: DayRecord)
    ensures
        recovered_slot(config, record) matches Some(s) ==> running_task(record) matches Some(n) && s <= 9
            && slot_named(config.task_view(), s, n) && forall|t: u8| t < s ==> !slot_named(config.task_view(), t, n),
        recovered_slot(config, record) is None ==> running_task(record) is None || forall|t: u8|
            t <= 9 ==> !slot_named(config.task_view(), t, running_task(record)->0),
{
    match running_task(record) {
        Some(n) => lemma_first_slot_named(config.task_view(), n, 0),
        None => {},
    }
}

} // verus!
