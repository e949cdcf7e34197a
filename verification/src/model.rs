//! The data of a tracked day: sessions of Go / Pause / Stop events, and task
//! spans inside sessions.

use vstd::prelude::*;
use crate::clock::ClockTime;
use crate::date::Date;

verus! {

/// What a tracking event does.
#[derive(Clone, Copy, PartialEq, Eq, Structural, Debug)]
pub enum EventKind {
    Go,
    Pause,
    Stop,
}

/// A colour of the terminal interface.
#[derive(Clone, Copy, PartialEq, Eq, Structural, Debug)]
pub enum Color {
    Cyan,
    Green,
    Yellow,
    Red,
    White,
    DarkGray,
}

/// The name under which an event kind is shown.
pub open spec fn kind_label(k: EventKind) -> Seq<char> {
    match k {
        EventKind::Go => seq!['G', 'o'],
        EventKind::Pause => seq!['P', 'a', 'u', 's', 'e'],
        EventKind::Stop => seq!['S', 't', 'o', 'p'],
    }
}

impl EventKind {
    /// The colour in which the event kind is shown.
    pub fn color(&self) -> (c: Color)
        ensures
            c == (match *self {
                EventKind::Go => Color::Green,
                EventKind::Pause => Color::Yellow,
                EventKind::Stop => Color::Red,
            }),
    {
        match self {
            EventKind::Go => Color::Green,
            EventKind::Pause => Color::Yellow,
            EventKind::Stop => Color::Red,
        }
    }

    /// The name under which the event kind is shown (its `Display`).
    pub fn label(&self) -> (s: String)
        ensures
            s@ == kind_label(*self),
    {
        let s = match self {
            EventKind::Go => String::from_str("Go"),
            EventKind::Pause => String::from_str("Pause"),
            EventKind::Stop => String::from_str("Stop"),
        };
        proof {
            reveal_strlit("Go");
            reveal_strlit("Pause");
            reveal_strlit("Stop");
        }
        s
    }
}

/// One Go, Pause or Stop at a time of day.
#[derive(Clone, Copy, PartialEq, Eq, Structural, Debug)]
pub struct Event {
    pub kind: EventKind,
    pub time: ClockTime,
}

/// A span of work on a named task; `end` is `None` while the task runs.
#[derive(Debug)]
pub struct TaskEvent {
    pub task: String,
    pub start: ClockTime,
    pub end: Option<ClockTime>,
}

/// A run of events from a Go up to (and including) a Stop, with the task
/// spans recorded during it.
#[derive(Debug)]
pub struct Session {
    pub index: u32,
    pub events: Vec<Event>,
    pub task_events: Vec<TaskEvent>,
}

/// All sessions of one day.
#[derive(Debug)]
pub struct DayRecord {
    pub date: Date,
    pub sessions: Vec<Session>,
}

/// The kind of the last event of a sequence, if any.
pub open spec fn last_kind(evs: Seq<Event>) -> Option<EventKind> {
    if evs.len() == 0 {
        None
    } else {
        Some(evs.last().kind)
    }
}

impl TaskEvent {
    pub fn duplicate(&self) -> (r: TaskEvent)
        ensures
            r == *self,
    {
        TaskEvent { task: self.task.clone(), start: self.start, end: self.end }
    }
}

impl Session {
    /// A session has ended when its last event is a Stop.
    pub open spec fn stopped(&self) -> bool {
        last_kind(self.events@) == Some(EventKind::Stop)
    }

    /// A session is running when its last event is a Go.
    pub open spec fn running(&self) -> bool {
        last_kind(self.events@) == Some(EventKind::Go)
    }

    /// A session is on a break when its last event is a Pause.
    pub open spec fn on_break(&self) -> bool {
        last_kind(self.events@) == Some(EventKind::Pause)
    }

    /// An empty session with the given index.
    pub fn new(index: u32) -> (s: Session)
        ensures
            s.index == index,
            s.events@.len() == 0,
            s.task_events@.len() == 0,
    {
        Session { index, events: Vec::new(), task_events: Vec::new() }
    }

    /// The kind of the last event.
    pub fn last_event_kind(&self) -> (k: Option<EventKind>)
        ensures
            k == last_kind(self.events@),
    {
        if self.events.len() == 0 {
            None
        } else {
            Some(self.events[self.events.len() - 1].kind)
        }
    }

    /// Whether the last event is a Stop.
    pub fn is_stopped(&self) -> (b: bool)
        ensures
            b == self.stopped(),
    {
        match self.last_event_kind() {
            Some(EventKind::Stop) => true,
            _ => false,
        }
    }

    /// Whether the last event is a Go.
    pub fn is_active(&self) -> (b: bool)
        ensures
            b == self.running(),
    {
        match self.last_event_kind() {
            Some(EventKind::Go) => true,
            _ => false,
        }
    }

    /// Whether the last event is a Pause.
    pub fn is_paused(&self) -> (b: bool)
        ensures
            b == self.on_break(),
    {
        match self.last_event_kind() {
            Some(EventKind::Pause) => true,
            _ => false,
        }
    }
}

impl DayRecord {
    /// The last session is the current one.
    pub open spec fn current(&self) -> Option<Session> {
        if self.sessions@.len() == 0 {
            None
        } else {
            Some(self.sessions@.last())
        }
    }

    /// The index a new session gets: one past that of the last session (wrapping
    /// as `u32` does), or `0` for the first.
    pub open spec fn next_index(&self) -> u32 {
        if self.sessions@.len() == 0 {
            0
        } else {
            (if self.sessions@.last().index == u32::MAX {
                0
            } else {
                (self.sessions@.last().index + 1) as u32
            })
        }
    }

    /// A record has an active session when its last session is not stopped.
    pub open spec fn active(&self) -> bool {
        self.sessions@.len() > 0 && !self.sessions@.last().stopped()
    }

    /// The record is tracking when its last session is running.
    pub open spec fn tracking(&self) -> bool {
        self.sessions@.len() > 0 && self.sessions@.last().running()
    }

    /// The record is paused when its last session is on a break.
    pub open spec fn paused(&self) -> bool {
        self.sessions@.len() > 0 && self.sessions@.last().on_break()
    }

    /// A record of the given day without sessions.
    pub fn new(date: Date) -> (r: DayRecord)
        ensures
            r.date == date,
            r.sessions@.len() == 0,
    {
        DayRecord { date, sessions: Vec::new() }
    }

    /// The current (last) session, if any.
    pub fn current_session(&self) -> (r: Option<&Session>)
        ensures
            match r {
                Some(s) => self.current() == Some(*s),
                None => self.current() is None,
            },
    {
        if self.sessions.len() == 0 {
            None
        } else {
            Some(&self.sessions[self.sessions.len() - 1])
        }
    }

    /// The index a new session gets.
    pub fn next_session_index(&self) -> (i: u32)
        ensures
            i == self.next_index(),
    {
        if self.sessions.len() == 0 {
            0
        } else {
            self.sessions[self.sessions.len() - 1].index.wrapping_add(1)
        }
    }

    /// Whether the last session exists and is not stopped.
    pub fn has_active_session(&self) -> (b: bool)
        ensures
            b == self.active(),
    {
        self.sessions.len() > 0 && !self.sessions[self.sessions.len() - 1].is_stopped()
    }

    /// Whether the last session is running.
    pub fn is_tracking(&self) -> (b: bool)
        ensures
            b == self.tracking(),
    {
        self.sessions.len() > 0 && self.sessions[self.sessions.len() - 1].is_active()
    }

    /// Whether the last session is on a break.
    pub fn is_paused(&self) -> (b: bool)
        ensures
            b == self.paused(),
    {
        self.sessions.len() > 0 && self.sessions[self.sessions.len() - 1].is_paused()
    }
}

} // verus!
