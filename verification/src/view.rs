//! The content of the terminal interface: lines of styled text.

use vstd::prelude::*;
use crate::clock::{clock_text, duration_text, format_duration, push_clock, ClockTime, Duration, END_OF_DAY_NANOS, NANOS_PER_SECOND, seconds_of};
use crate::config::{slot_key, Hours, TaskInfo, TrackerConfig};
use crate::date::{long_date_text, push_long_date, Date};
use crate::model::{kind_label, Color, DayRecord, Event, EventKind, Session};
use crate::tasks::{abs_sum, active_task_name, amount_sum, calculate_task_durations, day_task_totals, lemma_abs_sum_prefix, running_task};
use crate::timer::{
    calculate_session_paused, calculate_session_total, calculate_total_paused, calculate_total_time, calculate_worked,
    day_measure, end_for, fits, lemma_day_measure_bound, lemma_measure_bound, lemma_size_monotone, record_size,
    session_paused, session_total, size_upto, span_bound, Measure, RECORD_LIMIT,
};
use crate::smartcard::ReaderProbe;
use crate::text::{dec_nat, push_char, push_nat, push_two_digits, two_digits};

verus! {

/// How a piece of text is drawn: a colour, bold, italic.
#[derive(Clone, Copy, PartialEq, Eq, Structural, Debug)]
pub struct Style {
    pub fg: Option<Color>,
    pub bold: bool,
    pub italic: bool,
}

/// A piece of text in one style, followed by a duration when `time` holds
/// one: the duration is written in the unit the interface shows (hours and
/// minutes, or decimal hours), which is the drawer's choice.
#[derive(Debug)]
pub struct Span {
    pub text: String,
    pub time: Option<Duration>,
    pub style: Style,
}

/// One line of the interface.
#[derive(Debug)]
pub struct Line {
    pub spans: Vec<Span>,
}

/// A span as values: its text, the duration after it in nanoseconds (if
/// any), and its style.
pub open spec fn span_view(s: Span) -> (Seq<char>, Option<int>, Style) {
    (s.text@, match s.time {
        Some(d) => Some(d.nanos as int),
        None => None,
    }, s.style)
}

pub open spec fn line_view(l: Line) -> Seq<(Seq<char>, Option<int>, Style)> {
    l.spans@.map_values(|s: Span| span_view(s))
}

pub open spec fn lines_view(ls: Seq<Line>) -> Seq<Seq<(Seq<char>, Option<int>, Style)>> {
    ls.map_values(|l: Line| line_view(l))
}

pub open spec fn plain() -> Style {
    Style { fg: None, bold: false, italic: false }
}

pub open spec fn fg(c: Color) -> Style {
    Style { fg: Some(c), bold: false, italic: false }
}

pub open spec fn fg_bold(c: Color) -> Style {
    Style { fg: Some(c), bold: true, italic: false }
}

pub open spec fn fg_italic(c: Color) -> Style {
    Style { fg: Some(c), bold: false, italic: true }
}

pub open spec fn bold() -> Style {
    Style { fg: None, bold: true, italic: false }
}

pub fn style_plain() -> (s: Style)
    ensures
        s == plain(),
{
    Style { fg: None, bold: false, italic: false }
}

pub fn style_fg(c: Color) -> (s: Style)
    ensures
        s == fg(c),
{
    Style { fg: Some(c), bold: false, italic: false }
}

pub fn style_fg_bold(c: Color) -> (s: Style)
    ensures
        s == fg_bold(c),
{
    Style { fg: Some(c), bold: true, italic: false }
}

pub fn style_fg_italic(c: Color) -> (s: Style)
    ensures
        s == fg_italic(c),
{
    Style { fg: Some(c), bold: false, italic: true }
}

pub fn style_bold() -> (s: Style)
    ensures
        s == bold(),
{
    Style { fg: None, bold: true, italic: false }
}

/// A span of the given text.
pub fn span(text: &str, style: Style) -> (s: Span)
    ensures
        span_view(s) == (text@, None::<int>, style),
{
    Span { text: text.to_owned(), time: None, style }
}

/// A line of the given spans.
pub fn line(spans: Vec<Span>) -> (l: Line)
    ensures
        line_view(l) == spans@.map_values(|s: Span| span_view(s)),
{
    Line { spans }
}

/// An empty line.
pub fn blank_line() -> (l: Line)
    ensures
        line_view(l) == Seq::<(Seq<char>, Option<int>, Style)>::empty(),
{
    let l = Line { spans: Vec::new() };
    assert(line_view(l) =~= Seq::<(Seq<char>, Option<int>, Style)>::empty());
    l
}

/// Appends a line.
pub fn push_line(content: &mut Vec<Line>, l: Line)
    ensures
        lines_view(final(content)@) == lines_view(old(content)@).push(line_view(l)),
{
    content.push(l);
    assert(lines_view(content@) =~= lines_view(old(content)@).push(line_view(l)));
}

/// A line of two spans.
pub fn line2(a: Span, b: Span) -> (l: Line)
    ensures
        line_view(l) == seq![span_view(a), span_view(b)],
{
    let mut v: Vec<Span> = Vec::new();
    let ghost sa = span_view(a);
    let ghost sb = span_view(b);
    v.push(a);
    v.push(b);
    let l = Line { spans: v };
    assert(line_view(l) =~= seq![sa, sb]);
    l
}

/// A line of three spans.
pub fn line3(a: Span, b: Span, c: Span) -> (l: Line)
    ensures
        line_view(l) == seq![span_view(a), span_view(b), span_view(c)],
{
    let mut v: Vec<Span> = Vec::new();
    let ghost sa = span_view(a);
    let ghost sb = span_view(b);
    let ghost sc = span_view(c);
    v.push(a);
    v.push(b);
    v.push(c);
    let l = Line { spans: v };
    assert(line_view(l) =~= seq![sa, sb, sc]);
    l
}

/// A line of one span.
pub fn line1(a: Span) -> (l: Line)
    ensures
        line_view(l) == seq![span_view(a)],
{
    let mut v: Vec<Span> = Vec::new();
    let ghost sa = span_view(a);
    v.push(a);
    let l = Line { spans: v };
    assert(line_view(l) =~= seq![sa]);
    l
}

pub open spec fn kind_color(k: EventKind) -> Color {
    match k {
        EventKind::Go => Color::Green,
        EventKind::Pause => Color::Yellow,
        EventKind::Stop => Color::Red,
    }
}

/// The hotkeys of the actions, one per line after an empty one.
pub open spec fn actions_column() -> Seq<Seq<(Seq<char>, Option<int>, Style)>> {
    seq![
        Seq::empty(),
        seq![("  [g] "@, None::<int>, fg_bold(Color::Cyan)), ("Go"@, None::<int>, fg_bold(Color::Green))],
        seq![("  [p] "@, None::<int>, fg_bold(Color::Cyan)), ("Pause"@, None::<int>, fg_bold(Color::Yellow))],
        seq![("  [s] "@, None::<int>, fg_bold(Color::Cyan)), ("Stop"@, None::<int>, fg_bold(Color::Red))],
        seq![("  [e] "@, None::<int>, fg_bold(Color::Cyan)), ("Edit"@, None::<int>, fg_bold(Color::White))],
    ]
}

/// The left column of the command panel: the action hotkeys.
pub fn render_actions_column() -> (r: Vec<Line>)
    ensures
        lines_view(r@) == actions_column(),
{
    let mut content: Vec<Line> = Vec::new();
    push_line(&mut content, blank_line());
    push_line(&mut content, line2(span("  [g] ", style_fg_bold(Color::Cyan)), span("Go", style_fg_bold(EventKind::Go.color()))));
    push_line(&mut content, line2(span("  [p] ", style_fg_bold(Color::Cyan)), span("Pause", style_fg_bold(EventKind::Pause.color()))));
    push_line(&mut content, line2(span("  [s] ", style_fg_bold(Color::Cyan)), span("Stop", style_fg_bold(EventKind::Stop.color()))));
    push_line(&mut content, line2(span("  [e] ", style_fg_bold(Color::Cyan)), span("Edit", style_fg_bold(Color::White))));
    assert(lines_view(content@) =~= actions_column());
    content
}

/// The feedback line: the message after a blank, in white italics.
pub fn render_feedback_line(feedback: &str) -> (l: Line)
    ensures
        line_view(l) == seq![(" "@ + feedback@, None::<int>, fg_italic(Color::White))],
{
    let mut t = String::from_str(" ");
    t.append(feedback);
    let s = Span { text: t, time: None, style: style_fg_italic(Color::White) };
    line1(s)
}

/// The F-key toggles with their states.
pub open spec fn toggles_column(smartcard_active: bool, reader_status: ReaderProbe, task_editor_open: bool, decimal: bool, history: bool) -> Seq<Seq<(Seq<char>, Option<int>, Style)>> {
    let (f2_key, f2_label, f2_state, f2_color) = match reader_status {
        ReaderProbe::Unavailable => (Color::DarkGray, Color::DarkGray, "N/A"@, Color::DarkGray),
        ReaderProbe::NoReaders => (Color::Cyan, Color::DarkGray, "OFF"@, Color::DarkGray),
        ReaderProbe::Available => if smartcard_active {
            (Color::Cyan, Color::White, "ON "@, Color::Green)
        } else {
            (Color::Cyan, Color::White, "OFF"@, Color::DarkGray)
        },
    };
    seq![
        Seq::empty(),
        seq![
            ("[F1]"@, None::<int>, fg_bold(Color::Cyan)),
            (" Tasks "@, None::<int>, fg(Color::White)),
            if task_editor_open {
                ("ON "@, None::<int>, fg_bold(Color::Green))
            } else {
                ("OFF"@, None::<int>, fg_bold(Color::DarkGray))
            },
        ],
        seq![("[F2]"@, None::<int>, fg_bold(f2_key)), (" Card  "@, None::<int>, fg(f2_label)), (f2_state, None::<int>, fg_bold(f2_color))],
        seq![
            ("[F3]"@, None::<int>, fg_bold(Color::Cyan)),
            ("  \u{1F56E}    "@, None::<int>, fg(Color::White)),
            if history {
                ("ON "@, None::<int>, fg_bold(Color::Green))
            } else {
                ("OFF"@, None::<int>, fg_bold(Color::DarkGray))
            },
        ],
        seq![
            ("[F12]"@, None::<int>, fg_bold(Color::Cyan)),
            (" Unit  "@, None::<int>, fg(Color::White)),
            if decimal {
                ("DEC"@, None::<int>, fg_bold(Color::Yellow))
            } else {
                ("HMS"@, None::<int>, fg_bold(Color::Cyan))
            },
        ],
    ]
}

/// The right column of the command panel: the F-key toggles.
pub fn render_toggles_column(smartcard_active: bool, reader_status: ReaderProbe, task_editor_open: bool, decimal_time_format: bool, history_mode: bool) -> (r: Vec<Line>)
    ensures
        lines_view(r@) == toggles_column(smartcard_active, reader_status, task_editor_open, decimal_time_format, history_mode),
{
    let mut content: Vec<Line> = Vec::new();
    push_line(&mut content, blank_line());
    let f1 = if task_editor_open {
        span("ON ", style_fg_bold(Color::Green))
    } else {
        span("OFF", style_fg_bold(Color::DarkGray))
    };
    push_line(&mut content, line3(span("[F1]", style_fg_bold(Color::Cyan)), span(" Tasks ", style_fg(Color::White)), f1));
    let (f2_key, f2_label, f2_state, f2_color) = match reader_status {
        ReaderProbe::Unavailable => (Color::DarkGray, Color::DarkGray, "N/A", Color::DarkGray),
        ReaderProbe::NoReaders => (Color::Cyan, Color::DarkGray, "OFF", Color::DarkGray),
        ReaderProbe::Available => if smartcard_active {
            (Color::Cyan, Color::White, "ON ", Color::Green)
        } else {
            (Color::Cyan, Color::White, "OFF", Color::DarkGray)
        },
    };
    push_line(&mut content, line3(span("[F2]", style_fg_bold(f2_key)), span(" Card  ", style_fg(f2_label)), span(f2_state, style_fg_bold(f2_color))));
    let f3 = if history_mode {
        span("ON ", style_fg_bold(Color::Green))
    } else {
        span("OFF", style_fg_bold(Color::DarkGray))
    };
    push_line(&mut content, line3(span("[F3]", style_fg_bold(Color::Cyan)), span("  \u{1F56E}    ", style_fg(Color::White)), f3));
    let f12 = if decimal_time_format {
        span("DEC", style_fg_bold(Color::Yellow))
    } else {
        span("HMS", style_fg_bold(Color::Cyan))
    };
    push_line(&mut content, line3(span("[F12]", style_fg_bold(Color::Cyan)), span(" Unit  ", style_fg(Color::White)), f12));
    assert(lines_view(content@) =~= toggles_column(smartcard_active, reader_status, task_editor_open, decimal_time_format, history_mode));
    content
}

} // verus!

verus! {

/// The line of one slot in the task editor: the text being typed (with a
/// cursor) for the slot being edited; else the task with its limit, or a dash.
pub open spec fn editor_slot_line(tasks: Map<Seq<char>, TaskInfo>, slot: u8, editing: Option<u8>, buffer: Seq<char>) -> Seq<(Seq<char>, Option<int>, Style)> {
    let label = "  ["@ + dec_nat(slot as nat) + "] "@;
    if editing == Some(slot) {
        seq![(label, None::<int>, fg_bold(Color::Yellow)), (buffer, None::<int>, fg_bold(Color::White)), ("\u{2588}"@, None::<int>, fg_bold(Color::Yellow))]
    } else if tasks.contains_key(slot_key(slot)) {
        let info = tasks[slot_key(slot)];
        seq![
            (label, None::<int>, fg_bold(Color::Cyan)),
            (info.name@ + match info.max_hours {
                Some(h) => " ("@ + h.text@ + "h)"@,
                None => Seq::<char>::empty(),
            }, None::<int>, fg(Color::White)),
        ]
    } else {
        seq![(label, None::<int>, fg_bold(Color::Cyan)), ("\u{2014}"@, None::<int>, fg(Color::DarkGray))]
    }
}

/// The lines of slots `0` to `n - 1`.
pub open spec fn editor_slot_lines(tasks: Map<Seq<char>, TaskInfo>, n: nat, editing: Option<u8>, buffer: Seq<char>) -> Seq<Seq<(Seq<char>, Option<int>, Style)>>
    decreases n,
{
    if n == 0 {
        Seq::empty()
    } else {
        editor_slot_lines(tasks, (n - 1) as nat, editing, buffer).push(
            editor_slot_line(tasks, (n - 1) as u8, editing, buffer),
        )
    }
}

/// The line of the daily limit in the task editor.
pub open spec fn editor_max_line(max: Option<Hours>, editing_max_hours: bool, buffer: Seq<char>) -> Seq<(Seq<char>, Option<int>, Style)> {
    if editing_max_hours {
        seq![
            ("  [H] Max hours/day: "@, None::<int>, fg_bold(Color::Yellow)),
            (buffer, None::<int>, fg_bold(Color::White)),
            ("\u{2588}"@, None::<int>, fg_bold(Color::Yellow)),
        ]
    } else {
        seq![
            ("  [H] Max hours/day: "@, None::<int>, fg_bold(Color::Cyan)),
            match max {
                Some(h) => (h.text@ + "h"@, None::<int>, fg(Color::White)),
                None => ("not set"@, None::<int>, fg(Color::DarkGray)),
            },
        ]
    }
}

/// The task editor panel.
pub open spec fn editor_panel(tasks: Map<Seq<char>, TaskInfo>, max: Option<Hours>, editing: Option<u8>, buffer: Seq<char>, editing_max_hours: bool) -> Seq<Seq<(Seq<char>, Option<int>, Style)>> {
    seq![
        seq![(
            "\u{2500}\u{2500} Task Editor  (press 0-9 to edit task, H for max hours, Enter to save, Esc to cancel) \u{2500}\u{2500}"@,
            None::<int>,
            fg_bold(Color::Cyan),
        )],
        Seq::empty(),
    ] + editor_slot_lines(tasks, 10, editing, buffer) + seq![
        Seq::empty(),
        seq![("  ─────────────────────"@, None::<int>, fg(Color::DarkGray))],
        editor_max_line(max, editing_max_hours, buffer),
        Seq::empty(),
        seq![("  Press F1 or Esc to close editor"@, None::<int>, Style { fg: Some(Color::DarkGray), bold: false, italic: true })],
    ]
}

fn slot_label(slot: u8) -> (s: String)
    ensures
        s@ == "  ["@ + dec_nat(slot as nat) + "] "@,
{
    let mut s = String::from_str("  [");
    push_nat(&mut s, slot as u128);
    s.append("] ");
    s
}

/// The task editor panel.
pub fn render_task_editor_panel(config: &TrackerConfig, editing_slot: Option<u8>, editing_buffer: &str, editing_max_hours: bool) -> (r: Vec<Line>)
    requires
        config.wf(),
    ensures
        lines_view(r@) == editor_panel(
            config.task_view(),
            config.max_hours_per_day,
            editing_slot,
            editing_buffer@,
            editing_max_hours,
        ),
{
    let mut content: Vec<Line> = Vec::new();
    push_line(
        &mut content,
        line1(
            span(
                "\u{2500}\u{2500} Task Editor  (press 0-9 to edit task, H for max hours, Enter to save, Esc to cancel) \u{2500}\u{2500}",
                style_fg_bold(Color::Cyan),
            ),
        ),
    );
    push_line(&mut content, blank_line());
    let ghost head = lines_view(content@);
    let mut slot: u8 = 0;
    while slot < 10
        invariant
            slot <= 10,
            config.wf(),
            lines_view(content@) == head + editor_slot_lines(config.task_view(), slot as nat, editing_slot, editing_buffer@),
        decreases 10 - slot,
    {
        let is_editing = match editing_slot {
            Some(s) => s == slot,
            None => false,
        };
        let l = if is_editing {
            line3(
                Span { text: slot_label(slot), time: None, style: style_fg_bold(Color::Yellow) },
                span(editing_buffer, style_fg_bold(Color::White)),
                span("\u{2588}", style_fg_bold(Color::Yellow)),
            )
        } else {
            match config.task_info(slot) {
                Some(info) => {
                    let mut display = info.name.clone();
                    match &info.max_hours {
                        Some(h) => {
                            display.append(" (");
                            display.append(h.text.as_str());
                            display.append("h)");
                        },
                        None => {},
                    }
                    assert(display@ =~= info.name@ + match info.max_hours {
                        Some(h) => " ("@ + h.text@ + "h)"@,
                        None => Seq::<char>::empty(),
                    });
                    line2(
                        Span { text: slot_label(slot), time: None, style: style_fg_bold(Color::Cyan) },
                        Span { text: display, time: None, style: style_fg(Color::White) },
                    )
                },
                None => line2(
                    Span { text: slot_label(slot), time: None, style: style_fg_bold(Color::Cyan) },
                    span("\u{2014}", style_fg(Color::DarkGray)),
                ),
            }
        };
        proof {
            assert(is_editing == (editing_slot == Some(slot)));
            assert(line_view(l) =~= editor_slot_line(config.task_view(), slot, editing_slot, editing_buffer@));
        }
        push_line(&mut content, l);
        proof {
            assert(lines_view(content@) =~= head + editor_slot_lines(config.task_view(), (slot + 1) as nat, editing_slot, editing_buffer@));
        }
        slot = slot + 1;
    }
    push_line(&mut content, blank_line());
    push_line(&mut content, line1(span("  ─────────────────────", style_fg(Color::DarkGray))));
    let max_line = if editing_max_hours {
        line3(
            span("  [H] Max hours/day: ", style_fg_bold(Color::Yellow)),
            span(editing_buffer, style_fg_bold(Color::White)),
            span("\u{2588}", style_fg_bold(Color::Yellow)),
        )
    } else {
        let second = match &config.max_hours_per_day {
            Some(h) => {
                let mut t = h.text.clone();
                t.append("h");
                Span { text: t, time: None, style: style_fg(Color::White) }
            },
            None => span("not set", style_fg(Color::DarkGray)),
        };
        line2(span("  [H] Max hours/day: ", style_fg_bold(Color::Cyan)), second)
    };
    proof {
        assert(line_view(max_line) =~= editor_max_line(config.max_hours_per_day, editing_max_hours, editing_buffer@));
    }
    push_line(&mut content, max_line);
    push_line(&mut content, blank_line());
    push_line(
        &mut content,
        line1(span("  Press F1 or Esc to close editor", Style { fg: Some(Color::DarkGray), bold: false, italic: true })),
    );
    assert(lines_view(content@) =~= editor_panel(
        config.task_view(),
        config.max_hours_per_day,
        editing_slot,
        editing_buffer@,
        editing_max_hours,
    ));
    content
}

} // verus!

verus! {

/// Width of a task indicator: its slot prefix and its name.
pub const INDICATOR_WIDTH: usize = 22;

/// `t` padded with blanks on the right to `w` characters.
pub open spec fn pad_right(t: Seq<char>, w: nat) -> Seq<char> {
    if t.len() >= w {
        t
    } else {
        t + Seq::new((w - t.len()) as nat, |i: int| ' ')
    }
}

/// The first `n` characters of `t` (all of it when shorter).
pub open spec fn first_chars(t: Seq<char>, n: nat) -> Seq<char> {
    if t.len() <= n {
        t
    } else {
        t.take(n as int)
    }
}

/// The configured slots below `n`, in order.
pub open spec fn configured_slots(tasks: Map<Seq<char>, TaskInfo>, n: nat) -> Seq<u8>
    decreases n,
{
    if n == 0 {
        Seq::empty()
    } else {
        let prev = configured_slots(tasks, (n - 1) as nat);
        if tasks.contains_key(slot_key((n - 1) as u8)) {
            prev.push((n - 1) as u8)
        } else {
            prev
        }
    }
}

/// The two spans of one task indicator: its slot, then its name cut and
/// padded to the column; the active task in green, with a play mark in
/// place of the blank. Every cell is `INDICATOR_WIDTH` characters wide.
pub open spec fn indicator_cell(tasks: Map<Seq<char>, TaskInfo>, slot: u8, active: Option<u8>) -> Seq<(Seq<char>, Option<int>, Style)> {
    let name = first_chars(tasks[slot_key(slot)].name@, 18);
    let label = "["@ + dec_nat(slot as nat) + "]"@;
    if active == Some(slot) {
        seq![(label, None::<int>, fg_bold(Color::Green)), ("\u{25B6}"@ + pad_right(name, 18), None::<int>, fg_bold(Color::Green))]
    } else {
        seq![(label, None::<int>, fg_bold(Color::Cyan)), (" "@ + pad_right(name, 18), None::<int>, fg(Color::White))]
    }
}

/// Every task indicator, the running task's too, is as wide as the column
/// (`INDICATOR_WIDTH`): its slot label and its name cut or padded.
pub proof fn law_indicator_cells_are_column_wide(tasks: Map<Seq<char>, TaskInfo>, slot: u8, active: Option<u8>)
    requires
        slot < 10,
    ensures
        indicator_cell(tasks, slot, active).len() == 2,
        indicator_cell(tasks, slot, active)[0].0.len() + indicator_cell(tasks, slot, active)[1].0.len()
            == INDICATOR_WIDTH,
{
    reveal_strlit("[");
    reveal_strlit("]");
    reveal_strlit(" ");
    reveal_strlit("\u{25B6}");
    let name = first_chars(tasks[slot_key(slot)].name@, 18);
    assert(name.len() <= 18);
    assert(pad_right(name, 18).len() == 18);
    assert(dec_nat(slot as nat).len() == 1);
}

/// The spans of the indicators of some slots, one after the other.
pub open spec fn indicator_cells(tasks: Map<Seq<char>, TaskInfo>, slots: Seq<u8>, active: Option<u8>) -> Seq<(Seq<char>, Option<int>, Style)>
    decreases slots.len(),
{
    if slots.len() == 0 {
        Seq::empty()
    } else {
        indicator_cells(tasks, slots.drop_last(), active) + indicator_cell(tasks, slots.last(), active)
    }
}

/// The task indicators: an empty line, then three configured slots a line.
pub open spec fn indicator_lines(tasks: Map<Seq<char>, TaskInfo>, active: Option<u8>) -> Seq<Seq<(Seq<char>, Option<int>, Style)>> {
    let slots = configured_slots(tasks, 10);
    let rows = (slots.len() + 2) / 3;
    seq![Seq::<(Seq<char>, Option<int>, Style)>::empty()] + Seq::new(rows as nat, |k: int| indicator_row(tasks, slots, k, active))
}

/// Row `k` of the task indicators: slots `3k` to `3k + 2`.
pub open spec fn indicator_row(tasks: Map<Seq<char>, TaskInfo>, slots: Seq<u8>, k: int, active: Option<u8>) -> Seq<(Seq<char>, Option<int>, Style)> {
    indicator_cells(tasks, slots.subrange(3 * k, if 3 * k + 3 <= slots.len() {
        3 * k + 3
    } else {
        slots.len() as int
    }), active)
}

proof fn lemma_configured_slots(tasks: Map<Seq<char>, TaskInfo>, n: nat)
    requires
        n <= 10,
    ensures
        configured_slots(tasks, n).len() <= n,
        forall|i: int|
            0 <= i < configured_slots(tasks, n).len() ==> #[trigger] configured_slots(tasks, n)[i] < n
                && tasks.contains_key(slot_key(configured_slots(tasks, n)[i])),
    decreases n,
{
    if n > 0 {
        lemma_configured_slots(tasks, (n - 1) as nat);
    }
}

/// The middle column of the command panel: the configured task slots.
pub fn render_task_indicators(config: &TrackerConfig, active_task: Option<u8>) -> (r: Vec<Line>)
    requires
        config.wf(),
    ensures
        lines_view(r@) == indicator_lines(config.task_view(), active_task),
{
    let ghost tasks = config.task_view();
    let mut slots: Vec<u8> = Vec::new();
    let mut names: Vec<String> = Vec::new();
    let mut s: u8 = 0;
    while s < 10
        invariant
            s <= 10,
            config.wf(),
            tasks == config.task_view(),
            slots@ == configured_slots(tasks, s as nat),
            names@.len() == slots@.len(),
            forall|i: int| 0 <= i < names@.len() ==> (#[trigger] names@[i])@ == tasks[slot_key(slots@[i])].name@,
        decreases 10 - s,
    {
        match config.task_name(s) {
            Some(n) => {
                slots.push(s);
                names.push(n);
            },
            None => {},
        }
        s = s + 1;
    }
    proof {
        lemma_configured_slots(tasks, 10);
    }
    let mut content: Vec<Line> = Vec::new();
    push_line(&mut content, blank_line());
    let ghost all = configured_slots(tasks, 10);
    let ghost rows = indicator_lines(tasks, active_task);
    let n = slots.len();
    let mut start: usize = 0;
    while start < n
        invariant
            n == slots@.len(),
            slots@ == all,
            all == configured_slots(tasks, 10),
            rows == indicator_lines(tasks, active_task),
            names@.len() == n,
            n <= 10,
            forall|i: int| 0 <= i < names@.len() ==> (#[trigger] names@[i])@ == tasks[slot_key(slots@[i])].name@,
            start % 3 == 0,
            start <= n + 2,
            lines_view(content@) == rows.take(1 + start / 3),
            rows.len() == 1 + (n + 2) / 3,
        decreases n + 3 - start,
    {
        let end = if start + 3 <= n { start + 3 } else { n };
        let mut spans: Vec<Span> = Vec::new();
        let mut j = start;
        assert(slots@.subrange(start as int, start as int) =~= Seq::<u8>::empty());
        while j < end
            invariant
                start <= j <= end <= n,
                n == slots@.len(),
                names@.len() == n,
                forall|i: int| 0 <= i < names@.len() ==> (#[trigger] names@[i])@ == tasks[slot_key(slots@[i])].name@,
                spans@.map_values(|x: Span| span_view(x)) == indicator_cells(tasks, slots@.subrange(start as int, j as int), active_task),
            decreases end - j,
        {
            let slot = slots[j];
            let name = &names[j];
            let nlen = name.as_str().unicode_len();
            let cut = if nlen <= 18 { nlen } else { 18 };
            let mut padded = name.as_str().substring_char(0, cut).to_owned();
            let mut k = cut;
            while k < 18
                invariant
                    cut <= k <= 18,
                    padded@ == name@.take(cut as int) + Seq::new((k - cut) as nat, |i: int| ' '),
                decreases 18 - k,
            {
                push_char(&mut padded, ' ');
                assert(padded@ =~= name@.take(cut as int) + Seq::new((k + 1 - cut) as nat, |i: int| ' '));
                k = k + 1;
            }
            let mut label = String::from_str("[");
            push_nat(&mut label, slot as u128);
            label.append("]");
            let is_active = match active_task {
                Some(a) => a == slot,
                None => false,
            };
            let ghost before = spans@.map_values(|x: Span| span_view(x));
            if is_active {
                let mut t = String::from_str("\u{25B6}");
                t.append(padded.as_str());
                spans.push(Span { text: label, time: None, style: style_fg_bold(Color::Green) });
                spans.push(Span { text: t, time: None, style: style_fg_bold(Color::Green) });
            } else {
                let mut t = String::from_str(" ");
                t.append(padded.as_str());
                spans.push(Span { text: label, time: None, style: style_fg_bold(Color::Cyan) });
                spans.push(Span { text: t, time: None, style: style_fg(Color::White) });
            }
            proof {
                assert(name@.take(cut as int) =~= first_chars(name@, 18));
                if cut == 18 {
                    assert(pad_right(first_chars(name@, 18), 18) =~= name@.take(cut as int) + Seq::new((18 - cut) as nat, |i: int| ' '));
                } else {
                    assert(pad_right(first_chars(name@, 18), 18) =~= name@.take(cut as int) + Seq::new((18 - cut) as nat, |i: int| ' '));
                }
                assert(slots@.subrange(start as int, j + 1).drop_last() =~= slots@.subrange(start as int, j as int));
                assert(spans@.map_values(|x: Span| span_view(x)) =~= before + indicator_cell(tasks, slot, active_task));
            }
            j = j + 1;
        }
        let ghost k = start / 3;
        push_line(&mut content, line(spans));
        proof {
            assert(start == 3 * k);
            assert(k < (n + 2) / 3);
            assert(rows[1 + k] == indicator_row(tasks, all, k as int, active_task));
            assert(lines_view(content@) =~= rows.take(1 + (start + 3) / 3));
        }
        start = start + 3;
    }
    proof {
        assert(rows.take(1 + start / 3) =~= rows);
    }
    content
}

} // verus!

verus! {

/// `HH:MM:SS` of a time of day.
pub open spec fn clock_seconds_text(t: ClockTime) -> Seq<char> {
    clock_text(t) + seq![':'] + two_digits(((t.nanos / NANOS_PER_SECOND) % 60) as nat)
}

/// The lines of time per task, with the unassigned rest of the worked time.
pub open spec fn task_duration_lines(entries: Seq<(Seq<char>, int)>, current: Option<Seq<char>>, worked: int) -> Seq<Seq<(Seq<char>, Option<int>, Style)>> {
    if entries.len() == 0 {
        Seq::empty()
    } else {
        let unassigned = worked - amount_sum(entries);
        Seq::new(entries.len(), |k: int| task_duration_line(entries[k].0, entries[k].1, current)) + if seconds_of(
            unassigned,
        ) > 0 {
            seq![seq![("  Unassigned: "@, Some(unassigned), fg(Color::DarkGray))]]
        } else {
            Seq::empty()
        }
    }
}

pub open spec fn task_duration_line(name: Seq<char>, d: int, current: Option<Seq<char>>) -> Seq<(Seq<char>, Option<int>, Style)> {
    if current == Some(name) {
        seq![("  "@ + " \u{25B6} "@ + name + ": "@, Some(d), fg_bold(Color::Green))]
    } else {
        seq![("  "@ + name + ": "@, Some(d), fg(Color::White))]
    }
}

/// The state label of a session and its colour.
pub open spec fn session_state(s: Session) -> (Seq<char>, Color) {
    if s.running() {
        ("tracking"@, Color::Green)
    } else if s.stopped() {
        ("stopped"@, Color::Red)
    } else {
        ("paused"@, Color::Yellow)
    }
}

/// The events of a session, latest first, from the end down to position `j`.
pub open spec fn event_lines_from(evs: Seq<Event>, j: int) -> Seq<Seq<(Seq<char>, Option<int>, Style)>>
    decreases evs.len() - j,
{
    if j >= evs.len() || j < 0 {
        Seq::empty()
    } else {
        event_lines_from(evs, j + 1).push(
            seq![
                ("    "@ + clock_text(evs[j].time) + " "@, None::<int>, fg(Color::DarkGray)),
                (kind_label(evs[j].kind), None::<int>, fg(kind_color(evs[j].kind))),
            ],
        )
    }
}

/// The lines of one session in the status panel.
pub open spec fn session_panel_lines(s: Session, end: u64) -> Seq<Seq<(Seq<char>, Option<int>, Style)>> {
    let st = session_state(s);
    let total = session_total(s.events@, end);
    let paused = session_paused(s.events@, end);
    seq![seq![("  Session "@ + dec_nat(s.index as nat) + " "@, None::<int>, fg_bold(Color::Cyan)), ("("@ + st.0 + ")"@, None::<int>, fg(st.1))]]
        + event_lines_from(s.events@, 0) + seq![
        seq![
            ("    "@, None::<int>, plain()),
            ("Total: "@, None::<int>, fg(Color::White)),
            (Seq::empty(), Some(total), fg(Color::White)),
            ("  |  Paused: "@, None::<int>, fg(Color::White)),
            (Seq::empty(), Some(paused), fg(Color::Yellow)),
            ("  |  Worked: "@, None::<int>, fg(Color::White)),
            (Seq::empty(), Some(total - paused), fg(Color::Green)),
        ],
        Seq::empty(),
    ]
}

/// The sessions, latest first, from the last one down to position `i`.
pub open spec fn session_lines_from(ss: Seq<Session>, i: int, running: bool, now: ClockTime) -> Seq<Seq<(Seq<char>, Option<int>, Style)>>
    decreases ss.len() - i,
{
    if i >= ss.len() || i < 0 {
        Seq::empty()
    } else {
        session_lines_from(ss, i + 1, running, now) + session_panel_lines(ss[i], end_for(ss.len(), i, running, now))
    }
}

/// The status panel of a day: its date and state, its totals, the time per
/// task, when it was drawn, and its sessions with their events, latest first.
pub open spec fn status_panel(r: DayRecord, today: Date, now: ClockTime) -> Seq<Seq<(Seq<char>, Option<int>, Style)>> {
    let running = r.active();
    let total = day_measure(Measure::Total, &r, running, now);
    let paused = day_measure(Measure::Paused, &r, running, now);
    let worked = day_measure(Measure::Worked, &r, running, now);
    let head = seq![(" \u{2500}\u{2500} "@ + long_date_text(r.date) + " \u{2500}\u{2500} "@, None::<int>, fg_bold(Color::Cyan))]
        + (if r.tracking() {
        seq![(" | tracking"@, None::<int>, fg_italic(Color::Green))]
    } else {
        Seq::empty()
    }) + (if r.paused() {
        seq![(" | paused"@, None::<int>, fg_italic(Color::Yellow))]
    } else {
        Seq::empty()
    });
    seq![
        head,
        seq![
            ("  Total: "@, None::<int>, bold()),
            (Seq::empty(), Some(total), fg_bold(Color::White)),
            ("  |  Paused: "@, None::<int>, bold()),
            (Seq::empty(), Some(paused), fg(Color::Yellow)),
            ("  |  Worked: "@, None::<int>, bold()),
            (Seq::empty(), Some(worked), fg_bold(Color::Green)),
        ],
        Seq::empty(),
    ] + task_duration_lines(day_task_totals(r, r.date == today, now), running_task(r), worked) + seq![
        Seq::empty(),
        seq![("  Last refresh: "@ + clock_seconds_text(now), None::<int>, fg(Color::DarkGray))],
        Seq::empty(),
    ] + session_lines_from(r.sessions@, 0, running, now)
}

fn span_string(text: String, style: Style) -> (s: Span)
    ensures
        span_view(s) == (text@, None::<int>, style),
{
    Span { text, time: None, style }
}

fn timed_span(text: String, d: Duration, style: Style) -> (s: Span)
    ensures
        span_view(s) == (text@, Some(d.nanos as int), style),
{
    Span { text, time: Some(d), style }
}

fn duration_span(d: Duration, style: Style) -> (s: Span)
    ensures
        span_view(s) == (Seq::<char>::empty(), Some(d.nanos as int), style),
{
    Span { text: String::new(), time: Some(d), style }
}

/// Appends the lines of time per task.
pub fn render_task_durations(record: &DayRecord, worked: Duration, today: Date, now: ClockTime, content: &mut Vec<Line>)
    requires
        fits(record),
        -0x4000_0000_0000_0000_0000_0000_0000_0000 <= worked.nanos <= 0x4000_0000_0000_0000_0000_0000_0000_0000,
    ensures
        lines_view(final(content)@) == lines_view(old(content)@) + task_duration_lines(
            day_task_totals(*record, record.date == today, now),
            running_task(*record),
            worked.nanos as int,
        ),
{
    let durations = calculate_task_durations(record, today, now);
    let ghost entries = day_task_totals(*record, record.date == today, now);
    if durations.len() == 0 {
        assert(lines_view(content@) =~= lines_view(old(content)@) + task_duration_lines(entries, running_task(*record), worked.nanos as int));
        return;
    }
    let current = active_task_name(record);
    let ghost cur: Option<Seq<char>> = match &current {
        Some(c) => Some(c@),
        None => None,
    };
    let ghost head = lines_view(content@);
    let mut task_total: i128 = 0;
    let mut k: usize = 0;
    proof {
        assert(record_size(record) * span_bound() <= RECORD_LIMIT * span_bound()) by (nonlinear_arith)
            requires
                record_size(record) <= RECORD_LIMIT,
        ;
        assert(entries.take(0) =~= Seq::<(Seq<char>, int)>::empty());
    }
    while k < durations.len()
        invariant
            k <= durations@.len(),
            durations@.len() == entries.len(),
            forall|m: int|
                0 <= m < durations@.len() ==> (#[trigger] durations@[m]).0@ == entries[m].0 && durations@[m].1.nanos
                    == entries[m].1,
            abs_sum(entries) <= RECORD_LIMIT * span_bound(),
            task_total == amount_sum(entries.take(k as int)),
            lines_view(content@) == head + Seq::new(k as nat, |m: int| task_duration_line(entries[m].0, entries[m].1, cur)),
            cur == running_task(*record),
            match &current {
                Some(c) => cur == Some(c@),
                None => cur is None,
            },
        decreases durations@.len() - k,
    {
        let name = &durations[k].0;
        let d = durations[k].1;
        proof {
            lemma_abs_sum_prefix(entries, k + 1);
            assert(entries.take(k + 1).drop_last() =~= entries.take(k as int));
        }
        let running = match &current {
            Some(c) => *c == *name,
            None => false,
        };
        let mut t = String::from_str("  ");
        let st = if running {
            t.append(" \u{25B6} ");
            style_fg_bold(Color::Green)
        } else {
            style_fg(Color::White)
        };
        t.append(name.as_str());
        t.append(": ");
        let l = line1(timed_span(t, d, st));
        proof {
            assert(line_view(l) =~= task_duration_line(entries[k as int].0, entries[k as int].1, cur));
        }
        push_line(content, l);
        task_total = task_total + d.nanos;
        proof {
            assert(lines_view(content@) =~= head + Seq::new((k + 1) as nat, |m: int| task_duration_line(entries[m].0, entries[m].1, cur)));
        }
        k = k + 1;
    }
    proof {
        assert(entries.take(k as int) =~= entries);
        lemma_abs_sum_prefix(entries, k as int);
    }
    let unassigned = Duration { nanos: worked.nanos - task_total };
    if unassigned.num_seconds() > 0 {
        let t = String::from_str("  Unassigned: ");
        push_line(content, line1(timed_span(t, unassigned, style_fg(Color::DarkGray))));
    }
    assert(lines_view(content@) =~= lines_view(old(content)@) + task_duration_lines(entries, cur, worked.nanos as int));
}

} // verus!

verus! {

fn push_session_panel(content: &mut Vec<Line>, s: &Session, up_to_now: bool, now: ClockTime)
    requires
        s.events@.len() <= RECORD_LIMIT,
    ensures
        lines_view(final(content)@) == lines_view(old(content)@) + session_panel_lines(
            *s,
            if up_to_now { now.nanos } else { END_OF_DAY_NANOS },
        ),
{
    let ghost end = if up_to_now { now.nanos } else { END_OF_DAY_NANOS };
    let (label, color) = if s.is_active() {
        ("tracking", Color::Green)
    } else if s.is_stopped() {
        ("stopped", Color::Red)
    } else {
        ("paused", Color::Yellow)
    };
    let mut head = String::from_str("  Session ");
    push_nat(&mut head, s.index as u128);
    head.append(" ");
    let mut state = String::from_str("(");
    state.append(label);
    state.append(")");
    let l = line2(span_string(head, style_fg_bold(Color::Cyan)), span_string(state, style_fg(color)));
    proof {
        assert(line_view(l) =~= session_panel_lines(*s, end)[0]);
    }
    push_line(content, l);
    let ghost after_head = lines_view(content@);
    let mut j = s.events.len();
    while j > 0
        invariant
            j <= s.events@.len(),
            lines_view(content@) == after_head + event_lines_from(s.events@, j as int),
        decreases j,
    {
        let e = s.events[j - 1];
        let mut t = String::from_str("    ");
        push_clock(&mut t, e.time);
        t.append(" ");
        let l = line2(span_string(t, style_fg(Color::DarkGray)), span_string(e.kind.label(), style_fg(e.kind.color())));
        push_line(content, l);
        proof {
            assert(lines_view(content@) =~= after_head + event_lines_from(s.events@, j - 1));
        }
        j = j - 1;
    }
    let st = calculate_session_total(s, up_to_now, now);
    let sp = calculate_session_paused(s, up_to_now, now);
    proof {
        lemma_measure_bound(Measure::Total, s.events@, end);
        lemma_measure_bound(Measure::Paused, s.events@, end);
        assert(3 * s.events@.len() * span_bound() <= 3 * RECORD_LIMIT * span_bound()) by (nonlinear_arith)
            requires
                s.events@.len() <= RECORD_LIMIT,
        ;
    }
    let mut v: Vec<Span> = Vec::new();
    v.push(span("    ", style_plain()));
    v.push(span("Total: ", style_fg(Color::White)));
    v.push(duration_span(st, style_fg(Color::White)));
    v.push(span("  |  Paused: ", style_fg(Color::White)));
    v.push(duration_span(sp, style_fg(Color::Yellow)));
    v.push(span("  |  Worked: ", style_fg(Color::White)));
    v.push(duration_span(Duration { nanos: st.nanos - sp.nanos }, style_fg(Color::Green)));
    let metrics = line(v);
    proof {
        assert(line_view(metrics) =~= session_panel_lines(*s, end)[event_lines_from(s.events@, 0).len() + 1int]);
    }
    push_line(content, metrics);
    push_line(content, blank_line());
    assert(lines_view(content@) =~= lines_view(old(content)@) + session_panel_lines(*s, end));
}

/// Appends the sessions with their events, latest first.
pub fn render_session_events(record: &DayRecord, actively_running: bool, now: ClockTime, content: &mut Vec<Line>)
    requires
        fits(record),
    ensures
        lines_view(final(content)@) == lines_view(old(content)@) + session_lines_from(
            record.sessions@,
            0,
            actively_running,
            now,
        ),
{
    let count = record.sessions.len();
    let ghost head = lines_view(content@);
    let mut i = count;
    while i > 0
        invariant
            count == record.sessions@.len(),
            i <= count,
            fits(record),
            lines_view(content@) == head + session_lines_from(record.sessions@, i as int, actively_running, now),
        decreases i,
    {
        let idx = i - 1;
        let is_last = idx + 1 == count;
        proof {
            lemma_size_monotone(record.sessions@, (idx + 1) as nat, count as nat);
            assert(size_upto(record.sessions@, (idx + 1) as nat) >= record.sessions@[idx as int].events@.len());
        }
        push_session_panel(content, &record.sessions[idx], actively_running && is_last, now);
        proof {
            assert(lines_view(content@) =~= head + session_lines_from(record.sessions@, idx as int, actively_running, now));
        }
        i = idx;
    }
}

/// The status panel of a day's record, drawn at `now` on day `today`.
pub fn render_status_panel(record: &DayRecord, today: Date, now: ClockTime) -> (r: Vec<Line>)
    requires
        fits(record),
        record.date.valid(),
    ensures
        lines_view(r@) == status_panel(*record, today, now),
{
    let running = record.has_active_session();
    let total = calculate_total_time(record, running, now);
    let paused = calculate_total_paused(record, running, now);
    let worked = calculate_worked(record, running, now);
    proof {
        lemma_day_measure_bound(Measure::Worked, record, running, now);
    }
    let mut content: Vec<Line> = Vec::new();
    let mut h = String::from_str(" \u{2500}\u{2500} ");
    push_long_date(&mut h, record.date);
    h.append(" \u{2500}\u{2500} ");
    let mut spans: Vec<Span> = Vec::new();
    spans.push(span_string(h, style_fg_bold(Color::Cyan)));
    if record.is_tracking() {
        spans.push(span(" | tracking", style_fg_italic(Color::Green)));
    }
    if record.is_paused() {
        spans.push(span(" | paused", style_fg_italic(Color::Yellow)));
    }
    let head = line(spans);
    proof {
        assert(line_view(head) =~= status_panel(*record, today, now)[0]);
    }
    push_line(&mut content, head);
    let mut v: Vec<Span> = Vec::new();
    v.push(span("  Total: ", style_bold()));
    v.push(duration_span(total, style_fg_bold(Color::White)));
    v.push(span("  |  Paused: ", style_bold()));
    v.push(duration_span(paused, style_fg(Color::Yellow)));
    v.push(span("  |  Worked: ", style_bold()));
    v.push(duration_span(worked, style_fg_bold(Color::Green)));
    let totals = line(v);
    proof {
        assert(line_view(totals) =~= status_panel(*record, today, now)[1]);
    }
    push_line(&mut content, totals);
    push_line(&mut content, blank_line());
    let ghost before_tasks = lines_view(content@);
    render_task_durations(record, worked, today, now, &mut content);
    push_line(&mut content, blank_line());
    let mut r = String::from_str("  Last refresh: ");
    push_clock(&mut r, now);
    push_char(&mut r, ':');
    push_two_digits(&mut r, ((now.nanos / NANOS_PER_SECOND) % 60) as u128);
    proof {
        assert(r@ =~= "  Last refresh: "@ + clock_seconds_text(now));
    }
    push_line(&mut content, line1(span_string(r, style_fg(Color::DarkGray))));
    push_line(&mut content, blank_line());
    render_session_events(record, running, now, &mut content);
    assert(lines_view(content@) =~= status_panel(*record, today, now));
    content
}

} // verus!
