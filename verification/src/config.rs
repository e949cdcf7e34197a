//! The tracker's options: task slots, the daily limit, the smartcard switch
//! and the time format; and where the tracker keeps its files.

use vstd::prelude::*;
use crate::date::{iso_date_text, push_iso_date, Date};
use crate::text::{contains, dec_nat, find_char, first_index_of, occurs_in, push_char, push_nat, trim, trimmed};

verus! {

/// A number of hours the user set. The number itself (an `f64`) is kept as
/// its bit pattern and shown as its text with two decimals; `in_day` tells
/// whether it lies in `(0, 24]`. These are read off the number where it is
/// parsed or loaded.
pub struct Hours {
    pub bits: u64,
    pub text: String,
    pub in_day: bool,
}

impl Hours {
    pub fn duplicate(&self) -> (r: Hours)
        ensures
            r == *self,
    {
        Hours { bits: self.bits, text: self.text.clone(), in_day: self.in_day }
    }
}

/// A task slot: the task's name and an optional limit of hours.
pub struct TaskInfo {
    pub name: String,
    pub max_hours: Option<Hours>,
}

impl TaskInfo {
    /// A task without a limit.
    pub fn new(name: String) -> (r: TaskInfo)
        ensures
            r.name == name,
            r.max_hours is None,
    {
        TaskInfo { name, max_hours: None }
    }

    /// A task with an optional limit.
    pub fn with_max_hours(name: String, max_hours: Option<Hours>) -> (r: TaskInfo)
        ensures
            r.name == name,
            r.max_hours == max_hours,
    {
        TaskInfo { name, max_hours }
    }

    pub fn duplicate(&self) -> (r: TaskInfo)
        ensures
            r == *self,
    {
        let max_hours = match &self.max_hours {
            Some(h) => Some(h.duplicate()),
            None => None,
        };
        TaskInfo { name: self.name.clone(), max_hours }
    }
}

/// The smartcard section of the options.
pub struct SmartcardConfig {
    pub active: bool,
}

/// The options of the tracker.
///
/// `tasks` maps slot keys (`"0"` to `"9"`, and whatever other keys a file
/// held) to tasks; no key occurs twice.
pub struct TrackerConfig {
    pub smartcard: SmartcardConfig,
    pub tasks: Vec<(String, TaskInfo)>,
    pub max_hours_per_day: Option<Hours>,
    pub decimal_time_format: bool,
}

/// The key of a task slot: its number in decimal.
pub open spec fn slot_key(slot: u8) -> Seq<char> {
    dec_nat(slot as nat)
}

/// Position of the entry with key `key`, if any.
pub open spec fn key_index(tasks: Seq<(String, TaskInfo)>, key: Seq<char>) -> Option<int> {
    if exists|i: int| 0 <= i < tasks.len() && tasks[i].0@ == key {
        Some(choose|i: int| 0 <= i < tasks.len() && tasks[i].0@ == key)
    } else {
        None
    }
}

/// The keys of the task map, as a map from key to task.
pub open spec fn task_map(tasks: Seq<(String, TaskInfo)>) -> Map<Seq<char>, TaskInfo> {
    Map::new(
        |k: Seq<char>| exists|i: int| 0 <= i < tasks.len() && tasks[i].0@ == k,
        |k: Seq<char>| tasks[key_index(tasks, k)->0].1,
    )
}

impl TrackerConfig {
    /// No key occurs twice.
    pub open spec fn wf(&self) -> bool {
        forall|i: int, j: int|
            0 <= i < j < self.tasks@.len() ==> (#[trigger] self.tasks@[i]).0@ != (#[trigger] self.tasks@[j]).0@
    }

    /// The tasks by key.
    pub open spec fn task_view(&self) -> Map<Seq<char>, TaskInfo> {
        task_map(self.tasks@)
    }

    /// The options a missing or unreadable file stands for.
    pub fn default() -> (c: TrackerConfig)
        ensures
            c.wf(),
            !c.smartcard.active,
            c.tasks@.len() == 0,
            c.max_hours_per_day is None,
            !c.decimal_time_format,
    {
        TrackerConfig {
            smartcard: SmartcardConfig { active: false },
            tasks: Vec::new(),
            max_hours_per_day: None,
            decimal_time_format: false,
        }
    }

    pub fn smartcard_active(&self) -> (b: bool)
        ensures
            b == self.smartcard.active,
    {
        self.smartcard.active
    }

    pub fn set_smartcard_active(&mut self, v: bool)
        ensures
            final(self).smartcard.active == v,
            final(self).tasks == old(self).tasks,
            final(self).max_hours_per_day == old(self).max_hours_per_day,
            final(self).decimal_time_format == old(self).decimal_time_format,
    {
        self.smartcard.active = v;
    }

    pub fn max_hours_per_day(&self) -> (r: Option<Hours>)
        ensures
            r == self.max_hours_per_day,
    {
        match &self.max_hours_per_day {
            Some(h) => Some(h.duplicate()),
            None => None,
        }
    }

    pub fn set_max_hours_per_day(&mut self, hours: Option<Hours>)
        ensures
            final(self).max_hours_per_day == hours,
            final(self).smartcard == old(self).smartcard,
            final(self).tasks == old(self).tasks,
            final(self).decimal_time_format == old(self).decimal_time_format,
    {
        self.max_hours_per_day = hours;
    }

    pub fn decimal_time_format(&self) -> (b: bool)
        ensures
            b == self.decimal_time_format,
    {
        self.decimal_time_format
    }

    pub fn set_decimal_time_format(&mut self, enabled: bool)
        ensures
            final(self).decimal_time_format == enabled,
            final(self).smartcard == old(self).smartcard,
            final(self).tasks == old(self).tasks,
            final(self).max_hours_per_day == old(self).max_hours_per_day,
    {
        self.decimal_time_format = enabled;
    }
}

} // verus!

verus! {

pub proof fn lemma_key_index(tasks: Seq<(String, TaskInfo)>, key: Seq<char>, i: int)
    requires
        forall|a: int, b: int| 0 <= a < b < tasks.len() ==> (#[trigger] tasks[a]).0@ != (#[trigger] tasks[b]).0@,
        0 <= i < tasks.len(),
        tasks[i].0@ == key,
    ensures
        key_index(tasks, key) == Some(i),
        task_map(tasks).contains_key(key),
        task_map(tasks)[key] == tasks[i].1,
{
    let j = choose|j: int| 0 <= j < tasks.len() && tasks[j].0@ == key;
    if j < i {
        assert(tasks[j].0@ != tasks[i].0@);
    } else if j > i {
        assert(tasks[i].0@ != tasks[j].0@);
    }
}

/// The key of a task slot as a string.
pub fn slot_key_string(slot: u8) -> (s: String)
    ensures
        s@ == slot_key(slot),
{
    let mut s = String::new();
    push_nat(&mut s, slot as u128);
    assert(s@ =~= slot_key(slot));
    s
}

fn find_key(tasks: &Vec<(String, TaskInfo)>, key: &String) -> (r: Option<usize>)
    ensures
        match r {
            Some(i) => i < tasks@.len() && tasks@[i as int].0@ == key@,
            None => forall|i: int| 0 <= i < tasks@.len() ==> tasks@[i].0@ != key@,
        },
{
    let mut i: usize = 0;
    while i < tasks.len()
        invariant
            i <= tasks@.len(),
            forall|j: int| 0 <= j < i ==> tasks@[j].0@ != key@,
        decreases tasks@.len() - i,
    {
        if tasks[i].0 == *key {
            return Some(i);
        }
        i = i + 1;
    }
    None
}

/// The task a non-empty slot text stands for: its name, before the first `:`
/// when there is one, without blanks at either end.
pub open spec fn spec_task_name(text: Seq<char>) -> Seq<char> {
    match first_index_of(text, ':') {
        Some(p) => trimmed(text.subrange(0, p)),
        None => trimmed(text),
    }
}

/// The text of the hours limit in a slot text: what follows the first `:`,
/// without blanks at either end.
pub open spec fn spec_hours_text(text: Seq<char>) -> Option<Seq<char>> {
    match first_index_of(text, ':') {
        Some(p) => Some(trimmed(text.subrange(p + 1, text.len() as int))),
        None => None,
    }
}

/// The text of the hours limit in a slot text (`"Name:2.5"` gives `"2.5"`),
/// which is to be read as a number and passed to `set_task_name`; `None`
/// when the text has no `:`.
pub fn task_spec_hours_text(text: &str) -> (r: Option<String>)
    ensures
        match r {
            Some(s) => spec_hours_text(text@) == Some(s@),
            None => spec_hours_text(text@) is None,
        },
{
    match find_char(text, ':') {
        Some(p) => {
            let n = text.unicode_len();
            let rest = text.substring_char(p + 1, n);
            Some(trim(rest))
        },
        None => None,
    }
}

fn task_spec_name(text: &str) -> (r: String)
    ensures
        r@ == spec_task_name(text@),
{
    match find_char(text, ':') {
        Some(p) => {
            let head = text.substring_char(0, p);
            trim(head)
        },
        None => trim(text),
    }
}

/// The tasks `new` after setting slot `slot` of the tasks `old` from the
/// text `text`, with the limit `hours` read from the text after its `:`: an
/// empty text clears the slot; any other names the task (the text before a
/// `:`, without blanks at either end) and gives it the limit when the text
/// has a `:`. Every other key keeps its task.
pub open spec fn slot_set(old: Map<Seq<char>, TaskInfo>, new: Map<Seq<char>, TaskInfo>, slot: u8, text: Seq<char>, hours: Option<Hours>) -> bool {
    &&& new.remove(slot_key(slot)) == old.remove(slot_key(slot))
    &&& text.len() == 0 ==> !new.contains_key(slot_key(slot))
    &&& text.len() > 0 ==> new.contains_key(slot_key(slot)) && new[slot_key(slot)].name@ == spec_task_name(text)
        && new[slot_key(slot)].max_hours == (if spec_hours_text(text) is Some {
        hours
    } else {
        None
    })
}

impl TrackerConfig {
    /// The task of a slot, if configured.
    pub fn task_info(&self, slot: u8) -> (r: Option<TaskInfo>)
        requires
            self.wf(),
        ensures
            match r {
                Some(t) => self.task_view().contains_key(slot_key(slot)) && t == self.task_view()[slot_key(slot)],
                None => !self.task_view().contains_key(slot_key(slot)),
            },
    {
        let key = slot_key_string(slot);
        match find_key(&self.tasks, &key) {
            Some(i) => {
                proof {
                    lemma_key_index(self.tasks@, key@, i as int);
                }
                Some(self.tasks[i].1.duplicate())
            },
            None => None,
        }
    }

    /// Whether no key occurs twice (the invariant `wf`); options read from a
    /// file, which holds a table, always pass.
    pub fn keys_unique(&self) -> (b: bool)
        ensures
            b == self.wf(),
    {
        let n = self.tasks.len();
        let mut j: usize = 0;
        while j < n
            invariant
                n == self.tasks@.len(),
                j <= n,
                forall|a: int, b: int| 0 <= a < b < j ==> (#[trigger] self.tasks@[a]).0@ != (#[trigger] self.tasks@[b]).0@,
            decreases n - j,
        {
            let mut i: usize = 0;
            while i < j
                invariant
                    n == self.tasks@.len(),
                    i <= j < n,
                    forall|a: int| 0 <= a < i ==> (#[trigger] self.tasks@[a]).0@ != self.tasks@[j as int].0@,
                decreases j - i,
            {
                if self.tasks[i].0 == self.tasks[j].0 {
                    return false;
                }
                i = i + 1;
            }
            j = j + 1;
        }
        true
    }

    /// The task name of a slot, if configured.
    pub fn task_name(&self, slot: u8) -> (r: Option<String>)
        requires
            self.wf(),
        ensures
            match r {
                Some(s) => self.task_view().contains_key(slot_key(slot)) && s@ == self.task_view()[slot_key(
                    slot,
                )].name@,
                None => !self.task_view().contains_key(slot_key(slot)),
            },
    {
        let key = slot_key_string(slot);
        match find_key(&self.tasks, &key) {
            Some(i) => {
                proof {
                    lemma_key_index(self.tasks@, key@, i as int);
                }
                Some(self.tasks[i].1.name.clone())
            },
            None => None,
        }
    }

    fn remove_key(&mut self, key: &String)
        requires
            old(self).wf(),
        ensures
            final(self).wf(),
            !final(self).task_view().contains_key(key@),
            final(self).task_view() == old(self).task_view().remove(key@),
            final(self).smartcard == old(self).smartcard,
            final(self).max_hours_per_day == old(self).max_hours_per_day,
            final(self).decimal_time_format == old(self).decimal_time_format,
    {
        match find_key(&self.tasks, key) {
            Some(i) => {
                let ghost old_tasks = self.tasks@;
                let _ = self.tasks.remove(i);
                proof {
                    let nt = self.tasks@;
                    assert forall|a: int, b: int| 0 <= a < b < nt.len() implies (#[trigger] nt[a]).0@ != (#[trigger] nt[b]).0@ by {
                        let oa = if a < i { a } else { a + 1 };
                        let ob = if b < i { b } else { b + 1 };
                        assert(nt[a] == old_tasks[oa]);
                        assert(nt[b] == old_tasks[ob]);
                        assert(old_tasks[oa].0@ != old_tasks[ob].0@);
                    }
                    assert forall|k: Seq<char>| #[trigger] task_map(nt).contains_key(k) <==> old(self).task_view().remove(key@).contains_key(k) by {
                        if task_map(nt).contains_key(k) {
                            let a = choose|a: int| 0 <= a < nt.len() && nt[a].0@ == k;
                            let oa = if a < i { a } else { a + 1 };
                            assert(old_tasks[oa] == nt[a]);
                            assert(oa != i);
                        }
                        if old(self).task_view().remove(key@).contains_key(k) {
                            let b = choose|b: int| 0 <= b < old_tasks.len() && old_tasks[b].0@ == k;
                            assert(b != i);
                            let nb = if b < i { b } else { b - 1 };
                            assert(nt[nb] == old_tasks[b]);
                        }
                    }
                    assert forall|k: Seq<char>| #[trigger] task_map(nt).contains_key(k) implies task_map(nt)[k] == old(self).task_view()[k] by {
                        let a = choose|a: int| 0 <= a < nt.len() && nt[a].0@ == k;
                        let oa = if a < i { a } else { a + 1 };
                        assert(old_tasks[oa] == nt[a]);
                        lemma_key_index(nt, k, a);
                        lemma_key_index(old_tasks, k, oa);
                    }
                    assert(task_map(nt) =~= old(self).task_view().remove(key@));
                }
            },
            None => {
                proof {
                    assert(old(self).task_view().remove(key@) =~= old(self).task_view());
                }
            },
        }
    }

    fn insert_key(&mut self, key: String, info: TaskInfo)
        requires
            old(self).wf(),
        ensures
            final(self).wf(),
            final(self).task_view() == old(self).task_view().insert(key@, info),
            final(self).smartcard == old(self).smartcard,
            final(self).max_hours_per_day == old(self).max_hours_per_day,
            final(self).decimal_time_format == old(self).decimal_time_format,
    {
        let ghost old_tasks = self.tasks@;
        let ghost k0 = key@;
        match find_key(&self.tasks, &key) {
            Some(i) => {
                let entry_key = self.tasks[i].0.clone();
                self.tasks.set(i, (entry_key, info));
                proof {
                    let nt = self.tasks@;
                    assert forall|a: int, b: int| 0 <= a < b < nt.len() implies (#[trigger] nt[a]).0@ != (#[trigger] nt[b]).0@ by {
                        assert(nt[a].0@ == old_tasks[a].0@);
                        assert(nt[b].0@ == old_tasks[b].0@);
                    }
                    assert forall|k: Seq<char>| #[trigger] task_map(nt).contains_key(k) <==> old(self).task_view().insert(k0, info).contains_key(k) by {
                        if task_map(nt).contains_key(k) {
                            let a = choose|a: int| 0 <= a < nt.len() && nt[a].0@ == k;
                            assert(nt[a].0@ == old_tasks[a].0@);
                        }
                        if old(self).task_view().contains_key(k) {
                            let b = choose|b: int| 0 <= b < old_tasks.len() && old_tasks[b].0@ == k;
                            assert(nt[b].0@ == old_tasks[b].0@);
                        }
                    }
                    assert forall|k: Seq<char>| #[trigger] task_map(nt).contains_key(k) implies task_map(nt)[k] == old(self).task_view().insert(k0, info)[k] by {
                        let a = choose|a: int| 0 <= a < nt.len() && nt[a].0@ == k;
                        assert(nt[a].0@ == old_tasks[a].0@);
                        lemma_key_index(nt, k, a);
                        if a != i {
                            lemma_key_index(old_tasks, k, a);
                        }
                    }
                    assert(task_map(nt) =~= old(self).task_view().insert(k0, info));
                }
            },
            None => {
                self.tasks.push((key, info));
                proof {
                    let nt = self.tasks@;
                    let n = old_tasks.len();
                    assert forall|a: int, b: int| 0 <= a < b < nt.len() implies (#[trigger] nt[a]).0@ != (#[trigger] nt[b]).0@ by {
                        assert(nt[a] == old_tasks[a]);
                        if b < n {
                            assert(nt[b] == old_tasks[b]);
                        }
                    }
                    assert forall|k: Seq<char>| #[trigger] task_map(nt).contains_key(k) <==> old(self).task_view().insert(k0, info).contains_key(k) by {
                        if task_map(nt).contains_key(k) {
                            let a = choose|a: int| 0 <= a < nt.len() && nt[a].0@ == k;
                            if a < n {
                                assert(nt[a] == old_tasks[a]);
                            }
                        }
                        if old(self).task_view().contains_key(k) {
                            let b = choose|b: int| 0 <= b < old_tasks.len() && old_tasks[b].0@ == k;
                            assert(nt[b] == old_tasks[b]);
                        }
                        if k == k0 {
                            assert(nt[n as int].0@ == k0);
                        }
                    }
                    assert forall|k: Seq<char>| #[trigger] task_map(nt).contains_key(k) implies task_map(nt)[k] == old(self).task_view().insert(k0, info)[k] by {
                        let a = choose|a: int| 0 <= a < nt.len() && nt[a].0@ == k;
                        lemma_key_index(nt, k, a);
                        if a < n {
                            assert(nt[a] == old_tasks[a]);
                            lemma_key_index(old_tasks, k, a);
                        }
                    }
                    assert(task_map(nt) =~= old(self).task_view().insert(k0, info));
                }
            },
        }
    }

    /// Sets the task of a slot from the text typed for it, or clears the slot
    /// when the text is empty. A text `"Name:2.5"` names the task and its
    /// limit of hours: `hours` is what the text after the first `:` (see
    /// `task_spec_hours_text`) reads as, when it reads as a number.
    pub fn set_task_name(&mut self, slot: u8, name: &str, hours: Option<Hours>)
        requires
            old(self).wf(),
        ensures
            final(self).wf(),
            final(self).smartcard == old(self).smartcard,
            final(self).max_hours_per_day == old(self).max_hours_per_day,
            final(self).decimal_time_format == old(self).decimal_time_format,
            slot_set(old(self).task_view(), final(self).task_view(), slot, name@, hours),
    {
        let key = slot_key_string(slot);
        if name.unicode_len() == 0 {
            self.remove_key(&key);
            proof {
                assert(self.task_view().remove(slot_key(slot)) =~= old(self).task_view().remove(slot_key(slot)));
            }
        } else {
            let task_name = task_spec_name(name);
            let has_hours = find_char(name, ':').is_some();
            let info = if has_hours {
                TaskInfo::with_max_hours(task_name, hours)
            } else {
                TaskInfo::new(task_name)
            };
            let ghost i = info;
            self.insert_key(key, info);
            proof {
                assert(self.task_view().remove(slot_key(slot)) =~= old(self).task_view().remove(slot_key(slot)));
            }
        }
    }
}

} // verus!

verus! {

/// The name of the options file in the data directory.
pub const CONFIG_FILE: &'static str = ".tracker_options.toml";

/// Whether `c` separates components of a path: `/`, and on Windows also `\`.
pub open spec fn is_separator(c: char, windows: bool) -> bool {
    c == '/' || (windows && c == '\\')
}

/// A Windows drive prefix alone, such as `C:`.
pub open spec fn bare_drive(p: Seq<char>) -> bool {
    p.len() == 2 && p[1] == ':' && (('a' <= p[0] <= 'z') || ('A' <= p[0] <= 'Z'))
}

/// `base` joined with the relative component `comp`, as `Path::join` does it:
/// a separator goes between them unless `base` is empty, already ends in one,
/// or (on Windows) is a drive prefix alone.
pub open spec fn joined(base: Seq<char>, comp: Seq<char>, windows: bool) -> Seq<char> {
    if base.len() == 0 || is_separator(base.last(), windows) || (windows && bare_drive(base)) {
        base + comp
    } else {
        base + (if windows {
            "\\"@
        } else {
            "/"@
        }) + comp
    }
}

/// Joins the relative component `comp` to `base`.
pub fn join_path(base: &str, comp: &str, windows: bool) -> (r: String)
    ensures
        r@ == joined(base@, comp@, windows),
{
    let n = base.unicode_len();
    let mut s = base.to_owned();
    let need_sep = if n == 0 {
        false
    } else {
        let last = base.get_char(n - 1);
        let drive = windows && n == 2 && base.get_char(1) == ':' && (('a' <= base.get_char(0)
            && base.get_char(0) <= 'z') || ('A' <= base.get_char(0) && base.get_char(0) <= 'Z'));
        !(last == '/' || (windows && last == '\\') || drive)
    };
    if need_sep {
        if windows {
            s.append("\\");
        } else {
            s.append("/");
        }
    }
    s.append(comp);
    assert(s@ =~= joined(base@, comp@, windows));
    s
}

/// The directory of the tracker's files: `time_tracking` under `%APPDATA%` on
/// Windows, under `$HOME/.config` elsewhere. `base` is the value of that
/// variable.
pub open spec fn spec_data_dir(base: Seq<char>, windows: bool) -> Seq<char> {
    if windows {
        joined(base, "time_tracking"@, true)
    } else {
        joined(base + "/.config"@, "time_tracking"@, false)
    }
}

/// The directory of the tracker's files, from `%APPDATA%` on Windows or
/// `$HOME` elsewhere.
pub fn data_dir(base: &str, windows: bool) -> (r: String)
    ensures
        r@ == spec_data_dir(base@, windows),
{
    if windows {
        join_path(base, "time_tracking", true)
    } else {
        let mut home = base.to_owned();
        home.append("/.config");
        join_path(home.as_str(), "time_tracking", false)
    }
}

/// Full path of the options file in the data directory `dir`.
pub fn config_path(dir: &str, windows: bool) -> (r: String)
    ensures
        r@ == joined(dir@, CONFIG_FILE@, windows),
{
    join_path(dir, CONFIG_FILE, windows)
}

/// Path of the record file of `date` in the data directory `dir`.
pub fn toml_path(dir: &str, date: Date, windows: bool) -> (r: String)
    ensures
        r@ == joined(dir@, iso_date_text(date) + ".toml"@, windows),
{
    let mut name = String::new();
    push_iso_date(&mut name, date);
    name.append(".toml");
    join_path(dir, name.as_str(), windows)
}

/// Path of the record file of `date` in the earlier format.
pub fn json_path(dir: &str, date: Date, windows: bool) -> (r: String)
    ensures
        r@ == joined(dir@, iso_date_text(date) + ".json"@, windows),
{
    let mut name = String::new();
    push_iso_date(&mut name, date);
    name.append(".json");
    join_path(dir, name.as_str(), windows)
}

/// What loading the options gives.
pub struct LoadedConfig {
    pub config: TrackerConfig,
    /// The options were migrated from the earlier format and are to be saved.
    pub save: bool,
}

/// Chooses the options from what the options file held.
///
/// `raw` is the file's text (`None` when it could not be read); `parsed` the
/// options it reads as; `legacy_active` the `smartcard_active` flag of the
/// earlier format when the text reads as that. A file in the current format
/// (with a `[smartcard]` or `[tasks]` section) is taken as it is; one of the
/// earlier format is migrated (and to be saved); anything else stands for the
/// defaults.
pub fn load_config(raw: Option<&str>, parsed: Option<TrackerConfig>, legacy_active: Option<bool>) -> (r: LoadedConfig)
    requires
        parsed matches Some(c) ==> c.wf(),
    ensures
        r.config.wf(),
        raw is None ==> !r.save && r.config.tasks@.len() == 0 && !r.config.smartcard.active
            && r.config.max_hours_per_day is None && !r.config.decimal_time_format,
        raw matches Some(text) ==> {
            let sectioned = occurs_in(text@, "[smartcard]"@) || occurs_in(text@, "[tasks]"@);
            if parsed is Some && sectioned {
                !r.save && r.config == parsed->0
            } else if legacy_active is Some {
                r.save && r.config.smartcard.active == legacy_active->0 && r.config.tasks@.len() == 0
                    && r.config.max_hours_per_day is None && !r.config.decimal_time_format
            } else {
                !r.save && r.config.tasks@.len() == 0 && !r.config.smartcard.active
                    && r.config.max_hours_per_day is None && !r.config.decimal_time_format
            }
        },
{
    let text = match raw {
        Some(t) => t,
        None => {
            return LoadedConfig { config: TrackerConfig::default(), save: false };
        },
    };
    let sectioned = contains(text, "[smartcard]") || contains(text, "[tasks]");
    match parsed {
        Some(cfg) => {
            if sectioned {
                return LoadedConfig { config: cfg, save: false };
            }
        },
        None => {},
    }
    match legacy_active {
        Some(active) => {
            let mut migrated = TrackerConfig::default();
            migrated.set_smartcard_active(active);
            LoadedConfig { config: migrated, save: true }
        },
        None => LoadedConfig { config: TrackerConfig::default(), save: false },
    }
}

} // verus!

verus! {

/// What `set_task_name` then `task_name` give: a slot set from a text holds
/// the task that the text names, a slot cleared holds none, and every other
/// slot keeps its task.
pub proof fn law_slot_set_then_read(c0: TrackerConfig, c1: TrackerConfig, slot: u8, text: Seq<char>, hours: Option<Hours>, other: u8)
    requires
        slot_set(c0.task_view(), c1.task_view(), slot, text, hours),
        other != slot,
    ensures
        text.len() > 0 ==> c1.task_view().contains_key(slot_key(slot)) && c1.task_view()[slot_key(slot)].name@
            == spec_task_name(text),
        text.len() == 0 ==> !c1.task_view().contains_key(slot_key(slot)),
        c1.task_view().contains_key(slot_key(other)) == c0.task_view().contains_key(slot_key(other)),
        c0.task_view().contains_key(slot_key(other)) ==> c1.task_view()[slot_key(other)] == c0.task_view()[slot_key(other)],
{
    if slot_key(other) == slot_key(slot) {
        crate::text::lemma_dec_nat_injective(other as nat, slot as nat);
    }
    assert(c1.task_view().remove(slot_key(slot)).contains_key(slot_key(other)) == c1.task_view().contains_key(slot_key(other)));
    assert(c0.task_view().remove(slot_key(slot)).contains_key(slot_key(other)) == c0.task_view().contains_key(slot_key(other)));
    if c0.task_view().contains_key(slot_key(other)) {
        assert(c1.task_view().remove(slot_key(slot))[slot_key(other)] == c1.task_view()[slot_key(other)]);
        assert(c0.task_view().remove(slot_key(slot))[slot_key(other)] == c0.task_view()[slot_key(other)]);
    }
}

} // verus!
