//! How the tracker opens its interface in a terminal of its own when it is
//! not started from one: which terminal programs it tries, in which order,
//! and with which arguments.

use vstd::prelude::*;

verus! {

/// The views of a list of texts.
pub open spec fn texts(v: Seq<String>) -> Seq<Seq<char>> {
    v.map_values(|s: String| s@)
}

/// The terminal programs tried on Linux, in order, each with the arguments
/// that make it run `exe tui`.
pub open spec fn linux_terminals(exe: Seq<char>) -> Seq<(Seq<char>, Seq<Seq<char>>)> {
    seq![
        ("kitty"@, seq![exe, "tui"@]),
        ("alacritty"@, seq!["-e"@, exe, "tui"@]),
        ("gnome-terminal"@, seq!["--"@, exe, "tui"@]),
        ("foot"@, seq!["--"@, exe, "tui"@]),
        ("wezterm"@, seq!["start"@, "--"@, exe, "tui"@]),
        ("xterm"@, seq!["-e"@, exe, "tui"@]),
        ("x-terminal-emulator"@, seq!["-e"@, exe, "tui"@]),
    ]
}

fn strings(parts: &[&str]) -> (r: Vec<String>)
    ensures
        r@.len() == parts@.len(),
        forall|k: int| 0 <= k < r@.len() ==> (#[trigger] r@[k])@ == parts@[k]@,
{
    let mut r: Vec<String> = Vec::new();
    let mut i: usize = 0;
    while i < parts.len()
        invariant
            i <= parts@.len(),
            r@.len() == i,
            forall|k: int| 0 <= k < i ==> (#[trigger] r@[k])@ == parts@[k]@,
        decreases parts@.len() - i,
    {
        r.push(String::from_str(parts[i]));
        i = i + 1;
    }
    r
}

/// The terminal programs to try on Linux, in order, with their arguments;
/// the first that starts is used.
pub fn linux_terminal_commands(exe: &str) -> (r: Vec<(String, Vec<String>)>)
    ensures
        r@.len() == linux_terminals(exe@).len(),
        forall|i: int|
            0 <= i < r@.len() ==> (#[trigger] r@[i]).0@ == linux_terminals(exe@)[i].0 && texts(r@[i].1@)
                == linux_terminals(exe@)[i].1,
{
    let mut r: Vec<(String, Vec<String>)> = Vec::new();
    r.push((String::from_str("kitty"), strings(&[exe, "tui"])));
    r.push((String::from_str("alacritty"), strings(&["-e", exe, "tui"])));
    r.push((String::from_str("gnome-terminal"), strings(&["--", exe, "tui"])));
    r.push((String::from_str("foot"), strings(&["--", exe, "tui"])));
    r.push((String::from_str("wezterm"), strings(&["start", "--", exe, "tui"])));
    r.push((String::from_str("xterm"), strings(&["-e", exe, "tui"])));
    r.push((String::from_str("x-terminal-emulator"), strings(&["-e", exe, "tui"])));
    proof {
        assert forall|i: int| 0 <= i < r@.len() implies (#[trigger] r@[i]).0@ == linux_terminals(exe@)[i].0
            && texts(r@[i].1@) == linux_terminals(exe@)[i].1 by {
            assert(texts(r@[i].1@) =~= linux_terminals(exe@)[i].1);
        }
    }
    r
}

/// The arguments with which `cmd` opens a new console window running
/// `exe tui` on Windows.
pub fn windows_start_args(exe: &str) -> (r: Vec<String>)
    ensures
        texts(r@) == seq!["/C"@, "start"@, ""@, exe@, "tui"@],
{
    let r = strings(&["/C", "start", "", exe, "tui"]);
    assert(texts(r@) =~= seq!["/C"@, "start"@, ""@, exe@, "tui"@]);
    r
}

} // verus!
