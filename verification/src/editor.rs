//! Finding a text editor for the day files.

use vstd::prelude::*;
use crate::text::{blank, is_blank, push_char};

verus! {

/// Walks the text: the words ended so far, and the word being read.
pub open spec fn word_scan(s: Seq<char>) -> (Seq<Seq<char>>, Seq<char>)
    decreases s.len(),
{
    if s.len() == 0 {
        (Seq::empty(), Seq::empty())
    } else {
        let prev = word_scan(s.drop_last());
        let c = s.last();
        if is_blank(c) {
            if prev.1.len() > 0 {
                (prev.0.push(prev.1), Seq::empty())
            } else {
                prev
            }
        } else {
            (prev.0, prev.1.push(c))
        }
    }
}

/// The words of a text: its runs of non-blank characters, as
/// `str::split_whitespace` gives them.
pub open spec fn words(s: Seq<char>) -> Seq<Seq<char>> {
    let st = word_scan(s);
    if st.1.len() > 0 {
        st.0.push(st.1)
    } else {
        st.0
    }
}

/// The words of a text.
pub fn split_whitespace(s: &str) -> (r: Vec<String>)
    ensures
        r@.len() == words(s@).len(),
        forall|i: int| 0 <= i < r@.len() ==> (#[trigger] r@[i])@ == words(s@)[i],
{
    let n = s.unicode_len();
    let mut done: Vec<String> = Vec::new();
    let mut cur = String::new();
    let mut i: usize = 0;
    assert(s@.take(0) =~= Seq::<char>::empty());
    while i < n
        invariant
            n == s@.len(),
            i <= n,
            done@.len() == word_scan(s@.take(i as int)).0.len(),
            forall|k: int| 0 <= k < done@.len() ==> (#[trigger] done@[k])@ == word_scan(s@.take(i as int)).0[k],
            cur@ == word_scan(s@.take(i as int)).1,
        decreases n - i,
    {
        proof {
            assert(s@.take(i + 1).drop_last() =~= s@.take(i as int));
        }
        let c = s.get_char(i);
        if blank(c) {
            if cur.unicode_len() > 0 {
                let mut w = String::new();
                std::mem::swap(&mut w, &mut cur);
                done.push(w);
            }
        } else {
            push_char(&mut cur, c);
        }
        i = i + 1;
    }
    assert(s@.take(n as int) =~= s@);
    if cur.unicode_len() > 0 {
        done.push(cur);
    }
    done
}

/// The command a command line runs: its first word, or the whole line when it
/// has no word.
pub open spec fn command_word(cmd: Seq<char>) -> Seq<char> {
    if words(cmd).len() > 0 {
        words(cmd)[0]
    } else {
        cmd
    }
}

/// The command a command line runs, which is looked up to see whether it
/// exists.
pub fn command_name(cmd: &str) -> (r: String)
    ensures
        r@ == command_word(cmd@),
{
    let ws = split_whitespace(cmd);
    if ws.len() > 0 {
        ws[0].clone()
    } else {
        cmd.to_owned()
    }
}

/// The editors to try, in order: `$EDITOR`, then `$VISUAL` (each when set and
/// not empty), then the usual editors of the platform. The first whose
/// command exists is the one used.
pub open spec fn editor_list(editor: Option<Seq<char>>, visual: Option<Seq<char>>, windows: bool) -> Seq<Seq<char>> {
    let env_part = (if editor matches Some(e) && e.len() > 0 {
        seq![editor->0]
    } else {
        Seq::empty()
    }) + (if visual matches Some(v) && v.len() > 0 {
        seq![visual->0]
    } else {
        Seq::empty()
    });
    env_part + (if windows {
        seq!["notepad.exe"@, "notepad++.exe"@, "code.cmd"@]
    } else {
        seq!["vim"@, "nano"@, "vi"@, "emacs"@, "gedit"@, "kate"@]
    })
}

/// The editors to try, in order.
pub fn editor_candidates(editor: Option<String>, visual: Option<String>, windows: bool) -> (r: Vec<String>)
    ensures
        r@.len() == editor_list(
            match editor {
                Some(e) => Some(e@),
                None => None,
            },
            match visual {
                Some(v) => Some(v@),
                None => None,
            },
            windows,
        ).len(),
        forall|i: int|
            0 <= i < r@.len() ==> (#[trigger] r@[i])@ == editor_list(
                match editor {
                    Some(e) => Some(e@),
                    None => None,
                },
                match visual {
                    Some(v) => Some(v@),
                    None => None,
                },
                windows,
            )[i],
{
    let ghost e = match &editor {
        Some(x) => Some(x@),
        None => None,
    };
    let ghost v = match &visual {
        Some(x) => Some(x@),
        None => None,
    };
    let mut r: Vec<String> = Vec::new();
    match editor {
        Some(x) => {
            if x.unicode_len() > 0 {
                r.push(x);
            }
        },
        None => {},
    }
    match visual {
        Some(x) => {
            if x.unicode_len() > 0 {
                r.push(x);
            }
        },
        None => {},
    }
    let ghost env_len = r@.len();
    if windows {
        r.push(String::from_str("notepad.exe"));
        r.push(String::from_str("notepad++.exe"));
        r.push(String::from_str("code.cmd"));
    } else {
        r.push(String::from_str("vim"));
        r.push(String::from_str("nano"));
        r.push(String::from_str("vi"));
        r.push(String::from_str("emacs"));
        r.push(String::from_str("gedit"));
        r.push(String::from_str("kate"));
    }
    proof {
        let l = editor_list(e, v, windows);
        assert forall|i: int| 0 <= i < r@.len() implies (#[trigger] r@[i])@ == l[i] by {
        }
    }
    r
}

/// The position of the first `true`, if any.
pub open spec fn first_true(flags: Seq<bool>) -> Option<int>
    decreases flags.len(),
{
    if flags.len() == 0 {
        None
    } else if flags[0] {
        Some(0)
    } else {
        match first_true(flags.drop_first()) {
            Some(i) => Some(i + 1),
            None => None,
        }
    }
}

/// The editor used: the first candidate whose command exists (`available`
/// tells, candidate by candidate); `None` when none does.
pub fn choose_editor(candidates: &Vec<String>, available: &Vec<bool>) -> (r: Option<String>)
    requires
        candidates@.len() == available@.len(),
    ensures
        match first_true(available@) {
            Some(i) => r matches Some(e) && e@ == candidates@[i]@,
            None => r is None,
        },
{
    let mut i: usize = 0;
    assert(available@.skip(0) =~= available@);
    while i < candidates.len()
        invariant
            i <= candidates@.len(),
            candidates@.len() == available@.len(),
            first_true(available@) == match first_true(available@.skip(i as int)) {
                Some(k) => Some(k + i),
                None => None::<int>,
            },
        decreases candidates@.len() - i,
    {
        proof {
            assert(available@.skip(i as int).drop_first() =~= available@.skip(i + 1));
        }
        if available[i] {
            return Some(candidates[i].clone());
        }
        i = i + 1;
    }
    proof {
        assert(available@.skip(i as int) =~= Seq::<bool>::empty());
    }
    None
}

} // verus!
