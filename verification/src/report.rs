//! Printed reports as pieces: text, and durations whose writing (hours and
//! minutes, or decimal hours) is chosen where the report is printed.

use vstd::prelude::*;
use crate::clock::{duration_text, format_duration, Duration};

verus! {

/// A piece of a report: its text, then a duration when `time` holds one.
pub struct Piece {
    pub text: String,
    pub time: Option<Duration>,
}

/// A piece as values: its text, and the duration in nanoseconds (if any).
pub open spec fn piece_view(p: Piece) -> (Seq<char>, Option<int>) {
    (p.text@, match p.time {
        Some(d) => Some(d.nanos as int),
        None => None,
    })
}

pub open spec fn pieces_view(ps: Seq<Piece>) -> Seq<(Seq<char>, Option<int>)> {
    ps.map_values(|p: Piece| piece_view(p))
}

/// A piece of text alone.
pub open spec fn text_piece(t: Seq<char>) -> (Seq<char>, Option<int>) {
    (t, None)
}

/// A piece that is a duration alone.
pub open spec fn time_piece(d: int) -> (Seq<char>, Option<int>) {
    (Seq::empty(), Some(d))
}

/// The report written out, durations in hours and minutes.
pub open spec fn pieces_text(ps: Seq<(Seq<char>, Option<int>)>) -> Seq<char>
    decreases ps.len(),
{
    if ps.len() == 0 {
        Seq::empty()
    } else {
        ps[0].0 + (match ps[0].1 {
            Some(d) => duration_text(d),
            None => Seq::empty(),
        }) + pieces_text(ps.drop_first())
    }
}

/// The number of durations in a report.
pub open spec fn time_count(ps: Seq<(Seq<char>, Option<int>)>) -> nat
    decreases ps.len(),
{
    if ps.len() == 0 {
        0
    } else {
        (if ps[0].1 is Some {
            1nat
        } else {
            0nat
        }) + time_count(ps.drop_first())
    }
}

/// The report written out with the texts `ts` for its durations, in order.
pub open spec fn pieces_text_with(ps: Seq<(Seq<char>, Option<int>)>, ts: Seq<Seq<char>>) -> Seq<char>
    decreases ps.len(),
{
    if ps.len() == 0 {
        Seq::empty()
    } else if ps[0].1 is Some {
        ps[0].0 + ts[0] + pieces_text_with(ps.drop_first(), ts.drop_first())
    } else {
        ps[0].0 + pieces_text_with(ps.drop_first(), ts)
    }
}

/// Appends a piece of text.
pub fn push_text(ps: &mut Vec<Piece>, t: String)
    ensures
        pieces_view(final(ps)@) == pieces_view(old(ps)@).push(text_piece(t@)),
{
    ps.push(Piece { text: t, time: None });
    assert(pieces_view(ps@) =~= pieces_view(old(ps)@).push(text_piece(t@)));
}

/// Appends a duration.
pub fn push_time(ps: &mut Vec<Piece>, d: Duration)
    ensures
        pieces_view(final(ps)@) == pieces_view(old(ps)@).push(time_piece(d.nanos as int)),
{
    ps.push(Piece { text: String::new(), time: Some(d) });
    assert(pieces_view(ps@) =~= pieces_view(old(ps)@).push(time_piece(d.nanos as int)));
}

/// Appends pieces.
pub fn append_pieces(ps: &mut Vec<Piece>, more: Vec<Piece>)
    ensures
        pieces_view(final(ps)@) == pieces_view(old(ps)@) + pieces_view(more@),
{
    let ghost m = more@;
    let mut more = more;
    ps.append(&mut more);
    assert(pieces_view(ps@) =~= pieces_view(old(ps)@) + pieces_view(m));
}

/// The report written out, durations in hours and minutes.
pub fn join_pieces(ps: &Vec<Piece>) -> (r: String)
    ensures
        r@ == pieces_text(pieces_view(ps@)),
{
    let ghost v = pieces_view(ps@);
    let mut out = String::new();
    let mut i: usize = 0;
    assert(v.skip(0) =~= v);
    assert(out@ + pieces_text(v.skip(0)) =~= pieces_text(v));
    while i < ps.len()
        invariant
            i <= ps@.len(),
            v == pieces_view(ps@),
            out@ + pieces_text(v.skip(i as int)) == pieces_text(v),
        decreases ps@.len() - i,
    {
        let ghost before = out@;
        out.append(ps[i].text.as_str());
        match ps[i].time {
            Some(d) => {
                let t = format_duration(d);
                out.append(t.as_str());
            },
            None => {},
        }
        proof {
            assert(v.skip(i as int).drop_first() =~= v.skip(i + 1));
            assert(v.skip(i as int)[0] == piece_view(ps@[i as int]));
        }
        i = i + 1;
    }
    assert(v.skip(i as int) =~= Seq::<(Seq<char>, Option<int>)>::empty());
    out
}

/// The report written out with the texts `texts` for its durations, in
/// order (such as decimal hours, which the printer writes).
pub fn join_pieces_with(ps: &Vec<Piece>, texts: &Vec<String>) -> (r: String)
    requires
        texts@.len() == time_count(pieces_view(ps@)),
    ensures
        r@ == pieces_text_with(pieces_view(ps@), texts@.map_values(|t: String| t@)),
{
    let ghost v = pieces_view(ps@);
    let ghost ts = texts@.map_values(|t: String| t@);
    let mut out = String::new();
    let n: usize = texts.len();
    let mut i: usize = 0;
    let mut j: usize = 0;
    assert(v.skip(0) =~= v);
    assert(ts.skip(0) =~= ts);
    assert(out@ + pieces_text_with(v.skip(0), ts.skip(0)) =~= pieces_text_with(v, ts));
    while i < ps.len()
        invariant
            i <= ps@.len(),
            j <= texts@.len(),
            n == texts@.len(),
            v == pieces_view(ps@),
            ts == texts@.map_values(|t: String| t@),
            texts@.len() - j == time_count(v.skip(i as int)),
            out@ + pieces_text_with(v.skip(i as int), ts.skip(j as int)) == pieces_text_with(v, ts),
        decreases ps@.len() - i,
    {
        proof {
            assert(v.skip(i as int).drop_first() =~= v.skip(i + 1));
            assert(v.skip(i as int)[0] == piece_view(ps@[i as int]));
        }
        out.append(ps[i].text.as_str());
        match ps[i].time {
            Some(d) => {
                assert(time_count(v.skip(i as int)) == 1 + time_count(v.skip(i + 1)));
                assert(j < n);
                out.append(texts[j].as_str());
                proof {
                    assert(ts.skip(j as int)[0] == texts@[j as int]@);
                    assert(ts.skip(j as int).drop_first() =~= ts.skip(j + 1));
                }
                j = j + 1;
            },
            None => {},
        }
        i = i + 1;
    }
    assert(v.skip(i as int) =~= Seq::<(Seq<char>, Option<int>)>::empty());
    out
}

} // verus!
