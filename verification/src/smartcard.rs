//! Smartcard auto-tracking: what a probe of the PC/SC subsystem tells, and
//! which card events the watcher reports.

use vstd::prelude::*;

verus! {

/// What the card watcher reports to the interface.
#[derive(Clone, Copy, PartialEq, Eq, Structural, Debug)]
pub enum CardEvent {
    Inserted,
    Removed,
}

/// Whether smartcard readers can be used.
#[derive(Clone, Copy, PartialEq, Eq, Structural, Debug)]
pub enum ReaderProbe {
    /// At least one reader was found.
    Available,
    /// The PC/SC subsystem works but no reader is connected.
    NoReaders,
    /// The PC/SC library could not be used at all.
    Unavailable,
}

/// The outcome of a probe, from its three steps in order: loading the PC/SC
/// library, establishing a context, finding a first reader. A step that
/// failed makes the later ones moot.
pub fn probe_readers(library_loaded: bool, context_established: bool, reader_found: bool) -> (r: ReaderProbe)
    ensures
        r == (if !library_loaded || !context_established {
            ReaderProbe::Unavailable
        } else if reader_found {
            ReaderProbe::Available
        } else {
            ReaderProbe::NoReaders
        }),
{
    if !library_loaded {
        return ReaderProbe::Unavailable;
    }
    if !context_established {
        return ReaderProbe::Unavailable;
    }
    if reader_found {
        ReaderProbe::Available
    } else {
        ReaderProbe::NoReaders
    }
}

/// What the watcher reports when a poll finds a card `present` after it was
/// `was_present`: only changes are reported.
pub fn card_transition(was_present: bool, present: bool) -> (r: Option<CardEvent>)
    ensures
        r == (if present && !was_present {
            Some(CardEvent::Inserted)
        } else if !present && was_present {
            Some(CardEvent::Removed)
        } else {
            None
        }),
{
    if present && !was_present {
        Some(CardEvent::Inserted)
    } else if !present && was_present {
        Some(CardEvent::Removed)
    } else {
        None
    }
}

/// Position of the first zero byte, or the length when there is none.
pub open spec fn first_nul(buf: Seq<u8>) -> int
    decreases buf.len(),
{
    if buf.len() == 0 {
        0
    } else if buf[0] == 0 {
        0
    } else {
        1 + first_nul(buf.drop_first())
    }
}

proof fn lemma_first_nul(buf: Seq<u8>)
    ensures
        0 <= first_nul(buf) <= buf.len(),
        forall|j: int| 0 <= j < first_nul(buf) ==> buf[j] != 0,
        first_nul(buf) < buf.len() ==> buf[first_nul(buf)] == 0,
    decreases buf.len(),
{
    if buf.len() > 0 && buf[0] != 0 {
        lemma_first_nul(buf.drop_first());
        assert forall|j: int| 0 <= j < first_nul(buf) implies buf[j] != 0 by {
            if j > 0 {
                assert(buf[j] == buf.drop_first()[j - 1]);
            }
        }
    }
}

/// The name of the first reader in the list of reader names that the PC/SC
/// library fills in (names ended by a zero byte, the list by another): the
/// bytes before the first zero; `None` when they are none.
pub fn first_reader_name(buf: &Vec<u8>) -> (r: Option<Vec<u8>>)
    ensures
        first_nul(buf@) == 0 ==> r is None,
        first_nul(buf@) > 0 ==> (r matches Some(name) && name@ == buf@.take(first_nul(buf@))),
{
    proof {
        lemma_first_nul(buf@);
    }
    let mut name: Vec<u8> = Vec::new();
    let mut i: usize = 0;
    while i < buf.len() && buf[i] != 0
        invariant
            i <= buf@.len(),
            i <= first_nul(buf@),
            name@ == buf@.take(i as int),
            0 <= first_nul(buf@) <= buf@.len(),
            forall|j: int| 0 <= j < first_nul(buf@) ==> buf@[j] != 0,
            first_nul(buf@) < buf@.len() ==> buf@[first_nul(buf@)] == 0,
        decreases buf@.len() - i,
    {
        name.push(buf[i]);
        assert(name@ =~= buf@.take(i + 1));
        i = i + 1;
    }
    if i == 0 {
        None
    } else {
        Some(name)
    }
}

/// One round of the card watcher, which starts with no card present: given
/// whether a card was present at the last reading and what this round read
/// (`None` where no reader was found), whether a card is now taken as present
/// and what is reported. A round without a reader keeps the last state.
pub fn poll_step(card_present: bool, reading: Option<bool>) -> (r: (bool, Option<CardEvent>))
    ensures
        r == step_of(card_present, reading),
{
    match reading {
        Some(present) => (present, card_transition(card_present, present)),
        None => (card_present, None),
    }
}

/// The state and report of one round of the watcher.
pub open spec fn step_of(card_present: bool, reading: Option<bool>) -> (bool, Option<CardEvent>) {
    match reading {
        Some(present) => (
            present,
            if present && !card_present {
                Some(CardEvent::Inserted)
            } else if !present && card_present {
                Some(CardEvent::Removed)
            } else {
                None
            },
        ),
        None => (card_present, None),
    }
}

/// Whether a card is taken as present after a run of readings, starting
/// from no card.
pub open spec fn present_after(readings: Seq<Option<bool>>) -> bool
    decreases readings.len(),
{
    if readings.len() == 0 {
        false
    } else {
        step_of(present_after(readings.drop_last()), readings.last()).0
    }
}

/// The events a run of readings reports, in order.
pub open spec fn events_of(readings: Seq<Option<bool>>) -> Seq<CardEvent>
    decreases readings.len(),
{
    if readings.len() == 0 {
        Seq::empty()
    } else {
        let before = events_of(readings.drop_last());
        match step_of(present_after(readings.drop_last()), readings.last()).1 {
            Some(e) => before.push(e),
            None => before,
        }
    }
}

/// The card watcher never reports the same event twice in a row, and its
/// first report is an insertion: whatever the readings, the reports
/// alternate Inserted, Removed, Inserted, ... and the last one says whether
/// a card is now present.
pub proof fn law_card_events_alternate(readings: Seq<Option<bool>>)
    ensures
        forall|i: int|
            0 <= i < events_of(readings).len() ==> #[trigger] events_of(readings)[i] == (if i % 2 == 0 {
                CardEvent::Inserted
            } else {
                CardEvent::Removed
            }),
        present_after(readings) == (events_of(readings).len() % 2 == 1),
    decreases readings.len(),
{
    if readings.len() > 0 {
        law_card_events_alternate(readings.drop_last());
    }
}

} // verus!
