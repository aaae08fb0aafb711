//! The events of a session, numbered, with a window of the latest for watchers to catch up from.

use crate::schema::{share, EventData};
use std::sync::Arc;
use vstd::prelude::*;

verus! {

/// The number of events that are kept.
pub const MAX_EVENTS: usize = 512;

/// The numbered events.
#[derive(Debug, PartialEq, Eq)]
pub struct EventHub {
    pub next_sequence: u64,
    pub events: Vec<(u64, Arc<EventData>)>,
}

/// The events that come after `sequence`.
pub open spec fn later_than(events: Seq<(u64, Arc<EventData>)>, sequence: u64) -> Seq<
    (u64, Arc<EventData>),
> {
    events.filter(|e: (u64, Arc<EventData>)| e.0 > sequence)
}

/// `s` without the elements before the last `n`.
pub open spec fn last_of<T>(s: Seq<T>, n: nat) -> Seq<T> {
    if s.len() <= n {
        s
    } else {
        s.skip(s.len() - n)
    }
}

impl Default for EventHub {
    fn default() -> (r: Self)
        ensures
            r.wf(),
            r.next_sequence == 0,
            r.events@.len() == 0,
    {
        EventHub { next_sequence: 0, events: Vec::new() }
    }
}

impl EventHub {
    /// The kept events are the latest, numbered without a gap up to the current number.
    pub open spec fn wf(&self) -> bool {
        &&& self.events@.len() == (if self.next_sequence < MAX_EVENTS {
            self.next_sequence as int
        } else {
            MAX_EVENTS as int
        })
        &&& forall|i: int|
            #![trigger self.events@[i]]
            0 <= i < self.events@.len() ==> self.events@[i].0 == self.next_sequence
                - self.events@.len() + 1 + i
    }

    /// Every event after `sequence` is still kept.
    pub open spec fn replays(&self, sequence: u64) -> bool {
        self.next_sequence - self.events@.len() <= sequence <= self.next_sequence
    }

    /// Adds an event under the next number; the oldest one goes when there are too many.
    pub fn push(&mut self, event: EventData)
        requires
            old(self).wf(),
            old(self).next_sequence < u64::MAX,
        ensures
            final(self).wf(),
            final(self).next_sequence == old(self).next_sequence + 1,
            final(self).events@ == last_of(
                old(self).events@.push((final(self).next_sequence, Arc::new(event))),
                MAX_EVENTS as nat,
            ),
    {
        self.next_sequence = self.next_sequence + 1;
        let sequence: u64 = self.next_sequence;
        self.events.push((sequence, Arc::new(event)));
        if self.events.len() > MAX_EVENTS {
            self.events.remove(0);
            assert(self.events@ =~= last_of(
                old(self).events@.push((sequence, Arc::new(event))),
                MAX_EVENTS as nat,
            ));
        }
    }

    /// The kept events after `sequence`.
    pub fn events_after(&self, sequence: u64) -> (r: Vec<(u64, Arc<EventData>)>)
        ensures
            r@ == later_than(self.events@, sequence),
    {
        let ghost keep = |e: (u64, Arc<EventData>)| e.0 > sequence;
        let mut out: Vec<(u64, Arc<EventData>)> = Vec::new();
        let mut i: usize = 0;
        assert(self.events@.take(0).filter(keep) =~= Seq::empty()) by {
            reveal(Seq::filter);
        }
        while i < self.events.len()
            invariant
                i <= self.events@.len(),
                keep == (|e: (u64, Arc<EventData>)| e.0 > sequence),
                out@ == self.events@.take(i as int).filter(keep),
            decreases self.events@.len() - i,
        {
            proof {
                reveal(Seq::filter);
                assert(self.events@.take(i + 1).drop_last() =~= self.events@.take(i as int));
            }
            if self.events[i].0 > sequence {
                out.push((self.events[i].0, share(&self.events[i].1)));
            }
            i += 1;
        }
        assert(self.events@.take(i as int) =~= self.events@);
        out
    }

    /// The number of the latest event; zero before the first.
    pub fn current_sequence(&self) -> (r: u64)
        ensures
            r == self.next_sequence,
    {
        self.next_sequence
    }

    /// Whether every event after `sequence` is still kept.
    pub fn can_replay_after(&self, sequence: u64) -> (r: bool)
        requires
            self.wf(),
        ensures
            r == self.replays(sequence),
    {
        if sequence > self.next_sequence {
            return false;
        }
        if sequence == self.next_sequence {
            return true;
        }
        self.next_sequence - sequence <= self.events.len() as u64
    }

    /// The events after `sequence`, unless one of them is no longer kept.
    pub fn events_after_checked(&self, sequence: u64) -> (r: Option<Vec<(u64, Arc<EventData>)>>)
        requires
            self.wf(),
        ensures
            match r {
                Some(events) => self.replays(sequence) && events@ == later_than(
                    self.events@,
                    sequence,
                ),
                None => !self.replays(sequence),
            },
    {
        if self.can_replay_after(sequence) {
            Some(self.events_after(sequence))
        } else {
            None
        }
    }
}

proof fn lemma_later_suffix(events: Seq<(u64, Arc<EventData>)>, first: int, sequence: u64)
    requires
        forall|i: int| #![trigger events[i]] 0 <= i < events.len() ==> events[i].0 == first + i,
    ensures
        later_than(events, sequence) == (if sequence < first {
            events
        } else if sequence - first + 1 >= events.len() {
            Seq::empty()
        } else {
            events.skip(sequence - first + 1)
        }),
    decreases events.len(),
{
    reveal(Seq::filter);
    if events.len() > 0 {
        let front = events.drop_last();
        assert forall|i: int| #![trigger front[i]] 0 <= i < front.len() implies front[i].0 == first
            + i by {
            assert(front[i] == events[i]);
        }
        lemma_later_suffix(front, first, sequence);
        let last = events[events.len() - 1];
        assert(last.0 == first + events.len() - 1);
        if sequence < first {
            assert(front.push(last) =~= events);
        } else if sequence - first + 1 < events.len() {
            assert(events.skip(sequence - first + 1) =~= (if sequence - first + 1 >= front.len() {
                Seq::empty()
            } else {
                front.skip(sequence - first + 1)
            }).push(last));
        }
    } else {
        assert(later_than(events, sequence) =~= Seq::empty());
        assert(events =~= Seq::empty());
    }
}

/// A replay that is granted holds every event after the cursor, in order, none missing and none
/// twice.
pub proof fn replay_is_gapless(hub: EventHub, sequence: u64)
    requires
        hub.wf(),
        hub.replays(sequence),
    ensures
        later_than(hub.events@, sequence).len() == hub.next_sequence - sequence,
        forall|i: int|
            #![trigger later_than(hub.events@, sequence)[i]]
            0 <= i < hub.next_sequence - sequence ==> later_than(hub.events@, sequence)[i].0
                == sequence + 1 + i,
{
    lemma_later_suffix(
        hub.events@,
        hub.next_sequence - hub.events@.len() + 1,
        sequence,
    );
}

/// Before the window is full every cursor up to the current one can be replayed from; later, just
/// the cursors that are within it.
pub proof fn replay_window_holds_the_latest(hub: EventHub, sequence: u64)
    requires
        hub.wf(),
    ensures
        hub.replays(sequence) <==> sequence <= hub.next_sequence && hub.next_sequence - sequence
            <= MAX_EVENTS,
{
}

} // verus!
