//! Cycle-accurate event scheduler: a monotonically increasing cycle counter
//! and a set of pending events, at most one per event kind, each with an
//! absolute trigger cycle. Events fire in ascending trigger-cycle order,
//! ties broken by insertion order; firing removes the event before its
//! handler runs.

use vstd::prelude::*;

verus! {

/// Discriminated kind of a scheduled event: an overflow of timer `1` of the
/// first (`false`) or second (`true`) processor's timer block.
#[derive(Clone, Copy, PartialEq, Eq, Structural, Debug)]
pub enum Event {
    TimerOverflow(bool, usize),
}

/// True when some pending entry carries the kind `e`.
pub open spec fn spec_has_kind(s: Seq<(Event, usize)>, e: Event) -> bool {
    exists|i: int| 0 <= i < s.len() && s[i].0 == e
}


/// Which processor's block a timer event belongs to.
pub open spec fn spec_event_is9(e: Event) -> bool {
    match e {
        Event::TimerOverflow(b, _) => b,
    }
}

/// The timer index a timer event names.
pub open spec fn spec_event_index(e: Event) -> usize {
    match e {
        Event::TimerOverflow(_, n) => n,
    }
}

pub struct Scheduler {
    /// The global cycle counter; it only ever grows.
    pub cycle: usize,
    /// Pending events in insertion order, each with its absolute trigger
    /// cycle.
    pub events: Vec<(Event, usize)>,
}

impl Scheduler {
    /// At most one pending event per kind.
    pub open spec fn wf(self) -> bool {
        forall|i: int, j: int|
            0 <= i < j < self.events@.len() ==> self.events@[i].0 != self.events@[j].0
    }

    pub fn new() -> (r: Scheduler)
        ensures
            r.cycle == 0,
            r.events@.len() == 0,
            r.wf(),
    {
        Scheduler { cycle: 0, events: Vec::new() }
    }

    /// Advances the cycle counter; pending events are untouched.
    pub fn advance(&mut self, cycles: usize)
        requires
            old(self).cycle + cycles <= usize::MAX,
        ensures
            final(self).cycle == old(self).cycle + cycles,
            final(self).events == old(self).events,
    {
        self.cycle = self.cycle + cycles;
    }

    /// The position of the pending entry of kind `e`, if one exists.
    fn find_kind(&self, e: Event) -> (r: Option<usize>)
        requires
            self.wf(),
        ensures
            (match r {
                Some(i) => 0 <= i < self.events@.len() && self.events@[i as int].0 == e,
                None => !spec_has_kind(self.events@, e),
            }),
    {
        let mut k: usize = 0;
        while k < self.events.len()
            invariant
                0 <= k <= self.events@.len(),
                forall|j: int| 0 <= j < k ==> self.events@[j].0 != e,
            decreases self.events@.len() - k,
        {
            if self.events[k].0 == e {
                return Some(k);
            }
            k = k + 1;
        }
        None
    }

    /// Inserts or replaces the pending event of kind `event`, with a trigger
    /// `delay` cycles from now. A replaced entry loses its old slot; the new
    /// entry is the youngest for tie-breaking.
    pub fn schedule(&mut self, event: Event, delay: usize)
        requires
            old(self).wf(),
            old(self).cycle + delay <= usize::MAX,
        ensures
            final(self).cycle == old(self).cycle,
            final(self).wf(),
            !spec_has_kind(old(self).events@, event) ==> final(self).events@
                == old(self).events@.push((event, (old(self).cycle + delay) as usize)),
            spec_has_kind(old(self).events@, event) ==> (exists|i: int|
                0 <= i < old(self).events@.len() && old(self).events@[i].0 == event
                    && final(self).events@ == old(self).events@.remove(i).push(
                    (event, (old(self).cycle + delay) as usize),
                )),
            spec_has_kind(final(self).events@, event),
    {
        let trigger: usize = self.cycle + delay;
        match self.find_kind(event) {
            Some(i) => {
                self.events.remove(i);
                proof {
                    let olds = old(self).events@;
                    let news = self.events@;
                    assert forall|a: int, b: int|
                        0 <= a < b < news.len() implies news[a].0 != news[b].0 by {
                        if b < i {
                        } else if a < i {
                            assert(news[b] == olds[b + 1]);
                        } else {
                            assert(news[a] == olds[a + 1]);
                            assert(news[b] == olds[b + 1]);
                        }
                    }
                }
            },
            None => (),
        }
        self.events.push((event, trigger));
        proof {
            let s = self.events@;
            assert(s[s.len() - 1].0 == event);
        }
    }

    /// Cancels the pending event of kind `event`; doing nothing when none is
    /// pending.
    pub fn remove(&mut self, event: Event)
        requires
            old(self).wf(),
        ensures
            final(self).cycle == old(self).cycle,
            final(self).wf(),
            !spec_has_kind(old(self).events@, event) ==> final(self).events == old(self).events,
            spec_has_kind(old(self).events@, event) ==> (exists|i: int|
                0 <= i < old(self).events@.len() && old(self).events@[i].0 == event
                    && final(self).events@ == old(self).events@.remove(i)),
            !spec_has_kind(final(self).events@, event),
    {
        match self.find_kind(event) {
            Some(i) => {
                self.events.remove(i);
                proof {
                    let olds = old(self).events@;
                    let news = self.events@;
                    assert forall|j: int| 0 <= j < news.len() implies news[j].0 != event by {
                        if j < i {
                            assert(news[j] == olds[j]);
                        } else {
                            assert(news[j] == olds[j + 1]);
                        }
                    }
                }
            },
            None => (),
        }
    }

    /// Removes and returns a pending event whose trigger cycle has been
    /// reached: the one with the smallest trigger, the oldest of equals.
    /// Returns nothing when no pending event is due.
    pub fn pop_due(&mut self) -> (r: Option<Event>)
        requires
            old(self).wf(),
        ensures
            final(self).cycle == old(self).cycle,
            final(self).wf(),
            r is None ==> final(self).events == old(self).events && (forall|j: int|
                0 <= j < old(self).events@.len() ==> old(self).events@[j].1 > old(self).cycle),
            (match r {
                Some(e) => exists|i: int|
                    {
                        &&& 0 <= i < old(self).events@.len()
                        &&& old(self).events@[i].0 == e
                        &&& old(self).events@[i].1 <= old(self).cycle
                        &&& final(self).events@ == old(self).events@.remove(i)
                        &&& (forall|j: int|
                            0 <= j < old(self).events@.len() ==> old(self).events@[i].1
                                <= old(self).events@[j].1)
                        &&& (forall|j: int|
                            0 <= j < i ==> old(self).events@[j].1 > old(self).events@[i].1)
                    },
                None => true,
            }),
    {
        if self.events.len() == 0 {
            return None;
        }
        let mut best: usize = 0;
        let mut k: usize = 1;
        while k < self.events.len()
            invariant
                0 <= best < k <= self.events@.len(),
                forall|j: int| 0 <= j < k ==> self.events@[best as int].1 <= self.events@[j].1,
                forall|j: int| 0 <= j < best ==> self.events@[j].1 > self.events@[best as int].1,
            decreases self.events@.len() - k,
        {
            if self.events[k].1 < self.events[best].1 {
                best = k;
            }
            k = k + 1;
        }
        if self.events[best].1 > self.cycle {
            return None;
        }
        let e = self.events[best].0;
        let ghost i = best as int;
        self.events.remove(best);
        proof {
            let olds = old(self).events@;
            let news = self.events@;
            assert forall|a: int, b: int|
                0 <= a < b < news.len() implies news[a].0 != news[b].0 by {
                if b < i {
                } else if a < i {
                    assert(news[b] == olds[b + 1]);
                } else {
                    assert(news[a] == olds[a + 1]);
                    assert(news[b] == olds[b + 1]);
                }
            }
        }
        Some(e)
    }
}

} // verus!
