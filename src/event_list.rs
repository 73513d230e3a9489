use vstd::prelude::*;

use crate::system_abstractions::Job;
use vstd::std_specs::iter::IteratorSpec;

verus! {

/// The payload of an event: what happened, and to which job.
#[derive(Clone, Copy, Debug, PartialEq, Eq, Structural)]
pub enum Metadata {
    JobArrival(i32, i32, i32),
    JobEntrance(Job),
    RequestMemory(Job),
    RequestCPU(Job),
    EndProcess(Job),
    FreeCPU(Job),
    FreeMemory(Job),
    ExitSystem(Job),
    PauseJob(Job),
    DefaultRoutine,
}

/// A pending event: its delivery time, its symbolic name and its payload.
#[derive(Clone, Debug)]
pub struct Event {
    pub time: i32,
    pub name: String,
    pub metadata: Metadata,
}

/// The mathematical value of an event.
pub struct EventView {
    pub time: int,
    pub name: Seq<char>,
    pub metadata: Metadata,
}

impl View for Event {
    type V = EventView;

    open spec fn view(&self) -> EventView {
        EventView { time: self.time as int, name: self.name@, metadata: self.metadata }
    }
}

/// Walks the events of an `EventList`, head first.
pub type EventListIter<'a> = std::slice::Iter<'a, Event>;

/// Events ordered by delivery time; the head comes first.
#[derive(Debug)]
pub struct EventList {
    events: Vec<Event>,
}

impl View for EventList {
    type V = Seq<EventView>;

    closed spec fn view(&self) -> Seq<EventView> {
        self.events@.map_values(|e: Event| e@)
    }
}

/// Every event comes no later than each one after it.
pub open spec fn times_sorted(s: Seq<EventView>) -> bool {
    forall|i: int, j: int| 0 <= i < j < s.len() ==> #[trigger] s[i].time <= #[trigger] s[j].time
}

/// Where an event of time `t` goes: before the first event that is strictly
/// later, so that it follows every event of equal or smaller time.
pub open spec fn insert_index(s: Seq<EventView>, t: int) -> int
    decreases s.len(),
{
    if s.len() == 0 {
        0
    } else if t < s[0].time {
        0
    } else {
        1 + insert_index(s.drop_first(), t)
    }
}

/// The queue after `push` of `e`.
pub open spec fn pushed(s: Seq<EventView>, e: EventView) -> Seq<EventView> {
    s.insert(insert_index(s, e.time), e)
}

/// The queue that a run of pushes builds from an empty one.
pub open spec fn pushed_all(es: Seq<EventView>) -> Seq<EventView>
    decreases es.len(),
{
    if es.len() == 0 {
        Seq::empty()
    } else {
        pushed(pushed_all(es.drop_last()), es.last())
    }
}

/// `insert_index` is the first position whose event is strictly later than `t`.
pub proof fn lemma_insert_index(s: Seq<EventView>, t: int, k: int)
    requires
        0 <= k <= s.len(),
        forall|j: int| 0 <= j < k ==> #[trigger] s[j].time <= t,
        k < s.len() ==> t < s[k].time,
    ensures
        insert_index(s, t) == k,
    decreases s.len(),
{
    if s.len() > 0 && k > 0 {
        assert forall|j: int| 0 <= j < k - 1 implies #[trigger] s.drop_first()[j].time <= t by {
            assert(s[j + 1].time <= t);
        }
        lemma_insert_index(s.drop_first(), t, k - 1);
    }
}

/// `insert_index` lies within the queue.
pub proof fn lemma_insert_index_bounds(s: Seq<EventView>, t: int)
    ensures
        0 <= insert_index(s, t) <= s.len(),
        forall|j: int| 0 <= j < insert_index(s, t) ==> #[trigger] s[j].time <= t,
        insert_index(s, t) < s.len() ==> t < s[insert_index(s, t)].time,
    decreases s.len(),
{
    if s.len() > 0 && t >= s[0].time {
        lemma_insert_index_bounds(s.drop_first(), t);
        assert forall|j: int| 0 <= j < insert_index(s, t) implies #[trigger] s[j].time <= t by {
            if j > 0 {
                assert(s[j] == s.drop_first()[j - 1]);
            }
        }
    }
}

/// A push keeps a time-sorted queue sorted.
pub proof fn lemma_push_keeps_time_order(s: Seq<EventView>, e: EventView)
    requires
        times_sorted(s),
    ensures
        times_sorted(pushed(s, e)),
{
    lemma_insert_index_bounds(s, e.time);
    let k = insert_index(s, e.time);
    let r = pushed(s, e);
    assert forall|i: int, j: int| 0 <= i < j < r.len() implies #[trigger] r[i].time
        <= #[trigger] r[j].time by {
        if j < k {
        } else if j == k {
        } else if i < k {
            assert(s[i].time <= e.time);
            if k < s.len() {
                assert(e.time < s[k].time);
            }
        } else if i == k {
            assert(e.time < s[k].time);
            assert(s[k].time <= s[j - 1].time);
        } else {
            assert(r[i] == s[i - 1] && r[j] == s[j - 1]);
        }
    }
}

/// Whatever the pushes, the queue they build from an empty one is sorted by
/// time, so that popping it head first yields non-decreasing times.
pub proof fn lemma_pushes_pop_in_time_order(es: Seq<EventView>)
    ensures
        times_sorted(pushed_all(es)),
        forall|i: int, j: int|
            0 <= i < j < pushed_all(es).len() ==> pushed_all(es)[i].time <= pushed_all(es)[j].time,
    decreases es.len(),
{
    if es.len() > 0 {
        lemma_pushes_pop_in_time_order(es.drop_last());
        lemma_push_keeps_time_order(pushed_all(es.drop_last()), es.last());
    }
    assert(times_sorted(pushed_all(es)));
    assert forall|i: int, j: int| 0 <= i < j < pushed_all(es).len() implies pushed_all(es)[i].time
        <= pushed_all(es)[j].time by {
        let s = pushed_all(es);
        assert(s[i].time <= s[j].time);
    }
}

impl EventList {
    pub fn new() -> (r: Self)
        ensures
            r@ == Seq::<EventView>::empty(),
    {
        let r = EventList { events: Vec::new() };
        assert(r@ =~= Seq::<EventView>::empty());
        r
    }

    /// Inserts an event after every event whose time is equal or smaller.
    pub fn push(&mut self, time: i32, name: String, metadata: Metadata)
        ensures
            final(self)@ == pushed(old(self)@, EventView { time: time as int, name: name@, metadata }),
    {
        let ghost s = self@;
        let mut i: usize = 0;
        while i < self.events.len() && self.events[i].time <= time
            invariant
                0 <= i <= self.events.len(),
                self@ == s,
                forall|j: int| 0 <= j < i ==> #[trigger] s[j].time <= time,
            decreases self.events.len() - i,
        {
            i = i + 1;
        }
        proof {
            lemma_insert_index(s, time as int, i as int);
        }
        let e = Event { time, name, metadata };
        self.events.insert(i, e);
        proof {
            assert(self@ =~= pushed(s, e@));
        }
    }

    /// The events in queue order, head first.
    pub fn iter(&self) -> (r: EventListIter<'_>)
        ensures
            r.remaining().map_values(|e: &Event| e@) == self@,
    {
        let r = self.events.as_slice().iter();
        proof {
            assert(r.remaining().map_values(|e: &Event| e@) =~= self@);
        }
        r
    }

    /// Removes and returns the head, or `None` when the queue is empty.
    pub fn pop(&mut self) -> (r: Option<Event>)
        ensures
            old(self)@.len() == 0 ==> r is None && final(self)@ == old(self)@,
            old(self)@.len() > 0 ==> r is Some && r->0@ == old(self)@[0] && final(self)@
                == old(self)@.drop_first(),
    {
        if self.events.len() == 0 {
            None
        } else {
            let ghost s = self@;
            let e = self.events.remove(0);
            proof {
                assert(self@ =~= s.drop_first());
            }
            Some(e)
        }
    }

    /// Puts an already popped event back at the head, without looking at
    /// its time.
    pub fn push_back(&mut self, event: Event)
        ensures
            final(self)@ == seq![event@] + old(self)@,
    {
        let ghost s = self@;
        self.events.insert(0, event);
        proof {
            assert(self@ =~= seq![event@] + s);
        }
    }
}

} // verus!
