use vstd::prelude::*;

use crate::event_list::{lemma_insert_index, EventList, EventView, Metadata};
use crate::routines::ARRIVAL_EVENT;

verus! {

/// Name of the event that marks the end of a seed list; no routine handles it.
pub const CLOSING_EVENT: &'static str = "Encerramento";

/// An arrival event of a seed list.
pub open spec fn arrival(time: int, id: i32, memory_size: i32, cpu_time: i32) -> EventView {
    EventView {
        time,
        name: ARRIVAL_EVENT@,
        metadata: Metadata::JobArrival(id, memory_size, cpu_time),
    }
}

/// The closing event of a seed list.
pub open spec fn closing() -> EventView {
    EventView { time: 999, name: CLOSING_EVENT@, metadata: Metadata::JobArrival(0, 0, 0) }
}

/// The seed list of `test_case`; an empty list for an unknown case.
pub fn populate_list(test_case: i32) -> (r: EventList)
    ensures
        test_case == 1 ==> r@ == seed_one(),
        test_case == 2 ==> r@ == seed_two(),
        test_case != 1 && test_case != 2 ==> r@ == Seq::<EventView>::empty(),
{
    match test_case {
        1 => test_1(),
        2 => test_2(),
        _ => EventList::new(),
    }
}

pub open spec fn seed_one() -> Seq<EventView> {
    seq![
        arrival(20, 1, 30, 60),
        arrival(20, 2, 100, 120),
        arrival(220, 3, 80, 80),
        arrival(240, 4, 40, 40),
        closing(),
    ]
}

pub open spec fn seed_two() -> Seq<EventView> {
    seq![
        arrival(10, 1, 40, 25),
        arrival(20, 2, 60, 12),
        arrival(30, 3, 30, 10),
        arrival(40, 4, 50, 15),
        arrival(50, 5, 80, 20),
        closing(),
    ]
}

/// Four jobs: two arriving together at 20, then one at 220 and one at 240.
pub fn test_1() -> (r: EventList)
    ensures
        r@ == seed_one(),
{
    let mut event_list = EventList::new();
    event_list.push(999, CLOSING_EVENT.to_owned(), Metadata::JobArrival(0, 0, 0));
    let ghost s1 = event_list@;
    event_list.push(240, ARRIVAL_EVENT.to_owned(), Metadata::JobArrival(4, 40, 40));
    proof {
        lemma_insert_index(s1, 240, 0);
    }
    let ghost s2 = event_list@;
    event_list.push(220, ARRIVAL_EVENT.to_owned(), Metadata::JobArrival(3, 80, 80));
    proof {
        lemma_insert_index(s2, 220, 0);
    }
    let ghost s3 = event_list@;
    event_list.push(20, ARRIVAL_EVENT.to_owned(), Metadata::JobArrival(1, 30, 60));
    proof {
        lemma_insert_index(s3, 20, 0);
    }
    let ghost s4 = event_list@;
    event_list.push(20, ARRIVAL_EVENT.to_owned(), Metadata::JobArrival(2, 100, 120));
    proof {
        lemma_insert_index(s4, 20, 1);
        assert(event_list@ =~= seed_one());
    }
    event_list
}

/// Five jobs arriving ten time units apart, pushed latest first.
pub fn test_2() -> (r: EventList)
    ensures
        r@ == seed_two(),
{
    let mut event_list = EventList::new();
    event_list.push(999, CLOSING_EVENT.to_owned(), Metadata::JobArrival(0, 0, 0));
    let ghost s1 = event_list@;
    event_list.push(50, ARRIVAL_EVENT.to_owned(), Metadata::JobArrival(5, 80, 20));
    proof {
        lemma_insert_index(s1, 50, 0);
    }
    let ghost s2 = event_list@;
    event_list.push(40, ARRIVAL_EVENT.to_owned(), Metadata::JobArrival(4, 50, 15));
    proof {
        lemma_insert_index(s2, 40, 0);
    }
    let ghost s3 = event_list@;
    event_list.push(30, ARRIVAL_EVENT.to_owned(), Metadata::JobArrival(3, 30, 10));
    proof {
        lemma_insert_index(s3, 30, 0);
    }
    let ghost s4 = event_list@;
    event_list.push(20, ARRIVAL_EVENT.to_owned(), Metadata::JobArrival(2, 60, 12));
    proof {
        lemma_insert_index(s4, 20, 0);
    }
    let ghost s5 = event_list@;
    event_list.push(10, ARRIVAL_EVENT.to_owned(), Metadata::JobArrival(1, 40, 25));
    proof {
        lemma_insert_index(s5, 10, 0);
        assert(event_list@ =~= seed_two());
    }
    event_list
}

} // verus!
