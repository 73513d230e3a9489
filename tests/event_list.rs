use pcs3446::event_list::{Event, EventList, Metadata};
use pcs3446::populate_list::{populate_list, test_1, test_2};
use pcs3446::system_abstractions::Job;

#[test]
fn test_push_empty_list() {
    let mut event_list: EventList = EventList::new();
    event_list.push(999, String::from("Encerramento"), Metadata::JobArrival(1, 0, 0));
    assert_eq!(event_list.iter().count(), 1);
}

#[test]
fn test_push_multiple_events() {
    let mut event_list: EventList = EventList::new();
    event_list.push(999, String::from("Encerramento"), Metadata::JobArrival(1, 0, 0));
    event_list.push(0, String::from("Partida"), Metadata::JobArrival(1, 0, 0));
    assert_eq!(event_list.iter().count(), 2);
}

#[test]
fn test_iter_empty_list() {
    let event_list: EventList = EventList::new();
    let events: Vec<_> = event_list.iter().collect();
    assert_eq!(events.len(), 0);
}

#[test]
fn test_iter_multiple_events() {
    let mut event_list: EventList = EventList::new();
    event_list.push(999, String::from("Encerramento"), Metadata::JobArrival(1, 0, 0));
    event_list.push(0, String::from("Partida"), Metadata::JobArrival(1, 0, 0));
    let events: Vec<_> = event_list.iter().collect();
    assert_eq!(events.len(), 2);
    assert_eq!(events[0].name, "Partida");
    assert_eq!(events[1].name, "Encerramento");
}

#[test]
fn test_pop_empty_list() {
    let mut event_list: EventList = EventList::new();
    let popped_event = event_list.pop();
    assert!(popped_event.is_none());
}

#[test]
fn test_pop_multiple_events() {
    let mut event_list: EventList = EventList::new();
    event_list.push(999, String::from("Encerramento"), Metadata::JobArrival(1, 0, 0));
    event_list.push(0, String::from("Partida"), Metadata::JobArrival(1, 0, 0));
    let popped_event1 = event_list.pop();
    let popped_event2 = event_list.pop();
    assert_eq!(popped_event1.unwrap().name, "Partida");
    assert_eq!(popped_event2.unwrap().name, "Encerramento");
}

fn times(list: &EventList) -> Vec<i32> {
    list.iter().map(|e| e.time).collect()
}

#[test]
fn equal_times_keep_insertion_order() {
    let mut list = EventList::new();
    list.push(5, String::from("a"), Metadata::DefaultRoutine);
    list.push(5, String::from("b"), Metadata::DefaultRoutine);
    list.push(3, String::from("c"), Metadata::DefaultRoutine);
    list.push(5, String::from("d"), Metadata::DefaultRoutine);
    let names: Vec<&str> = list.iter().map(|e| e.name.as_str()).collect();
    assert_eq!(names, vec!["c", "a", "b", "d"]);
}

#[test]
fn pops_come_out_in_non_decreasing_time() {
    let mut list = EventList::new();
    for t in [40, 7, 99, 7, 0, 13, 40, -2, 55] {
        list.push(t, format!("e{}", t), Metadata::DefaultRoutine);
    }
    let mut last = i32::MIN;
    let mut count = 0;
    while let Some(e) = list.pop() {
        assert!(e.time >= last);
        last = e.time;
        count += 1;
    }
    assert_eq!(count, 9);
}

#[test]
fn push_back_puts_event_at_head_whatever_its_time() {
    let mut list = EventList::new();
    list.push(10, String::from("x"), Metadata::DefaultRoutine);
    list.push(20, String::from("y"), Metadata::DefaultRoutine);
    let late = Event { time: 50, name: String::from("late"), metadata: Metadata::DefaultRoutine };
    list.push_back(late);
    assert_eq!(times(&list), vec![50, 10, 20]);
    let head = list.pop().unwrap();
    assert_eq!(head.name, "late");
    assert_eq!(head.time, 50);
}

#[test]
fn push_into_unsorted_list_goes_before_first_later_event() {
    let mut list = EventList::new();
    list.push(10, String::from("x"), Metadata::DefaultRoutine);
    list.push_back(Event { time: 50, name: String::from("late"), metadata: Metadata::DefaultRoutine });
    list.push(0, String::from("zero"), Metadata::DefaultRoutine);
    assert_eq!(times(&list), vec![0, 50, 10]);
}

#[test]
fn pop_returns_payload() {
    let job = Job { id: 3, state: 2, memory_size: 10, cpu_time: 4 };
    let mut list = EventList::new();
    list.push(1, String::from("m"), Metadata::RequestMemory(job));
    let e = list.pop().unwrap();
    assert_eq!(e.metadata, Metadata::RequestMemory(job));
    assert!(list.pop().is_none());
}

#[test]
fn seed_one_is_sorted_with_simultaneous_arrivals_in_push_order() {
    let list = test_1();
    assert_eq!(times(&list), vec![20, 20, 220, 240, 999]);
    let meta: Vec<Metadata> = list.iter().map(|e| e.metadata).collect();
    assert_eq!(meta[0], Metadata::JobArrival(1, 30, 60));
    assert_eq!(meta[1], Metadata::JobArrival(2, 100, 120));
    assert_eq!(list.iter().last().unwrap().name, "Encerramento");
}

#[test]
fn seed_two_is_sorted() {
    let list = test_2();
    assert_eq!(times(&list), vec![10, 20, 30, 40, 50, 999]);
    assert_eq!(list.iter().next().unwrap().metadata, Metadata::JobArrival(1, 40, 25));
    assert_eq!(list.iter().next().unwrap().name, "Chegada de job");
}

#[test]
fn populate_list_picks_seed_by_case() {
    assert_eq!(times(&populate_list(1)), vec![20, 20, 220, 240, 999]);
    assert_eq!(times(&populate_list(2)), vec![10, 20, 30, 40, 50, 999]);
    assert_eq!(populate_list(3).iter().count(), 0);
}
