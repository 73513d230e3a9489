use pcs3446::event_list::{EventList, Metadata};
use pcs3446::event_loop::{process_next_event, LoopStep};
use pcs3446::routines::{
    create_event_to_routine, create_routine, select_routine, ExitSystem, JobArrival, PauseJob,
    RequestCPU, RequestMemory, Routine, RoutineKind, Runnable,
};
use pcs3446::system_abstractions::{
    CPUAllocQueue, ControlModule, ExecQueue, Job, JobTable, Memory, MemoryAllocQueue, SharedState,
    SystemEntryQueue,
};

fn control(total: i32, events: EventList) -> ControlModule {
    ControlModule::new(SharedState::new(
        events,
        SystemEntryQueue::new(),
        MemoryAllocQueue::new(),
        CPUAllocQueue::new(),
        ExecQueue::new(),
        Memory::new(total),
        0,
        JobTable::new(),
    ))
}

fn arrivals(jobs: &[(i32, i32, i32, i32)]) -> EventList {
    let mut list = EventList::new();
    for &(time, id, mem, cpu) in jobs {
        list.push(time, String::from("Chegada de job"), Metadata::JobArrival(id, mem, cpu));
    }
    list
}

type Trace = Vec<(i32, String, Metadata)>;

/// Dispatches every due event at `timestep`; returns the time of the next
/// event, if any is left.
fn advance(cm: &mut ControlModule, timestep: i32, trace: &mut Trace) -> Option<i32> {
    let table = create_event_to_routine();
    loop {
        let head = cm.shared_state.get_event_list().iter().next().map(|e| (e.name.clone(), e.metadata));
        match process_next_event(&table, timestep, cm) {
            LoopStep::Drained => return None,
            LoopStep::Deferred(t) => return Some(t),
            LoopStep::Dispatched(_) => {
                let (name, meta) = head.unwrap();
                trace.push((timestep, name, meta));
            }
        }
    }
}

/// Runs the simulation from the current timestep through `until`.
fn run_until(cm: &mut ControlModule, until: i32, trace: &mut Trace) {
    let mut now = cm.get_current_timestep();
    loop {
        cm.update_current_timestep(now);
        match advance(cm, now, trace) {
            Some(t) if t <= until => now = t,
            _ => return,
        }
    }
}

fn names(trace: &Trace) -> Vec<(i32, &str)> {
    trace.iter().map(|(t, n, _)| (*t, n.as_str())).collect()
}

#[test]
fn single_short_job_runs_end_to_end() {
    let mut cm = control(128, arrivals(&[(0, 1, 30, 5)]));
    let mut trace = Trace::new();
    run_until(&mut cm, 1000, &mut trace);
    assert_eq!(
        names(&trace),
        vec![
            (0, "Chegada de job"),
            (0, "Ingresso de job"),
            (0, "Requisicao de memoria de job"),
            (0, "Requisicao de processador de job"),
            (5, "Fim de processamento de job"),
            (5, "Liberacao de processador job"),
            (5, "Liberacao de memoria job"),
            (5, "Saida do sistema job"),
        ]
    );
    let job = Job { id: 1, state: 4, memory_size: 30, cpu_time: 5 };
    assert_eq!(trace[4].2, Metadata::EndProcess(job));
    assert_eq!(trace[7].2, Metadata::ExitSystem(Job { state: 6, ..job }));
    assert_eq!(cm.available_memory(), 128);
    assert!(cm.seq_is_empty());
    assert!(cm.maq_is_empty());
    assert!(!cm.job_exists_in_table(1));
    assert_eq!(cm.shared_state.get_event_list().iter().count(), 0);
}

#[test]
fn memory_is_held_while_the_job_runs() {
    let mut cm = control(128, arrivals(&[(0, 1, 30, 5)]));
    let mut trace = Trace::new();
    run_until(&mut cm, 4, &mut trace);
    assert_eq!(cm.available_memory(), 98);
    assert_eq!(cm.get_time_remaining(1), 5);
    run_until(&mut cm, 5, &mut trace);
    assert_eq!(cm.available_memory(), 128);
}

#[test]
fn short_job_ends_at_arrival_plus_cpu_time_without_pause() {
    let mut cm = control(128, arrivals(&[(3, 1, 10, 7)]));
    let mut trace = Trace::new();
    run_until(&mut cm, 1000, &mut trace);
    assert!(trace.iter().all(|(_, n, _)| n != "Pause job"));
    let end: Vec<i32> =
        trace.iter().filter(|(_, n, _)| n == "Fim de processamento de job").map(|(t, _, _)| *t).collect();
    assert_eq!(end, vec![10]);
}

#[test]
fn job_of_twenty_five_units_pauses_twice_then_ends() {
    let mut cm = control(128, arrivals(&[(0, 1, 10, 25)]));
    let mut trace = Trace::new();
    run_until(&mut cm, 1000, &mut trace);
    let cpu: Vec<(i32, &str)> = names(&trace)
        .into_iter()
        .filter(|(_, n)| *n == "Pause job" || *n == "Fim de processamento de job")
        .collect();
    assert_eq!(cpu, vec![(10, "Pause job"), (20, "Pause job"), (25, "Fim de processamento de job")]);
}

#[test]
fn quantum_is_charged_per_pause() {
    let mut cm = control(128, arrivals(&[(0, 1, 10, 25)]));
    let mut trace = Trace::new();
    run_until(&mut cm, 0, &mut trace);
    assert_eq!(cm.get_time_remaining(1), 25);
    run_until(&mut cm, 10, &mut trace);
    assert_eq!(cm.get_time_remaining(1), 15);
    run_until(&mut cm, 20, &mut trace);
    assert_eq!(cm.get_time_remaining(1), 5);
    run_until(&mut cm, 25, &mut trace);
    assert_eq!(cm.get_time_remaining(1), -1);
}

#[test]
fn third_job_waits_to_enter_until_one_of_two_admitted_jobs_exits() {
    let mut cm = control(128, arrivals(&[(0, 1, 30, 30), (5, 2, 30, 30), (12, 3, 30, 30)]));
    let mut trace = Trace::new();
    run_until(&mut cm, 15, &mut trace);
    assert!(cm.job_exists_in_table(1));
    assert!(cm.job_exists_in_table(2));
    assert!(cm.table_is_full(2));
    let waiting: Vec<i32> =
        cm.shared_state.get_system_entry_queue().jobs().iter().map(|j| j.id).collect();
    assert_eq!(waiting, vec![3]);
    run_until(&mut cm, 39, &mut trace);
    assert_eq!(cm.shared_state.get_system_entry_queue().jobs().len(), 1);
    assert!(!cm.job_exists_in_table(3));
    run_until(&mut cm, 40, &mut trace);
    assert!(!cm.job_exists_in_table(2));
    assert!(cm.job_exists_in_table(3));
    assert!(cm.seq_is_empty());
    assert_eq!(cm.available_memory(), 128 - 60);
}

#[test]
fn unknown_event_name_selects_default_routine() {
    let table = create_event_to_routine();
    assert_eq!(table.len(), 9);
    assert_eq!(select_routine(&table, "Encerramento"), RoutineKind::DefaultRoutine);
    assert_eq!(select_routine(&table, "Pause job"), RoutineKind::PauseJob);
    assert_eq!(select_routine(&table, "Chegada de job"), RoutineKind::JobArrival);
    assert_eq!(select_routine(&table, "Saida do sistema job"), RoutineKind::ExitSystem);
    assert_eq!(select_routine(&Vec::new(), "Pause job"), RoutineKind::DefaultRoutine);
}

#[test]
fn closing_event_of_a_seed_is_a_no_op() {
    let mut list = EventList::new();
    list.push(0, String::from("Encerramento"), Metadata::JobArrival(0, 0, 0));
    let mut cm = control(128, list);
    let table = create_event_to_routine();
    assert_eq!(process_next_event(&table, 0, &mut cm), LoopStep::Dispatched(RoutineKind::DefaultRoutine));
    assert!(cm.seq_is_empty());
    assert!(cm.eq_is_empty());
    assert_eq!(process_next_event(&table, 0, &mut cm), LoopStep::Drained);
}

#[test]
fn later_event_is_deferred_and_kept_at_head() {
    let mut cm = control(128, arrivals(&[(20, 1, 30, 5)]));
    let table = create_event_to_routine();
    assert_eq!(process_next_event(&table, 10, &mut cm), LoopStep::Deferred(20));
    assert_eq!(process_next_event(&table, 10, &mut cm), LoopStep::Deferred(20));
    assert_eq!(cm.shared_state.get_event_list().iter().count(), 1);
    assert_eq!(process_next_event(&table, 20, &mut cm), LoopStep::Dispatched(RoutineKind::JobArrival));
}

#[test]
fn arrival_waits_to_enter_while_a_job_runs() {
    let mut cm = control(128, EventList::new());
    let running = Job { id: 9, state: 4, memory_size: 1, cpu_time: 1 };
    cm.add_EQ(running);
    JobArrival { metadata: Metadata::JobArrival(2, 20, 30) }.run(&mut cm);
    let waiting = cm.remove_SEQ().unwrap();
    assert_eq!(waiting, Job { id: 2, state: 1, memory_size: 20, cpu_time: 30 });
    assert_eq!(cm.shared_state.get_event_list().iter().count(), 0);
}

#[test]
fn arrival_with_foreign_payload_makes_an_empty_job() {
    let mut cm = control(128, EventList::new());
    let routine = create_routine(RoutineKind::JobArrival, &Metadata::DefaultRoutine);
    routine.run(&mut cm);
    let e = cm.pop_event().unwrap();
    assert_eq!(e.name, "Ingresso de job");
    assert_eq!(e.metadata, Metadata::JobEntrance(Job { id: 0, state: 1, memory_size: 0, cpu_time: 0 }));
}

#[test]
fn failed_memory_request_waits_and_dispatches_top_cpu_waiter() {
    let mut cm = control(50, EventList::new());
    let ready = Job { id: 1, state: 3, memory_size: 10, cpu_time: 5 };
    cm.add_CAQ(ready);
    let big = Job { id: 2, state: 2, memory_size: 60, cpu_time: 5 };
    RequestMemory { metadata: Metadata::RequestMemory(big) }.run(&mut cm);
    assert!(cm.caq_is_empty());
    assert_eq!(cm.remove_MAQ(), Some(big));
    let e = cm.pop_event().unwrap();
    assert_eq!((e.time, e.name.as_str()), (0, "Requisicao de processador de job"));
    assert_eq!(e.metadata, Metadata::RequestCPU(ready));
    assert_eq!(cm.available_memory(), 50);
}

#[test]
fn failed_memory_request_with_no_cpu_waiter_only_waits() {
    let mut cm = control(50, EventList::new());
    let big = Job { id: 2, state: 2, memory_size: 60, cpu_time: 5 };
    RequestMemory { metadata: Metadata::RequestMemory(big) }.run(&mut cm);
    assert_eq!(cm.remove_MAQ(), Some(big));
    assert!(cm.pop_event().is_none());
}

#[test]
fn successful_memory_request_queues_for_cpu() {
    let mut cm = control(50, EventList::new());
    let job = Job { id: 4, state: 2, memory_size: 20, cpu_time: 5 };
    RequestMemory { metadata: Metadata::RequestMemory(job) }.run(&mut cm);
    let ready = Job { state: 3, ..job };
    assert_eq!(cm.shared_state.get_cpu_alloc_queue().jobs(), &vec![ready]);
    assert_eq!(cm.pop_event().unwrap().metadata, Metadata::RequestCPU(ready));
    assert_eq!(cm.available_memory(), 30);
}

#[test]
fn resumed_job_gets_remaining_time_from_table() {
    let mut cm = control(50, EventList::new());
    cm.update_current_timestep(100);
    let job = Job { id: 4, state: 3, memory_size: 20, cpu_time: 40 };
    cm.add_to_job_table(4, 8);
    RequestCPU { metadata: Metadata::RequestCPU(job) }.run(&mut cm);
    let e = cm.pop_event().unwrap();
    assert_eq!((e.time, e.name.as_str()), (108, "Fim de processamento de job"));
    assert_eq!(e.metadata, Metadata::EndProcess(Job { state: 4, ..job }));
    assert_eq!(cm.remove_EQ(), Some(Job { state: 4, ..job }));
}

#[test]
fn event_times_saturate_at_the_largest_time() {
    let mut cm = control(50, EventList::new());
    cm.update_current_timestep(i32::MAX - 3);
    let job = Job { id: 4, state: 3, memory_size: 20, cpu_time: 40 };
    RequestCPU { metadata: Metadata::RequestCPU(job) }.run(&mut cm);
    assert_eq!(cm.pop_event().unwrap().time, i32::MAX);
}

#[test]
fn pause_with_full_table_continues_round_robin() {
    let mut cm = control(50, EventList::new());
    let a = Job { id: 1, state: 4, memory_size: 1, cpu_time: 30 };
    let b = Job { id: 2, state: 4, memory_size: 1, cpu_time: 30 };
    let c = Job { id: 3, state: 1, memory_size: 1, cpu_time: 30 };
    cm.add_to_job_table(1, 30);
    cm.add_to_job_table(2, 30);
    cm.add_SEQ(c);
    cm.add_CAQ(b);
    cm.add_EQ(a);
    PauseJob { metadata: Metadata::PauseJob(a) }.run(&mut cm);
    assert_eq!(cm.get_time_remaining(1), 20);
    assert_eq!(cm.pop_event().unwrap().metadata, Metadata::RequestCPU(a));
    assert_eq!(cm.shared_state.get_cpu_alloc_queue().jobs(), &vec![b]);
    assert!(cm.eq_is_empty());
    assert!(!cm.seq_is_empty());
}

#[test]
fn pause_with_room_admits_a_waiting_job() {
    let mut cm = control(50, EventList::new());
    let a = Job { id: 1, state: 4, memory_size: 1, cpu_time: 30 };
    let c = Job { id: 3, state: 1, memory_size: 1, cpu_time: 30 };
    cm.add_to_job_table(1, 30);
    cm.add_SEQ(c);
    cm.add_EQ(a);
    PauseJob { metadata: Metadata::PauseJob(a) }.run(&mut cm);
    let e = cm.pop_event().unwrap();
    assert_eq!(e.name, "Requisicao de memoria de job");
    assert_eq!(e.metadata, Metadata::RequestMemory(Job { state: 2, ..c }));
    assert_eq!(cm.shared_state.get_cpu_alloc_queue().jobs(), &vec![a]);
    assert!(cm.seq_is_empty());
}

#[test]
fn exit_prefers_jobs_waiting_for_memory() {
    let mut cm = control(50, EventList::new());
    let m = Job { id: 5, state: 2, memory_size: 10, cpu_time: 5 };
    let s = Job { id: 6, state: 1, memory_size: 10, cpu_time: 5 };
    cm.add_MAQ(m);
    cm.add_SEQ(s);
    let exit = Routine::ExitSystem(ExitSystem { metadata: Metadata::DefaultRoutine });
    exit.run(&mut cm);
    assert_eq!(cm.pop_event().unwrap().metadata, Metadata::RequestMemory(m));
    exit.run(&mut cm);
    assert_eq!(cm.pop_event().unwrap().metadata, Metadata::RequestMemory(Job { state: 2, ..s }));
    exit.run(&mut cm);
    assert!(cm.pop_event().is_none());
}

#[test]
fn handler_ignores_payload_of_another_kind() {
    let mut cm = control(50, EventList::new());
    let job = Job { id: 1, state: 4, memory_size: 1, cpu_time: 30 };
    cm.add_EQ(job);
    let r = create_routine(RoutineKind::EndProcess, &Metadata::FreeCPU(job));
    r.run(&mut cm);
    assert!(!cm.eq_is_empty());
    assert!(cm.pop_event().is_none());
}
