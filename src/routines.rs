use vstd::prelude::*;

use crate::event_list::{pushed, EventView, Metadata};
use crate::system_abstractions::{
    clamp_i32, paused, saturating_add_i32, ControlModule, ControlView, Job, ARRIVED, CPU_FREED,
    ENTERED, MEMORY_FREED, MEMORY_READY, RUNNING,
};

verus! {

/// Event names, as the seed lists and the handlers write them.
pub const ARRIVAL_EVENT: &'static str = "Chegada de job";
pub const ENTRANCE_EVENT: &'static str = "Ingresso de job";
pub const MEMORY_REQUEST_EVENT: &'static str = "Requisicao de memoria de job";
pub const CPU_REQUEST_EVENT: &'static str = "Requisicao de processador de job";
pub const END_PROCESS_EVENT: &'static str = "Fim de processamento de job";
pub const FREE_CPU_EVENT: &'static str = "Liberacao de processador job";
pub const FREE_MEMORY_EVENT: &'static str = "Liberacao de memoria job";
pub const EXIT_EVENT: &'static str = "Saida do sistema job";
pub const PAUSE_EVENT: &'static str = "Pause job";

/// CPU time granted per scheduling turn.
pub const TIME_SLICE: i32 = 10;

/// How many jobs may hold scheduling-table entries at once.
pub const MAX_JOBS: usize = 2;

/// The state with the top job of the system-entry queue taken off, if any.
pub open spec fn without_top_entry(v: ControlView) -> ControlView {
    if v.entry.len() > 0 {
        ControlView { entry: v.entry.drop_last(), ..v }
    } else {
        v
    }
}

/// The state with the top job of the execution queue taken off, if any.
pub open spec fn without_top_running(v: ControlView) -> ControlView {
    if v.running.len() > 0 {
        ControlView { running: v.running.drop_last(), ..v }
    } else {
        v
    }
}

/// The state with the top job of the execution queue moved onto the
/// CPU-wait queue, if there is one.
pub open spec fn preempt_top(v: ControlView) -> ControlView {
    if v.running.len() > 0 {
        ControlView {
            running: v.running.drop_last(),
            cpu_wait: v.cpu_wait.push(v.running.last()),
            ..v
        }
    } else {
        v
    }
}

/// The state after the top job of the CPU-wait queue, if any, is sent a
/// processor request.
pub open spec fn dispatch_top_cpu_wait(v: ControlView) -> ControlView {
    if v.cpu_wait.len() > 0 {
        ControlView { cpu_wait: v.cpu_wait.drop_last(), ..v }.enqueue(
            0,
            CPU_REQUEST_EVENT@,
            Metadata::RequestCPU(v.cpu_wait.last()),
        )
    } else {
        v
    }
}

pub open spec fn with_state(job: Job, state: i32) -> Job {
    Job { state, ..job }
}

/// The job that an arrival payload describes.
pub open spec fn arrival_job(m: Metadata) -> Job {
    match m {
        Metadata::JobArrival(id, memory_size, cpu_time) => Job {
            id,
            state: ARRIVED,
            memory_size,
            cpu_time,
        },
        _ => Job { id: 0, state: ARRIVED, memory_size: 0, cpu_time: 0 },
    }
}

/// A new job enters at once when nothing runs, else waits to enter.
pub open spec fn job_arrival_step(v: ControlView, m: Metadata) -> ControlView {
    let job = arrival_job(m);
    if v.running.len() == 0 {
        v.enqueue(0, ENTRANCE_EVENT@, Metadata::JobEntrance(job))
    } else {
        ControlView { entry: v.entry.push(job), ..v }
    }
}

/// A job enters the system and asks for memory.
pub open spec fn job_entrance_step(v: ControlView, m: Metadata) -> ControlView {
    match m {
        Metadata::JobEntrance(job) => without_top_entry(v).enqueue(
            0,
            MEMORY_REQUEST_EVENT@,
            Metadata::RequestMemory(with_state(job, ENTERED)),
        ),
        _ => v,
    }
}

/// A job asks for memory: on success it waits for the processor and asks
/// for it; on failure it waits for memory and the top job waiting for the
/// processor is dispatched instead.
pub open spec fn request_memory_step(v: ControlView, m: Metadata) -> ControlView {
    match m {
        Metadata::RequestMemory(job) => {
            if v.memory.placement(job.memory_size as int) is Some {
                let ready = with_state(job, MEMORY_READY);
                ControlView {
                    memory: v.memory.after_alloc(job, job.memory_size),
                    cpu_wait: v.cpu_wait.push(ready),
                    ..v
                }.enqueue(0, CPU_REQUEST_EVENT@, Metadata::RequestCPU(ready))
            } else {
                dispatch_top_cpu_wait(ControlView { memory_wait: v.memory_wait.push(job), ..v })
            }
        },
        _ => v,
    }
}

/// A job gets the processor: for one time slice when more than that is
/// left, else until it completes.
pub open spec fn request_cpu_step(v: ControlView, m: Metadata) -> ControlView {
    match m {
        Metadata::RequestCPU(job) => {
            let running = with_state(job, RUNNING);
            let first = !v.table.contains_key(job.id);
            let left = if first {
                job.cpu_time
            } else {
                v.table[job.id]
            };
            let v1 = ControlView {
                table: if first {
                    v.table.insert(job.id, job.cpu_time)
                } else {
                    v.table
                },
                running: v.running.push(running),
                ..v
            };
            if left > TIME_SLICE {
                v1.enqueue(
                    clamp_i32(v.now + TIME_SLICE),
                    PAUSE_EVENT@,
                    Metadata::PauseJob(running),
                )
            } else {
                v1.enqueue(clamp_i32(v.now + left), END_PROCESS_EVENT@, Metadata::EndProcess(running))
            }
        },
        _ => v,
    }
}

/// A time slice ends: the quantum is charged; while the table has room and
/// a job waits to enter, that job is admitted, else the round robin goes on
/// among the admitted jobs.
pub open spec fn pause_job_step(v: ControlView, m: Metadata) -> ControlView {
    match m {
        Metadata::PauseJob(job) => {
            let v1 = ControlView { table: paused(v.table, job.id, TIME_SLICE), ..v };
            if v1.table.len() < MAX_JOBS && v1.entry.len() > 0 {
                let v2 = preempt_top(v1);
                ControlView { entry: v2.entry.drop_last(), ..v2 }.enqueue(
                    0,
                    MEMORY_REQUEST_EVENT@,
                    Metadata::RequestMemory(with_state(v2.entry.last(), ENTERED)),
                )
            } else {
                dispatch_top_cpu_wait(preempt_top(v1))
            }
        },
        _ => v,
    }
}

/// A job completes: it leaves the table and the execution queue and frees
/// the processor.
pub open spec fn end_process_step(v: ControlView, m: Metadata) -> ControlView {
    match m {
        Metadata::EndProcess(job) => without_top_running(
            ControlView { table: v.table.remove(job.id), ..v },
        ).enqueue(0, FREE_CPU_EVENT@, Metadata::FreeCPU(job)),
        _ => v,
    }
}

/// The processor is released; memory is released next.
pub open spec fn free_cpu_step(v: ControlView, m: Metadata) -> ControlView {
    match m {
        Metadata::FreeCPU(job) => without_top_running(v).enqueue(
            0,
            FREE_MEMORY_EVENT@,
            Metadata::FreeMemory(with_state(job, CPU_FREED)),
        ),
        _ => v,
    }
}

/// The memory of a job is released; the job leaves next.
pub open spec fn free_memory_step(v: ControlView, m: Metadata) -> ControlView {
    match m {
        Metadata::FreeMemory(job) => ControlView {
            memory: v.memory.after_dealloc(job.id),
            ..v
        }.enqueue(0, EXIT_EVENT@, Metadata::ExitSystem(with_state(job, MEMORY_FREED))),
        _ => v,
    }
}

/// A job has left: a job waiting for memory retries, else a job waiting to
/// enter is admitted, else nothing happens.
pub open spec fn exit_system_step(v: ControlView) -> ControlView {
    if v.memory_wait.len() > 0 {
        ControlView { memory_wait: v.memory_wait.drop_last(), ..v }.enqueue(
            0,
            MEMORY_REQUEST_EVENT@,
            Metadata::RequestMemory(v.memory_wait.last()),
        )
    } else if v.entry.len() > 0 {
        ControlView { entry: v.entry.drop_last(), ..v }.enqueue(
            0,
            MEMORY_REQUEST_EVENT@,
            Metadata::RequestMemory(with_state(v.entry.last(), ENTERED)),
        )
    } else {
        v
    }
}

/// A job on its first dispatch whose whole demand fits in one time slice
/// runs to completion: the only event it gets is an end of processing at the
/// current time plus its CPU time, never a pause.
pub proof fn lemma_short_job_ends_without_pause(v: ControlView, job: Job)
    requires
        !v.table.contains_key(job.id),
        job.cpu_time <= TIME_SLICE,
        i32::MIN <= v.now + job.cpu_time <= i32::MAX,
    ensures
        request_cpu_step(v, Metadata::RequestCPU(job)) == (ControlView {
            events: pushed(
                v.events,
                EventView {
                    time: v.now + job.cpu_time,
                    name: END_PROCESS_EVENT@,
                    metadata: Metadata::EndProcess(with_state(job, RUNNING)),
                },
            ),
            table: v.table.insert(job.id, job.cpu_time),
            running: v.running.push(with_state(job, RUNNING)),
            ..v
        }),
{
}

/// A job needing 25 units of CPU runs in three turns of 10, 10 and 5: its
/// first dispatch registers 25 and schedules a pause one time slice later;
/// each pause takes 10 off (25 to 15, 15 to 5); with 15 left the next turn
/// ends in a pause again; with 5 left it ends in an end of processing 5
/// units after the dispatch.
pub proof fn lemma_quantum_cycles(v: ControlView, job: Job)
    ensures
        !v.table.contains_key(job.id) && job.cpu_time == 25 ==> ({
            let w = request_cpu_step(v, Metadata::RequestCPU(job));
            &&& w.table[job.id] == 25
            &&& w.events == pushed(
                v.events,
                EventView {
                    time: clamp_i32(v.now + TIME_SLICE) as int,
                    name: PAUSE_EVENT@,
                    metadata: Metadata::PauseJob(with_state(job, RUNNING)),
                },
            )
        }),
        v.table.contains_key(job.id) && v.table[job.id] == 25 ==> pause_job_step(
            v,
            Metadata::PauseJob(job),
        ).table[job.id] == 15,
        v.table.contains_key(job.id) && v.table[job.id] == 15 ==> pause_job_step(
            v,
            Metadata::PauseJob(job),
        ).table[job.id] == 5,
        v.table.contains_key(job.id) && v.table[job.id] == 15 ==> request_cpu_step(
            v,
            Metadata::RequestCPU(job),
        ).events == pushed(
            v.events,
            EventView {
                time: clamp_i32(v.now + TIME_SLICE) as int,
                name: PAUSE_EVENT@,
                metadata: Metadata::PauseJob(with_state(job, RUNNING)),
            },
        ),
        v.table.contains_key(job.id) && v.table[job.id] == 5 ==> request_cpu_step(
            v,
            Metadata::RequestCPU(job),
        ).events == pushed(
            v.events,
            EventView {
                time: clamp_i32(v.now + 5) as int,
                name: END_PROCESS_EVENT@,
                metadata: Metadata::EndProcess(with_state(job, RUNNING)),
            },
        ),
{
}

/// One state transition, run on the simulation state.
pub trait Runnable {
    /// The state after the transition, from the state before it.
    spec fn step(&self, before: ControlView) -> ControlView;

    fn run(&self, control_module: &mut ControlModule)
        requires
            old(control_module)@.wf(),
        ensures
            final(control_module)@.wf(),
            final(control_module)@ == self.step(old(control_module)@),
    ;
}

/// The handler of an event whose name has no routine: it does nothing.
pub struct DefaultRoutine;

impl Runnable for DefaultRoutine {
    open spec fn step(&self, before: ControlView) -> ControlView {
        before
    }

    fn run(&self, control_module: &mut ControlModule) {
    }
}

pub struct JobArrival {
    pub metadata: Metadata,
}

impl JobArrival {
    /// The id, memory size and CPU time of the arriving job; zeros for a
    /// payload of another kind.
    pub fn unwrap_metadata(&self) -> (r: (i32, i32, i32))
        ensures
            r == (arrival_job(self.metadata).id, arrival_job(self.metadata).memory_size, arrival_job(
                self.metadata,
            ).cpu_time),
    {
        match &self.metadata {
            Metadata::JobArrival(num, mem, cpu) => (*num, *mem, *cpu),
            _ => (0, 0, 0),
        }
    }
}

impl Runnable for JobArrival {
    open spec fn step(&self, before: ControlView) -> ControlView {
        job_arrival_step(before, self.metadata)
    }

    fn run(&self, control_module: &mut ControlModule) {
        let (job_number, job_memory_size, job_cpu_time) = self.unwrap_metadata();
        let new_job = Job {
            id: job_number,
            state: ARRIVED,
            memory_size: job_memory_size,
            cpu_time: job_cpu_time,
        };
        if control_module.eq_is_empty() {
            control_module.add_event(0, ENTRANCE_EVENT.to_owned(), Metadata::JobEntrance(new_job));
        } else {
            control_module.add_SEQ(new_job);
        }
    }
}

pub struct JobEntrance {
    pub metadata: Metadata,
}

impl JobEntrance {
    pub fn unwrap_metadata(&self) -> (r: Option<Job>)
        ensures
            r == match self.metadata {
                Metadata::JobEntrance(job) => Some(job),
                _ => None,
            },
    {
        match &self.metadata {
            Metadata::JobEntrance(job) => Some(*job),
            _ => None,
        }
    }
}

impl Runnable for JobEntrance {
    open spec fn step(&self, before: ControlView) -> ControlView {
        job_entrance_step(before, self.metadata)
    }

    fn run(&self, control_module: &mut ControlModule) {
        if let Some(job) = self.unwrap_metadata() {
            control_module.remove_SEQ();
            let entered = Job { state: ENTERED, ..job };
            control_module.add_event(
                0,
                MEMORY_REQUEST_EVENT.to_owned(),
                Metadata::RequestMemory(entered),
            );
        }
    }
}

pub struct RequestMemory {
    pub metadata: Metadata,
}

impl RequestMemory {
    pub fn unwrap_metadata(&self) -> (r: Option<Job>)
        ensures
            r == match self.metadata {
                Metadata::RequestMemory(job) => Some(job),
                _ => None,
            },
    {
        match &self.metadata {
            Metadata::RequestMemory(job) => Some(*job),
            _ => None,
        }
    }
}

impl Runnable for RequestMemory {
    open spec fn step(&self, before: ControlView) -> ControlView {
        request_memory_step(before, self.metadata)
    }

    fn run(&self, control_module: &mut ControlModule) {
        if let Some(job) = self.unwrap_metadata() {
            match control_module.alloc_memory(job, job.memory_size) {
                Ok(_) => {
                    let ready = Job { state: MEMORY_READY, ..job };
                    control_module.add_CAQ(ready);
                    control_module.add_event(
                        0,
                        CPU_REQUEST_EVENT.to_owned(),
                        Metadata::RequestCPU(ready),
                    );
                },
                Err(_) => {
                    control_module.add_MAQ(job);
                    if let Some(other) = control_module.remove_CAQ() {
                        control_module.add_event(
                            0,
                            CPU_REQUEST_EVENT.to_owned(),
                            Metadata::RequestCPU(other),
                        );
                    }
                },
            }
        }
    }
}

pub struct RequestCPU {
    pub metadata: Metadata,
}

impl RequestCPU {
    pub fn unwrap_metadata(&self) -> (r: Option<Job>)
        ensures
            r == match self.metadata {
                Metadata::RequestCPU(job) => Some(job),
                _ => None,
            },
    {
        match &self.metadata {
            Metadata::RequestCPU(job) => Some(*job),
            _ => None,
        }
    }
}

impl Runnable for RequestCPU {
    open spec fn step(&self, before: ControlView) -> ControlView {
        request_cpu_step(before, self.metadata)
    }

    fn run(&self, control_module: &mut ControlModule) {
        let current_timestep = control_module.get_current_timestep();
        if let Some(job) = self.unwrap_metadata() {
            let running = Job { state: RUNNING, ..job };
            let time_remaining = if !control_module.job_exists_in_table(job.id) {
                control_module.add_to_job_table(job.id, job.cpu_time);
                job.cpu_time
            } else {
                control_module.get_time_remaining(job.id)
            };
            control_module.add_EQ(running);
            if time_remaining > TIME_SLICE {
                let state_end = saturating_add_i32(current_timestep, TIME_SLICE);
                control_module.add_event(state_end, PAUSE_EVENT.to_owned(), Metadata::PauseJob(running));
            } else {
                let state_end = saturating_add_i32(current_timestep, time_remaining);
                control_module.add_event(
                    state_end,
                    END_PROCESS_EVENT.to_owned(),
                    Metadata::EndProcess(running),
                );
            }
        }
    }
}

pub struct PauseJob {
    pub metadata: Metadata,
}

impl PauseJob {
    pub fn unwrap_metadata(&self) -> (r: Option<Job>)
        ensures
            r == match self.metadata {
                Metadata::PauseJob(job) => Some(job),
                _ => None,
            },
    {
        match &self.metadata {
            Metadata::PauseJob(job) => Some(*job),
            _ => None,
        }
    }
}

impl Runnable for PauseJob {
    open spec fn step(&self, before: ControlView) -> ControlView {
        pause_job_step(before, self.metadata)
    }

    fn run(&self, control_module: &mut ControlModule) {
        if let Some(job) = self.unwrap_metadata() {
            control_module.update_job_table(job.id, TIME_SLICE);
            let admit_new = !control_module.table_is_full(MAX_JOBS) && !control_module.seq_is_empty();
            if let Some(old_job) = control_module.remove_EQ() {
                control_module.add_CAQ(old_job);
            }
            if admit_new {
                if let Some(new_job) = control_module.remove_SEQ() {
                    let entered = Job { state: ENTERED, ..new_job };
                    control_module.add_event(
                        0,
                        MEMORY_REQUEST_EVENT.to_owned(),
                        Metadata::RequestMemory(entered),
                    );
                }
            } else if let Some(next_job) = control_module.remove_CAQ() {
                control_module.add_event(
                    0,
                    CPU_REQUEST_EVENT.to_owned(),
                    Metadata::RequestCPU(next_job),
                );
            }
        }
    }
}

pub struct EndProcess {
    pub metadata: Metadata,
}

impl EndProcess {
    pub fn unwrap_metadata(&self) -> (r: Option<Job>)
        ensures
            r == match self.metadata {
                Metadata::EndProcess(job) => Some(job),
                _ => None,
            },
    {
        match &self.metadata {
            Metadata::EndProcess(job) => Some(*job),
            _ => None,
        }
    }
}

impl Runnable for EndProcess {
    open spec fn step(&self, before: ControlView) -> ControlView {
        end_process_step(before, self.metadata)
    }

    fn run(&self, control_module: &mut ControlModule) {
        if let Some(job) = self.unwrap_metadata() {
            control_module.delete_job_table(job.id);
            control_module.remove_EQ();
            control_module.add_event(0, FREE_CPU_EVENT.to_owned(), Metadata::FreeCPU(job));
        }
    }
}

pub struct FreeCPU {
    pub metadata: Metadata,
}

impl FreeCPU {
    pub fn unwrap_metadata(&self) -> (r: Option<Job>)
        ensures
            r == match self.metadata {
                Metadata::FreeCPU(job) => Some(job),
                _ => None,
            },
    {
        match &self.metadata {
            Metadata::FreeCPU(job) => Some(*job),
            _ => None,
        }
    }
}

impl Runnable for FreeCPU {
    open spec fn step(&self, before: ControlView) -> ControlView {
        free_cpu_step(before, self.metadata)
    }

    fn run(&self, control_module: &mut ControlModule) {
        if let Some(job) = self.unwrap_metadata() {
            let freed = Job { state: CPU_FREED, ..job };
            control_module.remove_EQ();
            control_module.add_event(0, FREE_MEMORY_EVENT.to_owned(), Metadata::FreeMemory(freed));
        }
    }
}

pub struct FreeMemory {
    pub metadata: Metadata,
}

impl FreeMemory {
    pub fn unwrap_metadata(&self) -> (r: Option<Job>)
        ensures
            r == match self.metadata {
                Metadata::FreeMemory(job) => Some(job),
                _ => None,
            },
    {
        match &self.metadata {
            Metadata::FreeMemory(job) => Some(*job),
            _ => None,
        }
    }
}

impl Runnable for FreeMemory {
    open spec fn step(&self, before: ControlView) -> ControlView {
        free_memory_step(before, self.metadata)
    }

    fn run(&self, control_module: &mut ControlModule) {
        if let Some(job) = self.unwrap_metadata() {
            let freed = Job { state: MEMORY_FREED, ..job };
            control_module.dealloc_memory(freed);
            control_module.add_event(0, EXIT_EVENT.to_owned(), Metadata::ExitSystem(freed));
        }
    }
}

pub struct ExitSystem {
    pub metadata: Metadata,
}

impl ExitSystem {
    pub fn unwrap_metadata(&self) -> (r: Option<Job>)
        ensures
            r == match self.metadata {
                Metadata::ExitSystem(job) => Some(job),
                _ => None,
            },
    {
        match &self.metadata {
            Metadata::ExitSystem(job) => Some(*job),
            _ => None,
        }
    }
}

impl Runnable for ExitSystem {
    open spec fn step(&self, before: ControlView) -> ControlView {
        exit_system_step(before)
    }

    /// Runs whatever the payload holds: which job left does not matter.
    fn run(&self, control_module: &mut ControlModule) {
        if let Some(job) = control_module.remove_MAQ() {
            control_module.add_event(0, MEMORY_REQUEST_EVENT.to_owned(), Metadata::RequestMemory(job));
        } else if let Some(job) = control_module.remove_SEQ() {
            let entered = Job { state: ENTERED, ..job };
            control_module.add_event(
                0,
                MEMORY_REQUEST_EVENT.to_owned(),
                Metadata::RequestMemory(entered),
            );
        }
    }
}

/// Which handler an event name selects.
#[derive(Clone, Copy, Debug, PartialEq, Eq, Structural)]
pub enum RoutineKind {
    JobArrival,
    JobEntrance,
    RequestMemory,
    RequestCPU,
    PauseJob,
    EndProcess,
    FreeCPU,
    FreeMemory,
    ExitSystem,
    DefaultRoutine,
}

/// A handler holding a copy of its event's payload.
pub enum Routine {
    JobArrival(JobArrival),
    JobEntrance(JobEntrance),
    RequestMemory(RequestMemory),
    RequestCPU(RequestCPU),
    PauseJob(PauseJob),
    EndProcess(EndProcess),
    FreeCPU(FreeCPU),
    FreeMemory(FreeMemory),
    ExitSystem(ExitSystem),
    DefaultRoutine(DefaultRoutine),
}

/// The handler that `create_routine` makes for `kind` and `metadata`.
pub open spec fn routine_of(kind: RoutineKind, metadata: Metadata) -> Routine {
    match kind {
        RoutineKind::JobArrival => Routine::JobArrival(JobArrival { metadata }),
        RoutineKind::JobEntrance => Routine::JobEntrance(JobEntrance { metadata }),
        RoutineKind::RequestMemory => Routine::RequestMemory(RequestMemory { metadata }),
        RoutineKind::RequestCPU => Routine::RequestCPU(RequestCPU { metadata }),
        RoutineKind::PauseJob => Routine::PauseJob(PauseJob { metadata }),
        RoutineKind::EndProcess => Routine::EndProcess(EndProcess { metadata }),
        RoutineKind::FreeCPU => Routine::FreeCPU(FreeCPU { metadata }),
        RoutineKind::FreeMemory => Routine::FreeMemory(FreeMemory { metadata }),
        RoutineKind::ExitSystem => Routine::ExitSystem(ExitSystem { metadata }),
        RoutineKind::DefaultRoutine => Routine::DefaultRoutine(DefaultRoutine),
    }
}

/// Builds the handler of kind `routine` around a copy of `metadata`.
pub fn create_routine(routine: RoutineKind, metadata: &Metadata) -> (r: Routine)
    ensures
        r == routine_of(routine, *metadata),
{
    match routine {
        RoutineKind::JobArrival => Routine::JobArrival(JobArrival { metadata: *metadata }),
        RoutineKind::JobEntrance => Routine::JobEntrance(JobEntrance { metadata: *metadata }),
        RoutineKind::RequestMemory => Routine::RequestMemory(RequestMemory { metadata: *metadata }),
        RoutineKind::RequestCPU => Routine::RequestCPU(RequestCPU { metadata: *metadata }),
        RoutineKind::PauseJob => Routine::PauseJob(PauseJob { metadata: *metadata }),
        RoutineKind::EndProcess => Routine::EndProcess(EndProcess { metadata: *metadata }),
        RoutineKind::FreeCPU => Routine::FreeCPU(FreeCPU { metadata: *metadata }),
        RoutineKind::FreeMemory => Routine::FreeMemory(FreeMemory { metadata: *metadata }),
        RoutineKind::ExitSystem => Routine::ExitSystem(ExitSystem { metadata: *metadata }),
        RoutineKind::DefaultRoutine => Routine::DefaultRoutine(DefaultRoutine),
    }
}

impl Runnable for Routine {
    open spec fn step(&self, before: ControlView) -> ControlView {
        match self {
            Routine::JobArrival(h) => h.step(before),
            Routine::JobEntrance(h) => h.step(before),
            Routine::RequestMemory(h) => h.step(before),
            Routine::RequestCPU(h) => h.step(before),
            Routine::PauseJob(h) => h.step(before),
            Routine::EndProcess(h) => h.step(before),
            Routine::FreeCPU(h) => h.step(before),
            Routine::FreeMemory(h) => h.step(before),
            Routine::ExitSystem(h) => h.step(before),
            Routine::DefaultRoutine(h) => h.step(before),
        }
    }

    fn run(&self, control_module: &mut ControlModule) {
        match self {
            Routine::JobArrival(h) => h.run(control_module),
            Routine::JobEntrance(h) => h.run(control_module),
            Routine::RequestMemory(h) => h.run(control_module),
            Routine::RequestCPU(h) => h.run(control_module),
            Routine::PauseJob(h) => h.run(control_module),
            Routine::EndProcess(h) => h.run(control_module),
            Routine::FreeCPU(h) => h.run(control_module),
            Routine::FreeMemory(h) => h.run(control_module),
            Routine::ExitSystem(h) => h.run(control_module),
            Routine::DefaultRoutine(h) => h.run(control_module),
        }
    }
}

/// The routine of the first entry named `name`, or the default routine.
pub open spec fn routine_for(table: Seq<(String, RoutineKind)>, name: Seq<char>) -> RoutineKind
    decreases table.len(),
{
    if table.len() == 0 {
        RoutineKind::DefaultRoutine
    } else if table[0].0@ == name {
        table[0].1
    } else {
        routine_for(table.drop_first(), name)
    }
}

/// Looks up the routine of an event name.
pub fn select_routine(event_to_routine: &Vec<(String, RoutineKind)>, event_name: &str) -> (r:
    RoutineKind)
    ensures
        r == routine_for(event_to_routine@, event_name@),
{
    let name = event_name.to_owned();
    let ghost t = event_to_routine@;
    let mut i: usize = 0;
    proof {
        assert(t.subrange(0, t.len() as int) =~= t);
    }
    while i < event_to_routine.len()
        invariant
            0 <= i <= t.len(),
            t == event_to_routine@,
            name@ == event_name@,
            routine_for(t, event_name@) == routine_for(t.subrange(i as int, t.len() as int), event_name@),
        decreases t.len() - i,
    {
        proof {
            assert(t.subrange(i as int, t.len() as int).drop_first() =~= t.subrange(i as int + 1, t.len() as int));
        }
        if event_to_routine[i].0 == name {
            return event_to_routine[i].1;
        }
        i = i + 1;
    }
    RoutineKind::DefaultRoutine
}

/// The names of the events that the handlers and the seed lists use, each
/// with its routine.
pub fn create_event_to_routine() -> (r: Vec<(String, RoutineKind)>)
    ensures
        r@.len() == 9,
        r@[0].0@ == ARRIVAL_EVENT@ && r@[0].1 == RoutineKind::JobArrival,
        r@[1].0@ == ENTRANCE_EVENT@ && r@[1].1 == RoutineKind::JobEntrance,
        r@[2].0@ == MEMORY_REQUEST_EVENT@ && r@[2].1 == RoutineKind::RequestMemory,
        r@[3].0@ == CPU_REQUEST_EVENT@ && r@[3].1 == RoutineKind::RequestCPU,
        r@[4].0@ == END_PROCESS_EVENT@ && r@[4].1 == RoutineKind::EndProcess,
        r@[5].0@ == FREE_CPU_EVENT@ && r@[5].1 == RoutineKind::FreeCPU,
        r@[6].0@ == FREE_MEMORY_EVENT@ && r@[6].1 == RoutineKind::FreeMemory,
        r@[7].0@ == EXIT_EVENT@ && r@[7].1 == RoutineKind::ExitSystem,
        r@[8].0@ == PAUSE_EVENT@ && r@[8].1 == RoutineKind::PauseJob,
{
    let mut event_to_routine: Vec<(String, RoutineKind)> = Vec::new();
    event_to_routine.push((ARRIVAL_EVENT.to_owned(), RoutineKind::JobArrival));
    event_to_routine.push((ENTRANCE_EVENT.to_owned(), RoutineKind::JobEntrance));
    event_to_routine.push((MEMORY_REQUEST_EVENT.to_owned(), RoutineKind::RequestMemory));
    event_to_routine.push((CPU_REQUEST_EVENT.to_owned(), RoutineKind::RequestCPU));
    event_to_routine.push((END_PROCESS_EVENT.to_owned(), RoutineKind::EndProcess));
    event_to_routine.push((FREE_CPU_EVENT.to_owned(), RoutineKind::FreeCPU));
    event_to_routine.push((FREE_MEMORY_EVENT.to_owned(), RoutineKind::FreeMemory));
    event_to_routine.push((EXIT_EVENT.to_owned(), RoutineKind::ExitSystem));
    event_to_routine.push((PAUSE_EVENT.to_owned(), RoutineKind::PauseJob));
    event_to_routine
}

} // verus!
