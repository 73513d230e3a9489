use vstd::prelude::*;

use crate::routines::{create_routine, routine_for, routine_of, select_routine, RoutineKind, Runnable};
use crate::system_abstractions::{ControlModule, ControlView};

verus! {

/// What one turn of the event loop did.
#[derive(Clone, Copy, Debug, PartialEq, Eq, Structural)]
pub enum LoopStep {
    /// The earliest event was due and went to the handler of this kind.
    Dispatched(RoutineKind),
    /// The earliest event is due at this time, past the timestep; it was
    /// put back at the head of the queue.
    Deferred(i32),
    /// No event was left.
    Drained,
}

/// The state after the head event is handed to its routine.
pub open spec fn dispatched(table: Seq<(String, RoutineKind)>, v: ControlView) -> ControlView {
    let e = v.events[0];
    routine_of(routine_for(table, e.name), e.metadata).step(
        ControlView { events: v.events.drop_first(), ..v },
    )
}

/// One turn of the event loop at `timestep`: the earliest event is dispatched
/// if it is due, put back if it is later, and nothing happens when the queue
/// is empty.
pub fn process_next_event(
    event_to_routine: &Vec<(String, RoutineKind)>,
    timestep: i32,
    control_module: &mut ControlModule,
) -> (r: LoopStep)
    requires
        old(control_module)@.wf(),
    ensures
        final(control_module)@.wf(),
        ({
            let v = old(control_module)@;
            let w = final(control_module)@;
            if v.events.len() == 0 {
                r == LoopStep::Drained && w == v
            } else if v.events[0].time > timestep {
                r == LoopStep::Deferred(v.events[0].time as i32) && w == v
            } else {
                r == LoopStep::Dispatched(routine_for(event_to_routine@, v.events[0].name)) && w
                    == dispatched(event_to_routine@, v)
            }
        }),
{
    let ghost before = control_module@;
    match control_module.pop_event() {
        None => LoopStep::Drained,
        Some(event) => {
            let time = event.time;
            if time > timestep {
                control_module.push_back_event(event);
                proof {
                    assert(control_module@.events =~= before.events);
                }
                LoopStep::Deferred(time)
            } else {
                let kind = select_routine(event_to_routine, event.name.as_str());
                let routine = create_routine(kind, &event.metadata);
                routine.run(control_module);
                LoopStep::Dispatched(kind)
            }
        },
    }
}

} // verus!
