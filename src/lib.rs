//! Discrete-event simulation of an operating-system job scheduler: a
//! time-ordered event queue, a first-fit memory allocator, a round-robin
//! scheduling table and the event handlers that move jobs between the
//! resource queues.
pub mod event_list;
pub mod system_abstractions;
pub mod routines;
pub mod event_loop;
pub mod populate_list;
