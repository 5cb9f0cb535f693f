//! A concurrent, reference-counted object runtime that hosts an embedded
//! scripting interpreter: a cyclic object graph with capability-based dynamic
//! dispatch, a cooperative task scheduler multiplexing logical script threads
//! across interpreter states, a lock-coordination protocol modulated by a
//! process-wide exclusivity flag, and a watchdog that bounds runaway script
//! execution. The interpreter itself, the engine bindings and all I/O are
//! collaborators: the host drives them and consults this crate for every
//! decision — what to allocate, what runs next and in what order, who may
//! lock what, and when a runaway unit must be interrupted.

pub mod capability;
pub mod classes;
pub mod coordlock;
pub mod enums;
pub mod errors;
pub mod flags;
pub mod identity;
pub mod log_service;
pub mod refgraph;
pub mod scheduler;
pub mod script;
pub mod text;
pub mod vm;
pub mod watchdog;
