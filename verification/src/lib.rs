//! Verified decision cores of classic thread-synchronisation primitives.
//!
//! A module for a primitive holds the record that its lock protects and the
//! decisions that are taken while the lock is held. Blocking, waking and the
//! starting of threads are left to the embedding program, which is told what
//! to do by the value each decision returns.
//!
//! - `workqueue`: an elastic pool of workers; `workqueue_system` proves what
//!   holds of the pool and its workers together.
//! - `alarm`: alarms in the order in which they are due; `command`: the
//!   lines that set them.
//! - `barrier`, `pipe`, `rwlock`, `crew`, `server`: a barrier, a pipeline, a
//!   lock for readers and writers, a crew that searches files, and a server
//!   for the terminal.

pub mod alarm;
pub mod barrier;
mod chance;
pub mod command;
pub mod crew;
pub mod pipe;
pub mod rwlock;
pub mod server;
pub mod workqueue;
pub mod workqueue_system;
