//! A cooperative multitasking runtime: stackful tasks that are switched by
//! saving and restoring register contexts, driven by a single-threaded
//! round-robin scheduler.
//!
//! # What is here
//!
//! - [`state`]: the status that a transfer hands to the side that goes on.
//! - [`registers`]: the register file, and what a register context has to be
//!   able to do: save the running side, load another, and prepare the first
//!   entry into a fresh stack.
//! - [`generator::linux`], [`generator::windows`]: the two contexts, one for
//!   each calling convention, with the registers that each has to preserve.
//! - [`stack`]: the layout of a fresh stack, byte by byte.
//! - [`generator`]: a task and its life: suspended, running, done.
//! - [`runtime`]: the scheduler with its queue and its current task.
//! - [`schedule`]: the queue discipline by itself, and what follows from it:
//!   every run ends, round robin is fair, and a task that was dropped is
//!   never resumed again.
//!
//! # The machine
//!
//! A transfer is stated here as a function on a register file that the
//! scheduler holds. The instructions that perform the same transfer on the
//! core, and the closures that tasks run, are the business of the program
//! that uses this library; it follows the scheduler step by step. A task
//! takes part in three ways: it is entered once, it yields, and it ends.
//!
//! # Limits
//!
//! - A task runs until it yields or ends: nothing preempts it.
//! - Nothing detects a task that outgrows its stack.
//! - A task can be cancelled only while it waits at a yield, and it is the
//!   task itself that unwinds. A task that is dropped while it is suspended is
//!   not unwound: what its closure holds is never released. The scheduler
//!   drops a task only once it is done.

pub mod generator;
pub mod registers;
pub mod runtime;
pub mod schedule;
pub mod stack;
pub mod state;
