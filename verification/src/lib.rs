//! Generation of the core trace of a virtual machine, fragment by fragment.
//!
//! While a program runs, [`trace_state_builder`] records, at regular intervals, the states from
//! which parts of the execution can be repeated ([`checkpoints`]). Each of these states determines a
//! fragment of the core trace, the columns of the system, the decoder and the stack ([`layout`]).
//! Fragments do not depend on each other, so they can be generated in parallel.
//!
//! A [`generator`] repeats a part of the execution: [`executor`] decides what comes next, from the
//! nodes of the program ([`mast`], [`op_batch`]) and what was left to execute, and hands out the
//! operations to perform ([`dispatch`]) and the rows to write ([`loop_rows`]). [`processor`] is the
//! access to the state that operations need. [`readiness`] tests what execution needs, and
//! [`halting`] ends a program.
//!
//! The fragments are combined into the main trace ([`trace`]): their first rows are completed
//! ([`first_rows`]), and the trace is padded to a power of two ([`padding`]).
//!
//! Contracts are stated over views of the data, and laws that span several functions are public
//! proof functions; their names start with `law_`.

pub mod batch_laws;
pub mod block_stack;
pub mod checkpoints;
pub mod continuation_stack;
pub mod decoder_laws;
pub mod dispatch;
pub mod dispatch_laws;
pub mod execution_laws;
pub mod executor;
pub mod felt;
pub mod first_rows;
pub mod fragment;
pub mod generator;
pub mod halting;
pub mod inversion;
pub mod layout;
pub mod loop_rows;
pub mod main_trace;
pub mod mast;
pub mod node_laws;
pub mod op_batch;
pub mod operation;
pub mod overflow;
pub mod padding;
pub mod power;
pub mod processor;
pub mod random_coin;
pub mod readiness;
pub mod readiness_laws;
pub mod recording_laws;
pub mod row_laws;
pub mod span;
pub mod stack_laws;
pub mod task;
pub mod task_laws;
pub mod trace;
pub mod trace_cell_laws;
pub mod trace_laws;
pub mod trace_state_builder;
