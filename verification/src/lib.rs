//! A minimal task tracker: an ordered list of tasks, each with a
//! description, a stored duration and a lifecycle state, plus the two
//! text-input scratch buffers of the entry form. The list operations
//! (add, delete, start, pause) and the label rendering are verified
//! against a sequence model of the state.

pub mod state;
pub mod task;
pub mod text;
