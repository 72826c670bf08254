//! A small durable task queue: typed tasks, their lifecycle, the lease-based
//! claiming protocol that lets several workers share one table, and the
//! request-side rules of the dispatch interface.

pub mod text;
pub mod task_type;
pub mod task_state;
pub mod task;
pub mod filter;
pub mod store;
pub mod claim;
pub mod worker;
pub mod dispatch;
pub mod laws;
