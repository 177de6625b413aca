//! Sparse checkout synchronization: selections, target resolution,
//! memoized sparse profiles, and the decisions of a synchronization pass.

pub mod order;
pub mod selection;
pub mod resolver;
pub mod cache;
pub mod guard;
pub mod idle;
pub mod sync;
pub mod cli;
pub mod status;
