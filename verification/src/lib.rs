//! Hierarchical planning library: a tree of tasks organised by abstraction
//! levels, a cursor that walks the tree, completion leases, a bounded log of
//! state transitions, and the views rendered from that state.

pub mod text;
pub mod levels;
pub mod task;
pub mod external;
pub mod history;
pub mod lease;
pub mod plan;
pub mod distilled;
pub mod context;
pub mod plans;
pub mod index;
pub mod guide;
pub mod ui;
pub mod markup;
pub mod api;
pub mod report;
pub mod example;
pub mod laws;
pub mod guarantees;
pub mod models;

pub use context::Context;
pub use levels::{default_levels, implementation_level, isolation_level, ordering_level, plan_level, Level};
pub use plan::Plan;
pub use plans::Core;
pub use task::Task;
