//! The planning model in one place: tasks, plans, the state of a plan and
//! the set of plans, leases, and what operations answer with.

pub use crate::context::Context;
pub use crate::distilled::{Current, DistilledContext, DistilledContextBuilder, PlanResponse, TaskTreeNode};
pub use crate::history::TransitionLogEntry;
pub use crate::index::parse_index;
pub use crate::lease::Lease;
pub use crate::levels::{default_levels, implementation_level, isolation_level, ordering_level, plan_level, Level};
pub use crate::plan::Plan;
pub use crate::plans::{Core, PlanError};
pub use crate::task::Task;
