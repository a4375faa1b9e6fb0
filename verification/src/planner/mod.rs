//! Logical plans and the plans the engine executes.

pub mod optimizer;
pub mod plan;
