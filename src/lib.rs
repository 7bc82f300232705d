//! Bootstrap and supervision of a safekeeper node: its permanent identity,
//! the disk admission breaker, the timeline registry as startup loads it, and
//! the startup order and fail-fast exit decided by the supervisor.
pub mod breaker;
pub mod identity;
pub mod registry;
pub mod supervisor;
