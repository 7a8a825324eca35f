pub mod context_registry;
pub mod schema;
pub mod subagent_execute;
pub mod team_context;
pub mod traits;
