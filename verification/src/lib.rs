//! The logic of CoralDesk's tools: running sub-agents, sharing context between roles,
//! logging model calls, finding a shell, opening a tunnel.
//!
//! Where an operation needs a service, a function says what is needed next and another
//! takes what came back. Of the machine itself the library asks little: the time, fresh
//! identifiers, and where programs and the home directory are.

pub mod json;
pub mod lists;
pub mod observability;
pub mod paths;
pub mod providers;
pub mod runtime;
pub mod security;
pub mod system;
pub mod text;
pub mod tools;
pub mod tunnel;
