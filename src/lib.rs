//! Runs declaratively described adversary-emulation tests: a command template
//! is resolved against a variable store, the test's preconditions are checked,
//! and its phases are handed out one command at a time to a host that runs them.

pub mod error;
pub mod template;
pub mod model;
pub mod commands;
pub mod host;
pub mod pipeline;
pub mod overrides;
pub mod locate;
