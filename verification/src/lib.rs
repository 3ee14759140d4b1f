//! Decision core of a structured-logging bootstrap built on `slog`.
//!
//! The crate resolves log-level filtering (a default level, per-module
//! overrides and a runtime directive string), selects the output format and
//! assembles the fields attached to every record. Everything here works on
//! plain values; building drains and writing output is left to the caller.
//!
//! - [`level`]: severities and their names.
//! - [`directive`]: the grammar of runtime directives.
//! - [`filter`]: a default threshold with per-module overrides.
//! - [`resolve`]: how directive rules outrank what was configured.
//! - [`context`]: the fields that loggers attach to records.
//! - [`bridge`]: the install-once rule of the `log` bridge.
//! - [`kickstarter`]: the builder and the plan of a pipeline.

pub mod bridge;
pub mod context;
pub mod directive;
pub mod filter;
pub mod kickstarter;
pub mod level;
pub mod resolve;
mod text;

pub use bridge::{AlreadyInstalled, BridgeHandle, BridgeSlot};
pub use context::{structured_head, Context, Field, VERSION};
pub use directive::{
    parse_directive, parse_optional, parse_rule, ConfigurationError, Rule, RuleView,
};
pub use filter::{LevelFilter, LevelFilterView, ModuleLevel};
pub use kickstarter::{
    requests_structured, Boundary, InitError, OutputFormat, Overflow, Pipeline, SlogKickstarter,
    SlogKickstarterView, QUEUE_CAPACITY,
};
pub use level::Level;
pub use resolve::resolve;
