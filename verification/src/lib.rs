//! Launcher logic for a Python-style language runtime.
//!
//! The crate turns process arguments and an environment snapshot into a
//! resolved [`settings::Settings`] value, picks exactly one execution
//! strategy ([`dispatch::ExecutionMode`]), resolves script paths, and drives
//! the interactive session's line-oriented state machine
//! ([`repl::ReplState`]) together with its persisted history
//! ([`history::ReplHistory`]).
//!
//! Everything that decides is here, with contracts; reading the environment,
//! parsing the raw argument grammar, and calling the parser/compiler/
//! interpreter collaborator happen outside and hand this crate plain values.

pub mod dispatch;
pub mod history;
pub mod repl;
pub mod settings;
