//! A project-aware command launcher core: detects which build or package
//! tooling governs a directory tree, aggregates the script names each tool
//! provides, and routes short user-typed commands to the right tool
//! invocation.
//!
//! The pieces, in the order data flows through them: [`detect`] walks the
//! directory levels it is handed and builds the [`registry`]'s `ScriptMap`,
//! parsing Makefile targets ([`makefile`]) and `package.json` script names
//! ([`package_json`]) along the way; [`router`] consumes the flat token
//! stream ([`args`]) and resolves each command through the registry into a
//! concrete subprocess invocation ([`runners`]).

pub mod args;
pub mod detect;
pub mod makefile;
pub mod package_json;
pub mod registry;
pub mod router;
pub mod runners;
pub mod strings;
