//! A local multi-component process orchestrator, verified with Verus.
//!
//! A project description names components (long-running processes), groups
//! of components, tasks (one-shot command pipelines with dependencies), and
//! support services.  This crate holds the verified core: the environment
//! model with shell-style `%VAR%` expansion, the resolver that turns target
//! names into an execution plan, and the supervisor state machine that
//! tracks running workers, decides retries, and sequences shutdown.
//! Process spawning, terminal rendering, and the container client live in
//! the unverified shell around this library.
#![verifier::loop_isolation(false)]

pub mod command;
pub mod component;
pub mod env;
pub mod errors;
pub mod group;
pub mod names;
pub mod project;
pub mod resolve;
pub mod service;
pub mod supervisor;
pub mod system;
pub mod task;
pub mod util;
