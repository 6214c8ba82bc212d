//! Error types of the orchestrator.
//!
//! Only two failures unwind to the caller: a run whose target names
//! matched nothing, and a task dependency chain that loops.  Everything
//! else is reported through the event stream and never aborts the run.

use vstd::prelude::*;

verus! {

/// The general error carried by operations of this crate.
#[derive(Debug)]
pub struct SystemError {
    pub message: String,
}

impl SystemError {
    /// An error wrapping the given message.
    pub fn new(message: &str) -> (r: Self)
        ensures
            r.message@ == message@,
    {
        SystemError { message: message.to_owned() }
    }

    /// The error text.
    pub fn text(&self) -> (r: &str)
        ensures
            r@ == self.message@,
    {
        self.message.as_str()
    }
}

/// Why a batch of target names could not be turned into a plan.
#[derive(PartialEq, Eq, Structural, Debug)]
pub enum RunError {
    /// No target name matched a task, a component, or a group.
    NothingToRun,
    /// A task dependency chain revisits a task that is still being
    /// resolved.
    CircularDependency,
}

impl RunError {
    /// The error text.
    pub fn text(&self) -> (r: &str)
        ensures
            *self is NothingToRun ==> r@ == "Nothing to run"@,
            *self is CircularDependency ==> r@ == "Circular task dependency"@,
    {
        match self {
            RunError::NothingToRun => "Nothing to run",
            RunError::CircularDependency => "Circular task dependency",
        }
    }
}

} // verus!
