//! Tasks: named one-shot command pipelines.
//!
//! A task is an ordered list of shell lines with optional dependencies on
//! other tasks, an optional working-directory override, and environment
//! overrides.  It is distinct from a component's always-on `start`
//! command: tasks run synchronously to completion.

use crate::command::Commands;
use crate::env::EnvMap;
use crate::util::{clone_opt_string, clone_strings};
use vstd::prelude::*;

verus! {

/// A named, composable command pipeline.
#[derive(Debug)]
pub struct Task {
    pub name: String,
    pub description: Option<String>,
    pub dependencies: Vec<String>,
    pub path: Option<String>,
    pub commands: Commands,
    pub env: EnvMap,
}

/// The mathematical shape of a [`Task`].
pub struct TaskView {
    pub name: Seq<char>,
    pub description: Option<Seq<char>>,
    pub dependencies: Seq<Seq<char>>,
    pub path: Option<Seq<char>>,
    pub commands: Seq<Seq<char>>,
    pub env: Seq<(Seq<char>, Seq<char>)>,
}

impl View for Task {
    type V = TaskView;

    open spec fn view(&self) -> TaskView {
        TaskView {
            name: self.name@,
            description: self.description.deep_view(),
            dependencies: self.dependencies.deep_view(),
            path: self.path.deep_view(),
            commands: self.commands@,
            env: self.env@,
        }
    }
}

impl DeepView for Task {
    type V = TaskView;

    open spec fn deep_view(&self) -> TaskView {
        self@
    }
}

impl Default for Task {
    /// A task named "Unnamed" with no commands, dependencies, or overrides.
    fn default() -> (r: Self)
        ensures
            r@.name == "Unnamed"@,
            r@.description is None,
            r@.dependencies.len() == 0,
            r@.path is None,
            r@.commands.len() == 0,
            r@.env.len() == 0,
    {
        Task {
            name: "Unnamed".to_owned(),
            description: None,
            dependencies: Vec::new(),
            path: None,
            commands: Commands::Multiple(Vec::new()),
            env: EnvMap::new(),
        }
    }
}

impl Clone for Task {
    fn clone(&self) -> (r: Self)
        ensures
            r@ == self@,
    {
        Task {
            name: self.name.clone(),
            description: clone_opt_string(&self.description),
            dependencies: clone_strings(&self.dependencies),
            path: clone_opt_string(&self.path),
            commands: self.commands.clone(),
            env: self.env.clone(),
        }
    }
}

} // verus!
