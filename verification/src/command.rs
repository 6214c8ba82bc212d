//! Command descriptions.
//!
//! A [`Command`] is a single program invocation with arguments, an optional
//! working directory, and environment overrides.  [`Commands`] is the shape
//! a task's command list takes in a project description: either one shell
//! line or a list of them; both mean an ordered sequence of lines.

use crate::env::EnvMap;
use crate::util::clone_strings;
use vstd::prelude::*;

verus! {

/// One program invocation.
pub struct Command {
    pub command: String,
    pub args: Vec<String>,
    pub dir: Option<String>,
    pub env: EnvMap,
}

/// The mathematical shape of a [`Command`].
pub struct CommandView {
    pub command: Seq<char>,
    pub args: Seq<Seq<char>>,
    pub dir: Option<Seq<char>>,
    pub env: Seq<(Seq<char>, Seq<char>)>,
}

impl View for Command {
    type V = CommandView;

    open spec fn view(&self) -> CommandView {
        CommandView {
            command: self.command@,
            args: self.args.deep_view(),
            dir: self.dir.deep_view(),
            env: self.env@,
        }
    }
}

impl Default for Command {
    /// An empty invocation: no program, no arguments, no overrides.
    fn default() -> (r: Self)
        ensures
            r@.command.len() == 0,
            r@.args.len() == 0,
            r@.dir is None,
            r@.env.len() == 0,
    {
        Command { command: String::new(), args: Vec::new(), dir: None, env: EnvMap::new() }
    }
}

/// A task's command list: one line, or several in order.
#[derive(Debug)]
pub enum Commands {
    Single(String),
    Multiple(Vec<String>),
}

impl View for Commands {
    type V = Seq<Seq<char>>;

    /// The declared order of command lines.
    open spec fn view(&self) -> Seq<Seq<char>> {
        match self {
            Commands::Single(s) => seq![s@],
            Commands::Multiple(v) => v.deep_view(),
        }
    }
}

impl Commands {
    /// The command lines in declared order.
    pub fn into_vec(self) -> (r: Vec<String>)
        ensures
            r.deep_view() == self@,
    {
        match self {
            Commands::Single(s) => {
                let mut out: Vec<String> = Vec::new();
                let ghost sv = s@;
                out.push(s);
                proof {
                    assert(out.deep_view() =~= seq![sv]);
                }
                out
            },
            Commands::Multiple(v) => v,
        }
    }

    /// How many command lines there are.
    pub fn len(&self) -> (r: usize)
        ensures
            r == self@.len(),
    {
        match self {
            Commands::Single(_) => 1,
            Commands::Multiple(v) => v.len(),
        }
    }

    /// The `i`-th command line.
    pub fn index(&self, i: usize) -> (r: &String)
        requires
            i < self@.len(),
        ensures
            r@ == self@[i as int],
    {
        match self {
            Commands::Single(s) => s,
            Commands::Multiple(v) => &v[i],
        }
    }
}

impl Clone for Commands {
    fn clone(&self) -> (r: Self)
        ensures
            r@ == self@,
    {
        match self {
            Commands::Single(s) => Commands::Single(s.clone()),
            Commands::Multiple(v) => Commands::Multiple(clone_strings(v)),
        }
    }
}

impl From<Vec<String>> for Commands {
    fn from(v: Vec<String>) -> (r: Commands) {
        Commands::Multiple(v)
    }
}

impl vstd::std_specs::convert::FromSpecImpl<Vec<String>> for Commands {
    open spec fn obeys_from_spec() -> bool {
        true
    }

    open spec fn from_spec(v: Vec<String>) -> Commands {
        Commands::Multiple(v)
    }
}

} // verus!
