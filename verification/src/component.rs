//! Components: the independently runnable units of a project.
//!
//! A component owns one long-running `start` command, one-shot `init`
//! commands, scoped tasks, environment overrides, names of the services it
//! needs, and the lifecycle flags `retry`, `keep_alive`, and `default`.
//! Its name is its sole identity; lookups are case-insensitive.

use crate::env::EnvMap;
use crate::errors::SystemError;
use crate::task::{Task, TaskView};
use crate::util::{clone_opt_string, clone_strings};
use vstd::prelude::*;

verus! {

/// The fixed set of terminal colors a component's output can be tagged
/// with.
#[derive(Clone, Copy, PartialEq, Eq, Structural, Debug)]
pub enum TerminalColor {
    Blue,
    Green,
    Yellow,
    Purple,
    White,
    Red,
    Cyan,
}

impl Default for TerminalColor {
    fn default() -> (r: Self)
        ensures
            r == TerminalColor::Yellow,
    {
        TerminalColor::Yellow
    }
}

/// A named, independently runnable unit of the project.
#[derive(Debug)]
pub struct Component {
    pub name: String,
    pub path: Option<String>,
    pub keep_alive: bool,
    pub color: TerminalColor,
    pub env: EnvMap,
    pub tasks: Vec<Task>,
    pub repo: Option<String>,
    pub delay: Option<u64>,
    pub start: String,
    pub init: Vec<String>,
    pub retry: bool,
    pub default: bool,
    pub services: Vec<String>,
    pub tags: Vec<String>,
}

/// The mathematical shape of a [`Component`].
pub struct ComponentView {
    pub name: Seq<char>,
    pub path: Option<Seq<char>>,
    pub keep_alive: bool,
    pub color: TerminalColor,
    pub env: Seq<(Seq<char>, Seq<char>)>,
    pub tasks: Seq<TaskView>,
    pub repo: Option<Seq<char>>,
    pub delay: Option<u64>,
    pub start: Seq<char>,
    pub init: Seq<Seq<char>>,
    pub retry: bool,
    pub default: bool,
    pub services: Seq<Seq<char>>,
    pub tags: Seq<Seq<char>>,
}

impl View for Component {
    type V = ComponentView;

    open spec fn view(&self) -> ComponentView {
        ComponentView {
            name: self.name@,
            path: self.path.deep_view(),
            keep_alive: self.keep_alive,
            color: self.color,
            env: self.env@,
            tasks: self.tasks.deep_view(),
            repo: self.repo.deep_view(),
            delay: self.delay,
            start: self.start@,
            init: self.init.deep_view(),
            retry: self.retry,
            default: self.default,
            services: self.services.deep_view(),
            tags: self.tags.deep_view(),
        }
    }
}

impl DeepView for Component {
    type V = ComponentView;

    open spec fn deep_view(&self) -> ComponentView {
        self@
    }
}

/// The working directory of a component, relative to the project root:
/// its `path` when set, its name otherwise.
pub open spec fn component_path(c: ComponentView) -> Seq<char> {
    match c.path {
        Some(p) => p,
        None => c.name,
    }
}

impl Default for Component {
    /// A component named "Unknown" with no command, services, or overrides,
    /// colored yellow and part of default runs.
    fn default() -> (r: Self)
        ensures
            r@.name == "Unknown"@,
            r@.path is None,
            r@.keep_alive == false,
            r@.color == TerminalColor::Yellow,
            r@.env.len() == 0,
            r@.tasks.len() == 0,
            r@.repo is None,
            r@.delay is None,
            r@.start.len() == 0,
            r@.init.len() == 0,
            r@.retry == false,
            r@.default == true,
            r@.services.len() == 0,
            r@.tags.len() == 0,
    {
        let r = Component {
            name: "Unknown".to_owned(),
            path: None,
            keep_alive: false,
            color: TerminalColor::Yellow,
            env: EnvMap::new(),
            tasks: Vec::new(),
            repo: None,
            delay: None,
            start: String::new(),
            init: Vec::new(),
            retry: false,
            default: true,
            services: Vec::new(),
            tags: Vec::new(),
        };
        proof {
            assert(r@.tasks =~= Seq::<TaskView>::empty());
        }
        r
    }
}

impl Component {
    /// The component's working directory relative to the project root.
    pub fn get_path(&self) -> (r: String)
        ensures
            r@ == component_path(self@),
    {
        match &self.path {
            Some(p) => p.clone(),
            None => self.name.clone(),
        }
    }

    /// The repository this component is cloned from.  Cloning itself is
    /// outside work; this decides whether there is anything to clone and
    /// hands the source back, or the error the run reports when no
    /// repository was specified.
    pub fn clone_repo(&self) -> (r: Result<String, SystemError>)
        ensures
            self@.repo is Some ==> (r matches Ok(u) && u@ == self@.repo->Some_0),
            self@.repo is None ==> (r matches Err(e) && e.message@ == "Repo not specified"@),
    {
        match &self.repo {
            Some(repo) => Ok(repo.clone()),
            None => Err(SystemError::new("Repo not specified")),
        }
    }

    /// Whether this component carries at least one of the requested tags.
    pub fn has_tags(&self, tags: &Vec<String>) -> (r: bool)
        ensures
            r == has_any_tag(self@, tags.deep_view()),
    {
        let mut i: usize = 0;
        while i < tags.len()
            invariant
                i <= tags.len(),
                forall|k: int| 0 <= k < i ==> !self@.tags.contains(#[trigger] tags.deep_view()[k]),
            decreases tags.len() - i,
        {
            if contains_string(&self.tags, &tags[i]) {
                proof {
                    assert(self@.tags.contains(tags.deep_view()[i as int]));
                }
                return true;
            }
            i = i + 1;
        }
        false
    }
}

/// Whether the component's tag set intersects the requested tags.
pub open spec fn has_any_tag(c: ComponentView, tags: Seq<Seq<char>>) -> bool {
    exists|k: int| 0 <= k < tags.len() && c.tags.contains(#[trigger] tags[k])
}

/// Whether `v` holds a string equal to `s`.
pub fn contains_string(v: &Vec<String>, s: &String) -> (r: bool)
    ensures
        r == v.deep_view().contains(s@),
{
    let mut i: usize = 0;
    while i < v.len()
        invariant
            i <= v.len(),
            forall|k: int| 0 <= k < i ==> v.deep_view()[k] != s@,
        decreases v.len() - i,
    {
        if *s == v[i] {
            proof {
                assert(v.deep_view()[i as int] == s@);
            }
            return true;
        }
        i = i + 1;
    }
    false
}

impl Clone for Component {
    fn clone(&self) -> (r: Self)
        ensures
            r@ == self@,
    {
        let r = Component {
            name: self.name.clone(),
            path: clone_opt_string(&self.path),
            keep_alive: self.keep_alive,
            color: self.color,
            env: self.env.clone(),
            tasks: clone_tasks(&self.tasks),
            repo: clone_opt_string(&self.repo),
            delay: self.delay,
            start: self.start.clone(),
            init: clone_strings(&self.init),
            retry: self.retry,
            default: self.default,
            services: clone_strings(&self.services),
            tags: clone_strings(&self.tags),
        };
        r
    }
}

/// A copy of a component vector whose contents are provably the same.
pub fn clone_components(v: &Vec<Component>) -> (r: Vec<Component>)
    ensures
        r.deep_view() == v.deep_view(),
{
    let mut out: Vec<Component> = Vec::new();
    let mut i: usize = 0;
    while i < v.len()
        invariant
            i <= v.len(),
            out.deep_view() == v.deep_view().take(i as int),
        decreases v.len() - i,
    {
        let ghost before = out.deep_view();
        out.push(v[i].clone());
        proof {
            assert(out.deep_view() =~= before.push(v.deep_view()[i as int]));
            assert(before.push(v.deep_view()[i as int]) =~= v.deep_view().take(i + 1));
        }
        i = i + 1;
    }
    proof {
        assert(v.deep_view().take(v.deep_view().len() as int) =~= v.deep_view());
    }
    out
}

/// A copy of a task vector whose contents are provably the same.
pub fn clone_tasks(v: &Vec<Task>) -> (r: Vec<Task>)
    ensures
        r.deep_view() == v.deep_view(),
{
    let mut out: Vec<Task> = Vec::new();
    let mut i: usize = 0;
    while i < v.len()
        invariant
            i <= v.len(),
            out.deep_view() == v.deep_view().take(i as int),
        decreases v.len() - i,
    {
        let ghost before = out.deep_view();
        out.push(v[i].clone());
        proof {
            assert(out.deep_view() =~= before.push(v.deep_view()[i as int]));
            assert(before.push(v.deep_view()[i as int]) =~= v.deep_view().take(i + 1));
        }
        i = i + 1;
    }
    proof {
        assert(v.deep_view().take(v.deep_view().len() as int) =~= v.deep_view());
    }
    out
}

} // verus!
