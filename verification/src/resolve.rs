//! Run-target resolution: from names to an execution plan.
//!
//! Each target name is classified, in order: a project-level task, a
//! component-scoped `component:task`, a bare component, or a group; the
//! first matching category wins and unmatched names are skipped.  A task
//! first resolves every name in its `dependencies` list through the same
//! four categories, fully, before its own commands; a component-scoped
//! task starts the owning component's services before its body and stops
//! them right after.  Components and groups become spawn steps.  A batch
//! resolves successfully when at least one name matched something;
//! otherwise nothing runs.
//!
//! A dependency chain that revisits a task still being resolved fails
//! fast with a circular-dependency error instead of looping: the set of
//! task keys in progress is tracked, and a bound by the total number of
//! task keys backs the termination argument (the bound can only be hit
//! through a revisited key, which the membership test catches first).

use crate::command::Commands;
use crate::component::{component_path, contains_string, Component, ComponentView};
use crate::env::EnvMap;
use crate::errors::RunError;
use crate::names::{lower_of, lowercase};
use crate::project::{
    find_component_spec, find_component_task_spec, find_group_spec, find_project_task_spec,
    services_of, task_key, Project, ProjectView,
};
use crate::service::{Service, ServiceView};
use crate::task::{Task, TaskView};
use crate::util::{path_join, path_join_spec};
use vstd::prelude::*;
use vstd::string::StringExecFns;

verus! {

/// One step of an execution plan, in order.
#[derive(Debug)]
pub enum PlanStep {
    /// Run one command line of a task to completion, blocking.
    TaskCommand { task: Task, command: String },
    /// Start a service a component-scoped task depends on.
    StartService { service: Service },
    /// Stop a service a component-scoped task depended on.
    StopService { service: Service },
    /// Launch a component under the supervisor, non-blocking.
    Spawn { component: Component, extra_env: EnvMap },
}

/// The mathematical shape of a [`PlanStep`].
pub enum PlanStepView {
    TaskCommand { task: TaskView, command: Seq<char> },
    StartService { service: ServiceView },
    StopService { service: ServiceView },
    Spawn { component: ComponentView, extra_env: Seq<(Seq<char>, Seq<char>)> },
}

impl View for PlanStep {
    type V = PlanStepView;

    open spec fn view(&self) -> PlanStepView {
        match self {
            PlanStep::TaskCommand { task, command } => PlanStepView::TaskCommand {
                task: task@,
                command: command@,
            },
            PlanStep::StartService { service } => PlanStepView::StartService { service: service@ },
            PlanStep::StopService { service } => PlanStepView::StopService { service: service@ },
            PlanStep::Spawn { component, extra_env } => PlanStepView::Spawn {
                component: component@,
                extra_env: extra_env@,
            },
        }
    }
}

impl DeepView for PlanStep {
    type V = PlanStepView;

    open spec fn deep_view(&self) -> PlanStepView {
        self@
    }
}

/// The execution plan a batch of target names resolves to.  The steps run
/// in order; when `spawned` is set at least one component was handed to
/// the supervisor and the caller runs the event loop afterwards.
#[derive(Debug)]
pub struct Plan {
    pub steps: Vec<PlanStep>,
    pub spawned: bool,
}

/// What resolving produced: the steps, whether anything matched, and
/// whether a component was spawned.
pub struct ResolvedView {
    pub steps: Seq<PlanStepView>,
    pub matched: bool,
    pub spawned: bool,
}

/// The lowercase keys of the project-level tasks.
pub open spec fn project_task_keys(tasks: Seq<TaskView>) -> Seq<Seq<char>> {
    tasks.map_values(|t: TaskView| lower_of(t.name))
}

/// The lowercase composite keys of every component-scoped task.
pub open spec fn component_task_keys(cs: Seq<ComponentView>) -> Seq<Seq<char>>
    decreases cs.len(),
{
    if cs.len() == 0 {
        Seq::<Seq<char>>::empty()
    } else {
        component_task_keys(cs.drop_last()) + cs.last().tasks.map_values(
            |t: TaskView| lower_of(task_key(cs.last().name, t.name)),
        )
    }
}

/// Every task key of the project: one per project-level task and one per
/// component-scoped task.
pub open spec fn lowered_task_keys(p: ProjectView) -> Seq<Seq<char>> {
    project_task_keys(p.tasks) + component_task_keys(p.components)
}

/// The start steps for a batch of services, in order.
pub open spec fn start_service_steps(svcs: Seq<ServiceView>) -> Seq<PlanStepView> {
    svcs.map_values(|s: ServiceView| PlanStepView::StartService { service: s })
}

/// The stop steps for a batch of services, in order.
pub open spec fn stop_service_steps(svcs: Seq<ServiceView>) -> Seq<PlanStepView> {
    svcs.map_values(|s: ServiceView| PlanStepView::StopService { service: s })
}

/// A task's own command lines as plan steps, in declared order.
pub open spec fn command_steps(t: TaskView) -> Seq<PlanStepView> {
    t.commands.map_values(|c: Seq<char>| PlanStepView::TaskCommand { task: t, command: c })
}

/// The spawn steps a group expands to: one per member that names a
/// component, in member order, with the group's environment as the
/// call-site layer; unknown member names are skipped without failing the
/// group.
pub open spec fn group_spawn_steps(
    p: ProjectView,
    members: Seq<Seq<char>>,
    env: Seq<(Seq<char>, Seq<char>)>,
) -> Seq<PlanStepView>
    decreases members.len(),
{
    if members.len() == 0 {
        Seq::<PlanStepView>::empty()
    } else {
        group_spawn_steps(p, members.drop_last(), env) + (match find_component_spec(
            p,
            members.last(),
        ) {
            Some(c) => seq![PlanStepView::Spawn { component: c, extra_env: env }],
            None => Seq::<PlanStepView>::empty(),
        })
    }
}

/// Resolves one task under a key: the key must not already be in
/// progress, the dependencies resolve first — each through the full
/// four-category resolution — and only then come the service starts, the
/// task's own commands in declared order, and the service stops.
pub open spec fn resolve_task_spec(
    p: ProjectView,
    key: Seq<char>,
    t: TaskView,
    svcs: Seq<ServiceView>,
    in_prog: Seq<Seq<char>>,
) -> Result<ResolvedView, RunError>
    decreases lowered_task_keys(p).len() - in_prog.len(), 1int, 0int,
{
    if in_prog.contains(key) || in_prog.len() >= lowered_task_keys(p).len() {
        Err(RunError::CircularDependency)
    } else {
        match resolve_deps_spec(p, t.dependencies, in_prog.push(key)) {
            Err(e) => Err(e),
            Ok(d) => Ok(
                ResolvedView {
                    steps: d.steps + start_service_steps(svcs) + command_steps(t)
                        + stop_service_steps(svcs),
                    matched: true,
                    spawned: d.spawned,
                },
            ),
        }
    }
}

/// Resolves a dependency list in declared order; a dependency that
/// matches nothing is skipped silently.
pub open spec fn resolve_deps_spec(
    p: ProjectView,
    deps: Seq<Seq<char>>,
    in_prog: Seq<Seq<char>>,
) -> Result<ResolvedView, RunError>
    decreases lowered_task_keys(p).len() - in_prog.len(), 3int, deps.len(),
{
    if deps.len() == 0 {
        Ok(ResolvedView { steps: Seq::<PlanStepView>::empty(), matched: false, spawned: false })
    } else {
        match resolve_deps_spec(p, deps.drop_last(), in_prog) {
            Err(e) => Err(e),
            Ok(a) => match resolve_name_spec(p, deps.last(), in_prog) {
                Err(e) => Err(e),
                Ok(b) => Ok(
                    ResolvedView {
                        steps: a.steps + b.steps,
                        matched: a.matched || b.matched,
                        spawned: a.spawned || b.spawned,
                    },
                ),
            },
        }
    }
}

/// Resolves one target name through the four categories in order: a
/// project-level task, a component-scoped task, a bare component, a
/// group.  The first matching category is used; a name that matches
/// nothing yields no steps and no match.  A matched group counts as a
/// match even when every member name is unknown.
pub open spec fn resolve_name_spec(
    p: ProjectView,
    name: Seq<char>,
    in_prog: Seq<Seq<char>>,
) -> Result<ResolvedView, RunError>
    decreases lowered_task_keys(p).len() - in_prog.len(), 2int, 0int,
{
    if find_project_task_spec(p, name) is Some {
        let t = find_project_task_spec(p, name)->Some_0;
        resolve_task_spec(p, lower_of(t.name), t, Seq::<ServiceView>::empty(), in_prog)
    } else if find_component_task_spec(p, name) is Some {
        let ct = find_component_task_spec(p, name)->Some_0;
        resolve_task_spec(
            p,
            lower_of(task_key(ct.0.name, ct.1.name)),
            ct.1,
            services_of(p, ct.0.services),
            in_prog,
        )
    } else if find_component_spec(p, name) is Some {
        let c = find_component_spec(p, name)->Some_0;
        Ok(
            ResolvedView {
                steps: seq![
                    PlanStepView::Spawn {
                        component: c,
                        extra_env: Seq::<(Seq<char>, Seq<char>)>::empty(),
                    },
                ],
                matched: true,
                spawned: true,
            },
        )
    } else if find_group_spec(p, name) is Some {
        let g = find_group_spec(p, name)->Some_0;
        let steps = group_spawn_steps(p, g.components, g.env);
        Ok(ResolvedView { steps, matched: true, spawned: steps.len() > 0 })
    } else {
        Ok(ResolvedView { steps: Seq::<PlanStepView>::empty(), matched: false, spawned: false })
    }
}

/// Resolves a batch of target names in order; every name starts its own
/// dependency chain.
pub open spec fn resolve_list_spec(p: ProjectView, names: Seq<Seq<char>>) -> Result<
    ResolvedView,
    RunError,
>
    decreases names.len(),
{
    if names.len() == 0 {
        Ok(ResolvedView { steps: Seq::<PlanStepView>::empty(), matched: false, spawned: false })
    } else {
        match resolve_list_spec(p, names.drop_last()) {
            Err(e) => Err(e),
            Ok(a) => match resolve_name_spec(p, names.last(), Seq::<Seq<char>>::empty()) {
                Err(e) => Err(e),
                Ok(b) => Ok(
                    ResolvedView {
                        steps: a.steps + b.steps,
                        matched: a.matched || b.matched,
                        spawned: a.spawned || b.spawned,
                    },
                ),
            },
        }
    }
}

/// What a batch of target names runs: its resolved plan, or "nothing to
/// run" exactly when no name matched a task, a component, or a group, or
/// the circular-dependency error when a dependency chain loops.
pub open spec fn run_names_spec(p: ProjectView, names: Seq<Seq<char>>) -> Result<
    ResolvedView,
    RunError,
> {
    match resolve_list_spec(p, names) {
        Err(e) => Err(e),
        Ok(rv) => if rv.matched {
            Ok(rv)
        } else {
            Err(RunError::NothingToRun)
        },
    }
}

/// Appends a start step for every service, in order.
fn push_start_steps(steps: &mut Vec<PlanStep>, svcs: &Vec<Service>)
    ensures
        final(steps).deep_view() == old(steps).deep_view() + start_service_steps(svcs.deep_view()),
{
    let ghost base = steps.deep_view();
    let mut i: usize = 0;
    proof {
        assert(steps.deep_view() =~= base + start_service_steps(svcs.deep_view().take(0)));
    }
    while i < svcs.len()
        invariant
            i <= svcs.len(),
            steps.deep_view() == base + start_service_steps(svcs.deep_view().take(i as int)),
        decreases svcs.len() - i,
    {
        let ghost before = steps.deep_view();
        steps.push(PlanStep::StartService { service: svcs[i].clone() });
        proof {
            assert(steps.deep_view() =~= before.push(
                PlanStepView::StartService { service: svcs.deep_view()[i as int] },
            ));
            assert(steps.deep_view() =~= base + start_service_steps(
                svcs.deep_view().take(i + 1),
            ));
        }
        i = i + 1;
    }
    proof {
        assert(svcs.deep_view().take(svcs.deep_view().len() as int) =~= svcs.deep_view());
    }
}

/// Appends a stop step for every service, in order.
fn push_stop_steps(steps: &mut Vec<PlanStep>, svcs: &Vec<Service>)
    ensures
        final(steps).deep_view() == old(steps).deep_view() + stop_service_steps(svcs.deep_view()),
{
    let ghost base = steps.deep_view();
    let mut i: usize = 0;
    proof {
        assert(steps.deep_view() =~= base + stop_service_steps(svcs.deep_view().take(0)));
    }
    while i < svcs.len()
        invariant
            i <= svcs.len(),
            steps.deep_view() == base + stop_service_steps(svcs.deep_view().take(i as int)),
        decreases svcs.len() - i,
    {
        let ghost before = steps.deep_view();
        steps.push(PlanStep::StopService { service: svcs[i].clone() });
        proof {
            assert(steps.deep_view() =~= before.push(
                PlanStepView::StopService { service: svcs.deep_view()[i as int] },
            ));
            assert(steps.deep_view() =~= base + stop_service_steps(svcs.deep_view().take(i + 1)));
        }
        i = i + 1;
    }
    proof {
        assert(svcs.deep_view().take(svcs.deep_view().len() as int) =~= svcs.deep_view());
    }
}

/// Appends one step per command line of the task, in declared order.
fn push_command_steps(steps: &mut Vec<PlanStep>, task: &Task)
    ensures
        final(steps).deep_view() == old(steps).deep_view() + command_steps(task@),
{
    let ghost base = steps.deep_view();
    let n = task.commands.len();
    let mut i: usize = 0;
    proof {
        assert(steps.deep_view() =~= base + task@.commands.take(0).map_values(
            |c: Seq<char>| PlanStepView::TaskCommand { task: task@, command: c },
        ));
    }
    while i < n
        invariant
            n == task@.commands.len(),
            i <= n,
            steps.deep_view() == base + task@.commands.take(i as int).map_values(
                |c: Seq<char>| PlanStepView::TaskCommand { task: task@, command: c },
            ),
        decreases n - i,
    {
        let ghost before = steps.deep_view();
        let cmd = task.commands.index(i).clone();
        steps.push(PlanStep::TaskCommand { task: task.clone(), command: cmd });
        proof {
            assert(steps.deep_view() =~= before.push(
                PlanStepView::TaskCommand { task: task@, command: task@.commands[i as int] },
            ));
            assert(steps.deep_view() =~= base + task@.commands.take(i + 1).map_values(
                |c: Seq<char>| PlanStepView::TaskCommand { task: task@, command: c },
            ));
        }
        i = i + 1;
    }
    proof {
        assert(task@.commands.take(task@.commands.len() as int) =~= task@.commands);
        assert(command_steps(task@) =~= task@.commands.map_values(
            |c: Seq<char>| PlanStepView::TaskCommand { task: task@, command: c },
        ));
    }
}

impl Project {
    /// Every task key of the project, lowercased: the project-level task
    /// names and the `component:task` composites.
    fn task_key_list(&self) -> (r: Vec<String>)
        ensures
            r.deep_view() == lowered_task_keys(self@),
    {
        let mut out: Vec<String> = Vec::new();
        let mut i: usize = 0;
        proof {
            assert(out.deep_view() =~= project_task_keys(self@.tasks.take(0)));
        }
        while i < self.tasks.len()
            invariant
                i <= self.tasks.len(),
                out.deep_view() == project_task_keys(self@.tasks.take(i as int)),
            decreases self.tasks.len() - i,
        {
            let ghost before = out.deep_view();
            out.push(lowercase(self.tasks[i].name.as_str()));
            proof {
                assert(out.deep_view() =~= before.push(lower_of(self@.tasks[i as int].name)));
                assert(out.deep_view() =~= project_task_keys(self@.tasks.take(i + 1)));
            }
            i = i + 1;
        }
        proof {
            assert(self@.tasks.take(self@.tasks.len() as int) =~= self@.tasks);
        }
        let mut ci: usize = 0;
        proof {
            assert(component_task_keys(self@.components.take(0)) =~= Seq::<Seq<char>>::empty());
            assert(out.deep_view() =~= project_task_keys(self@.tasks) + component_task_keys(
                self@.components.take(0),
            ));
        }
        while ci < self.components.len()
            invariant
                ci <= self.components.len(),
                out.deep_view() == project_task_keys(self@.tasks) + component_task_keys(
                    self@.components.take(ci as int),
                ),
            decreases self.components.len() - ci,
        {
            let c = &self.components[ci];
            let ghost cv = self@.components[ci as int];
            let ghost keyfn = |t: TaskView| lower_of(task_key(cv.name, t.name));
            let ghost cbase = out.deep_view();
            let mut j: usize = 0;
            proof {
                assert(out.deep_view() =~= cbase + cv.tasks.take(0).map_values(keyfn));
            }
            while j < c.tasks.len()
                invariant
                    ci < self.components.len(),
                    c == &self.components[ci as int],
                    cv == self@.components[ci as int],
                    keyfn == (|t: TaskView| lower_of(task_key(cv.name, t.name))),
                    j <= c.tasks.len(),
                    out.deep_view() == cbase + cv.tasks.take(j as int).map_values(keyfn),
                decreases c.tasks.len() - j,
            {
                let ghost before = out.deep_view();
                let full = c.name.clone().concat(":").concat(c.tasks[j].name.as_str());
                proof {
                    reveal_strlit(":");
                    assert(":"@ =~= seq![':']);
                    assert(full@ == task_key(cv.name, cv.tasks[j as int].name));
                }
                out.push(lowercase(full.as_str()));
                proof {
                    assert(out.deep_view() =~= before.push(keyfn(cv.tasks[j as int])));
                    assert(out.deep_view() =~= cbase + cv.tasks.take(j + 1).map_values(keyfn));
                }
                j = j + 1;
            }
            proof {
                assert(cv.tasks.take(cv.tasks.len() as int) =~= cv.tasks);
                assert(self@.components.take(ci + 1).drop_last() =~= self@.components.take(
                    ci as int,
                ));
                assert(self@.components.take(ci + 1).last() == cv);
                assert(component_task_keys(self@.components.take(ci + 1))
                    =~= component_task_keys(self@.components.take(ci as int)) + cv.tasks.map_values(
                    keyfn,
                ));
                assert(out.deep_view() =~= project_task_keys(self@.tasks) + component_task_keys(
                    self@.components.take(ci + 1),
                ));
            }
            ci = ci + 1;
        }
        proof {
            assert(self@.components.take(self@.components.len() as int) =~= self@.components);
            assert(out.deep_view() =~= lowered_task_keys(self@));
        }
        out
    }

    /// Resolves one task body under its key: the key joins the
    /// in-progress set while the dependencies resolve, then the service
    /// starts, the commands, and the service stops are appended.
    fn resolve_task(
        &self,
        key: String,
        task: &Task,
        services: &Vec<Service>,
        in_prog: &mut Vec<String>,
        total: usize,
        steps: &mut Vec<PlanStep>,
    ) -> (r: Result<bool, RunError>)
        requires
            total == lowered_task_keys(self@).len(),
        ensures
            match resolve_task_spec(
                self@,
                key@,
                task@,
                services.deep_view(),
                old(in_prog).deep_view(),
            ) {
                Ok(rv) => (r matches Ok(sp) && sp == rv.spawned
                    && final(in_prog).deep_view() == old(in_prog).deep_view()
                    && final(steps).deep_view() == old(steps).deep_view() + rv.steps),
                Err(e) => r matches Err(e2) && e2 == e,
            },
        decreases total - in_prog.len(), 1int, 0int,
    {
        let ghost entry_prog = in_prog.deep_view();
        if contains_string(in_prog, &key) || in_prog.len() >= total {
            return Err(RunError::CircularDependency);
        }
        let ghost keyv = key@;
        in_prog.push(key);
        proof {
            assert(in_prog.deep_view() =~= entry_prog.push(keyv));
        }
        let spawned = match self.resolve_deps(&task.dependencies, in_prog, total, steps) {
            Ok(sp) => sp,
            Err(e) => {
                return Err(e);
            },
        };
        let ghost pushed_dv = in_prog.deep_view();
        let _ = in_prog.pop();
        proof {
            assert(in_prog.deep_view() =~= pushed_dv.drop_last());
            assert(pushed_dv.drop_last() =~= entry_prog);
        }
        push_start_steps(steps, services);
        push_command_steps(steps, task);
        push_stop_steps(steps, services);
        proof {
            let rv = resolve_task_spec(
                self@,
                keyv,
                task@,
                services.deep_view(),
                entry_prog,
            )->Ok_0;
            assert(steps.deep_view() =~= old(steps).deep_view() + rv.steps);
        }
        Ok(spawned)
    }

    /// Resolves a task's dependency list in declared order.
    fn resolve_deps(
        &self,
        deps: &Vec<String>,
        in_prog: &mut Vec<String>,
        total: usize,
        steps: &mut Vec<PlanStep>,
    ) -> (r: Result<bool, RunError>)
        requires
            total == lowered_task_keys(self@).len(),
        ensures
            match resolve_deps_spec(self@, deps.deep_view(), old(in_prog).deep_view()) {
                Ok(rv) => (r matches Ok(sp) && sp == rv.spawned
                    && final(in_prog).deep_view() == old(in_prog).deep_view()
                    && final(steps).deep_view() == old(steps).deep_view() + rv.steps),
                Err(e) => r matches Err(e2) && e2 == e,
            },
        decreases total - in_prog.len(), 3int, deps.len(),
    {
        let ghost entry_prog = in_prog.deep_view();
        let ghost base = steps.deep_view();
        let mut spawned = false;
        let mut i: usize = 0;
        proof {
            assert(deps.deep_view().take(0) =~= Seq::<Seq<char>>::empty());
            assert(steps.deep_view() =~= base + resolve_deps_spec(
                self@,
                deps.deep_view().take(0),
                entry_prog,
            )->Ok_0.steps);
        }
        while i < deps.len()
            invariant
                i <= deps.len(),
                total == lowered_task_keys(self@).len(),
                in_prog.deep_view() == entry_prog,
                resolve_deps_spec(self@, deps.deep_view().take(i as int), entry_prog) matches Ok(a)
                    && a.spawned == spawned && steps.deep_view() == base + a.steps,
            decreases deps.len() - i,
        {
            let ghost pre = deps.deep_view().take(i + 1);
            proof {
                assert(pre.drop_last() =~= deps.deep_view().take(i as int));
                assert(pre.last() == deps.deep_view()[i as int]);
            }
            match self.resolve_name(&deps[i], in_prog, total, steps) {
                Ok(mr) => {
                    spawned = spawned || mr.1;
                },
                Err(e) => {
                    proof {
                        assert(resolve_deps_spec(self@, pre, entry_prog)
                            == Err::<ResolvedView, RunError>(e));
                        lemma_resolve_deps_err_prefix(
                            self@,
                            deps.deep_view(),
                            entry_prog,
                            i + 1,
                            e,
                        );
                    }
                    return Err(e);
                },
            }
            i = i + 1;
        }
        proof {
            assert(deps.deep_view().take(deps.deep_view().len() as int) =~= deps.deep_view());
        }
        Ok(spawned)
    }

    /// Resolves one target name through the four categories in order; the
    /// first match wins and a name that matches nothing is skipped.  On
    /// success the pair says whether the name matched and whether a
    /// component was spawned.
    fn resolve_name(
        &self,
        name: &String,
        in_prog: &mut Vec<String>,
        total: usize,
        steps: &mut Vec<PlanStep>,
    ) -> (r: Result<(bool, bool), RunError>)
        requires
            total == lowered_task_keys(self@).len(),
        ensures
            match resolve_name_spec(self@, name@, old(in_prog).deep_view()) {
                Ok(rv) => (r matches Ok(ms) && ms.0 == rv.matched && ms.1 == rv.spawned
                    && final(in_prog).deep_view() == old(in_prog).deep_view()
                    && final(steps).deep_view() == old(steps).deep_view() + rv.steps),
                Err(e) => r matches Err(e2) && e2 == e,
            },
        decreases total - in_prog.len(), 2int, 0int,
    {
        if let Some(t) = self.find_project_task(name.as_str()) {
            let key = lowercase(t.name.as_str());
            let no_services: Vec<Service> = Vec::new();
            proof {
                assert(no_services.deep_view() =~= Seq::<ServiceView>::empty());
            }
            return match self.resolve_task(key, t, &no_services, in_prog, total, steps) {
                Ok(sp) => Ok((true, sp)),
                Err(e) => Err(e),
            };
        }
        if let Some(ct) = self.find_component_task(name.as_str()) {
            let (c, t) = ct;
            let full = c.name.clone().concat(":").concat(t.name.as_str());
            proof {
                reveal_strlit(":");
                assert(":"@ =~= seq![':']);
                assert(full@ == task_key(c@.name, t@.name));
            }
            let key = lowercase(full.as_str());
            let services = self.resolve_services(&c.services);
            return match self.resolve_task(key, &t, &services, in_prog, total, steps) {
                Ok(sp) => Ok((true, sp)),
                Err(e) => Err(e),
            };
        }
        if let Some(c) = self.find_component(name.as_str()) {
            let ghost before = steps.deep_view();
            steps.push(PlanStep::Spawn { component: c.clone(), extra_env: EnvMap::new() });
            proof {
                assert(steps.deep_view() =~= before.push(
                    PlanStepView::Spawn {
                        component: find_component_spec(self@, name@)->Some_0,
                        extra_env: Seq::<(Seq<char>, Seq<char>)>::empty(),
                    },
                ));
                assert(steps.deep_view() =~= before + resolve_name_spec(
                    self@,
                    name@,
                    old(in_prog).deep_view(),
                )->Ok_0.steps);
            }
            return Ok((true, true));
        }
        if let Some(g) = self.find_group(name.as_str()) {
            let ghost gv = find_group_spec(self@, name@)->Some_0;
            let ghost base = steps.deep_view();
            let mut found_any = false;
            let mut i: usize = 0;
            proof {
                assert(group_spawn_steps(self@, gv.components.take(0), gv.env)
                    =~= Seq::<PlanStepView>::empty());
                assert(steps.deep_view() =~= base + group_spawn_steps(
                    self@,
                    gv.components.take(0),
                    gv.env,
                ));
            }
            while i < g.components.len()
                invariant
                    i <= g.components.len(),
                    g@ == gv,
                    steps.deep_view() == base + group_spawn_steps(
                        self@,
                        gv.components.take(i as int),
                        gv.env,
                    ),
                    found_any == (group_spawn_steps(self@, gv.components.take(i as int), gv.env).len()
                        > 0),
                decreases g.components.len() - i,
            {
                let ghost before = steps.deep_view();
                let ghost pre = gv.components.take(i + 1);
                proof {
                    assert(pre.drop_last() =~= gv.components.take(i as int));
                    assert(pre.last() == gv.components[i as int]);
                }
                match self.find_component(g.components[i].as_str()) {
                    Some(c) => {
                        steps.push(
                            PlanStep::Spawn { component: c.clone(), extra_env: g.env.clone() },
                        );
                        found_any = true;
                        proof {
                            assert(steps.deep_view() =~= before.push(
                                PlanStepView::Spawn {
                                    component: find_component_spec(
                                        self@,
                                        gv.components[i as int],
                                    )->Some_0,
                                    extra_env: gv.env,
                                },
                            ));
                            assert(steps.deep_view() =~= base + group_spawn_steps(
                                self@,
                                pre,
                                gv.env,
                            ));
                        }
                    },
                    None => {
                        proof {
                            assert(group_spawn_steps(self@, pre, gv.env) =~= group_spawn_steps(
                                self@,
                                gv.components.take(i as int),
                                gv.env,
                            ));
                        }
                    },
                }
                i = i + 1;
            }
            proof {
                assert(gv.components.take(gv.components.len() as int) =~= gv.components);
            }
            return Ok((true, found_any));
        }
        Ok((false, false))
    }

    /// Resolves the target names into an execution plan and says whether
    /// anything will run.  The error is "nothing to run" exactly when no
    /// name matched a task, a component, or a group, and the
    /// circular-dependency error when some named task's dependency chain
    /// revisits a task.
    pub fn run_names(&self, names: &Vec<String>) -> (r: Result<Plan, RunError>)
        ensures
            match run_names_spec(self@, names.deep_view()) {
                Ok(rv) => (r matches Ok(plan) && plan.steps.deep_view() == rv.steps
                    && plan.spawned == rv.spawned),
                Err(e) => r matches Err(e2) && e2 == e,
            },
    {
        let keys = self.task_key_list();
        let total = keys.len();
        let mut in_prog: Vec<String> = Vec::new();
        let mut steps: Vec<PlanStep> = Vec::new();
        let mut matched = false;
        let mut spawned = false;
        let mut i: usize = 0;
        proof {
            assert(in_prog.deep_view() =~= Seq::<Seq<char>>::empty());
            assert(names.deep_view().take(0) =~= Seq::<Seq<char>>::empty());
            assert(steps.deep_view() =~= Seq::<PlanStepView>::empty());
        }
        while i < names.len()
            invariant
                i <= names.len(),
                total == lowered_task_keys(self@).len(),
                in_prog.deep_view() == Seq::<Seq<char>>::empty(),
                resolve_list_spec(self@, names.deep_view().take(i as int)) matches Ok(a)
                    && a.matched == matched && a.spawned == spawned && steps.deep_view() == a.steps,
            decreases names.len() - i,
        {
            let ghost pre = names.deep_view().take(i + 1);
            proof {
                assert(pre.drop_last() =~= names.deep_view().take(i as int));
                assert(pre.last() == names.deep_view()[i as int]);
            }
            match self.resolve_name(&names[i], &mut in_prog, total, &mut steps) {
                Ok(ms) => {
                    matched = matched || ms.0;
                    spawned = spawned || ms.1;
                },
                Err(e) => {
                    proof {
                        assert(resolve_list_spec(self@, pre) == Err::<ResolvedView, RunError>(e));
                        lemma_resolve_list_err_prefix(self@, names.deep_view(), i + 1, e);
                    }
                    return Err(e);
                },
            }
            i = i + 1;
        }
        proof {
            assert(names.deep_view().take(names.deep_view().len() as int) =~= names.deep_view());
        }
        if matched {
            Ok(Plan { steps, spawned })
        } else {
            Err(RunError::NothingToRun)
        }
    }
}

/// An error on a prefix of a dependency list is the error of the whole
/// list.
proof fn lemma_resolve_deps_err_prefix(
    p: ProjectView,
    deps: Seq<Seq<char>>,
    in_prog: Seq<Seq<char>>,
    i: int,
    e: RunError,
)
    requires
        0 <= i <= deps.len(),
        resolve_deps_spec(p, deps.take(i), in_prog) == Err::<ResolvedView, RunError>(e),
    ensures
        resolve_deps_spec(p, deps, in_prog) == Err::<ResolvedView, RunError>(e),
    decreases deps.len() - i,
{
    if i < deps.len() {
        assert(deps.take(i + 1).drop_last() =~= deps.take(i));
        lemma_resolve_deps_err_prefix(p, deps, in_prog, i + 1, e);
    } else {
        assert(deps.take(i) =~= deps);
    }
}

/// An error on a prefix of a name list is the error of the whole list.
proof fn lemma_resolve_list_err_prefix(p: ProjectView, names: Seq<Seq<char>>, i: int, e: RunError)
    requires
        0 <= i <= names.len(),
        resolve_list_spec(p, names.take(i)) == Err::<ResolvedView, RunError>(e),
    ensures
        resolve_list_spec(p, names) == Err::<ResolvedView, RunError>(e),
    decreases names.len() - i,
{
    if i < names.len() {
        assert(names.take(i + 1).drop_last() =~= names.take(i));
        lemma_resolve_list_err_prefix(p, names, i + 1, e);
    } else {
        assert(names.take(i) =~= names);
    }
}

/// The plan that runs every component of the project concurrently, with
/// no call-site environment.
pub open spec fn all_spawn_steps(cs: Seq<ComponentView>) -> Seq<PlanStepView> {
    cs.map_values(
        |c: ComponentView| PlanStepView::Spawn {
            component: c,
            extra_env: Seq::<(Seq<char>, Seq<char>)>::empty(),
        },
    )
}

/// One component's setup work: the repository to clone, where to clone
/// it, and the one-shot `init` commands to run there afterwards, shaped
/// as a task with the component's environment.
pub struct SetupStep {
    pub component: Component,
    pub repo: String,
    pub target_path: String,
    pub init_task: Task,
}

/// The mathematical shape of a [`SetupStep`].
pub struct SetupStepView {
    pub component: ComponentView,
    pub repo: Seq<char>,
    pub target_path: Seq<char>,
    pub init_task: TaskView,
}

impl View for SetupStep {
    type V = SetupStepView;

    open spec fn view(&self) -> SetupStepView {
        SetupStepView {
            component: self.component@,
            repo: self.repo@,
            target_path: self.target_path@,
            init_task: self.init_task@,
        }
    }
}

impl DeepView for SetupStep {
    type V = SetupStepView;

    open spec fn deep_view(&self) -> SetupStepView {
        self@
    }
}

/// The setup step of one component with a repository.
pub open spec fn setup_step_view(p: ProjectView, c: ComponentView) -> SetupStepView {
    SetupStepView {
        component: c,
        repo: c.repo->Some_0,
        target_path: path_join_spec(p.root_path, component_path(c)),
        init_task: TaskView {
            name: c.name,
            description: None,
            dependencies: Seq::<Seq<char>>::empty(),
            path: Some(component_path(c)),
            commands: c.init,
            env: c.env,
        },
    }
}

/// The setup steps of a project: one per component with a repository, in
/// declaration order; components without one are skipped.
pub open spec fn setup_steps_spec(p: ProjectView, cs: Seq<ComponentView>) -> Seq<SetupStepView>
    decreases cs.len(),
{
    if cs.len() == 0 {
        Seq::<SetupStepView>::empty()
    } else {
        setup_steps_spec(p, cs.drop_last()) + (if cs.last().repo is Some {
            seq![setup_step_view(p, cs.last())]
        } else {
            Seq::<SetupStepView>::empty()
        })
    }
}

impl Project {
    /// The plan that runs every component currently in the project, each
    /// spawned with no call-site environment.
    pub fn run(&self) -> (r: Plan)
        ensures
            r.steps.deep_view() == all_spawn_steps(self@.components),
            r.spawned == (self@.components.len() > 0),
    {
        let mut steps: Vec<PlanStep> = Vec::new();
        let mut i: usize = 0;
        proof {
            assert(steps.deep_view() =~= all_spawn_steps(self@.components.take(0)));
        }
        while i < self.components.len()
            invariant
                i <= self.components.len(),
                steps.deep_view() == all_spawn_steps(self@.components.take(i as int)),
            decreases self.components.len() - i,
        {
            let ghost before = steps.deep_view();
            steps.push(
                PlanStep::Spawn { component: self.components[i].clone(), extra_env: EnvMap::new() },
            );
            proof {
                assert(steps.deep_view() =~= before.push(
                    PlanStepView::Spawn {
                        component: self@.components[i as int],
                        extra_env: Seq::<(Seq<char>, Seq<char>)>::empty(),
                    },
                ));
                assert(steps.deep_view() =~= all_spawn_steps(self@.components.take(i + 1)));
            }
            i = i + 1;
        }
        proof {
            assert(self@.components.take(self@.components.len() as int) =~= self@.components);
        }
        let spawned = self.components.len() > 0;
        Plan { steps, spawned }
    }

    /// The setup work of the project: for every component that names a
    /// repository, where to clone it and which `init` commands to run
    /// there; components without a repository are skipped.
    pub fn setup(&self) -> (r: Vec<SetupStep>)
        ensures
            r.deep_view() == setup_steps_spec(self@, self@.components),
    {
        let mut out: Vec<SetupStep> = Vec::new();
        let mut i: usize = 0;
        proof {
            assert(out.deep_view() =~= setup_steps_spec(self@, self@.components.take(0)));
        }
        while i < self.components.len()
            invariant
                i <= self.components.len(),
                out.deep_view() == setup_steps_spec(self@, self@.components.take(i as int)),
            decreases self.components.len() - i,
        {
            let ghost before = out.deep_view();
            let c = &self.components[i];
            match c.clone_repo() {
                Ok(repo) => {
                    let rel = c.get_path();
                    let target_path = path_join(self.root_path.as_str(), rel.as_str());
                    let init_task = Task {
                        name: c.name.clone(),
                        description: None,
                        dependencies: Vec::new(),
                        path: Some(rel),
                        commands: Commands::Multiple(crate::util::clone_strings(&c.init)),
                        env: c.env.clone(),
                    };
                    let step = SetupStep { component: c.clone(), repo, target_path, init_task };
                    proof {
                        assert(step@.init_task.dependencies
                            =~= Seq::<Seq<char>>::empty());
                        assert(step@ == setup_step_view(self@, self@.components[i as int]));
                    }
                    out.push(step);
                    proof {
                        assert(out.deep_view() =~= before.push(
                            setup_step_view(self@, self@.components[i as int]),
                        ));
                    }
                },
                Err(_) => (),
            }
            proof {
                assert(self@.components.take(i + 1).drop_last() =~= self@.components.take(i as int));
                assert(self@.components.take(i + 1).last() == self@.components[i as int]);
                assert(out.deep_view() =~= setup_steps_spec(self@, self@.components.take(i + 1)));
            }
            i = i + 1;
        }
        proof {
            assert(self@.components.take(self@.components.len() as int) =~= self@.components);
        }
        out
    }
}


/// A task with two dependencies resolves both through the full
/// four-category resolution, in the declared order, and every step of
/// both dependency resolutions stands strictly before the task's own
/// commands in the plan.
pub proof fn lemma_dependencies_run_first(
    p: ProjectView,
    key: Seq<char>,
    t: TaskView,
    svcs: Seq<ServiceView>,
    in_prog: Seq<Seq<char>>,
)
    requires
        t.dependencies.len() == 2,
        resolve_task_spec(p, key, t, svcs, in_prog) is Ok,
    ensures
        ({
            let pushed = in_prog.push(key);
            let r0 = resolve_name_spec(p, t.dependencies[0], pushed);
            let r1 = resolve_name_spec(p, t.dependencies[1], pushed);
            &&& r0 is Ok
            &&& r1 is Ok
            &&& resolve_task_spec(p, key, t, svcs, in_prog)->Ok_0.steps == r0->Ok_0.steps
                + r1->Ok_0.steps + start_service_steps(svcs) + command_steps(t)
                + stop_service_steps(svcs)
        }),
{
    let pushed = in_prog.push(key);
    let deps = t.dependencies;
    assert(deps.drop_last() =~= seq![deps[0]]);
    assert(deps.drop_last().drop_last() =~= Seq::<Seq<char>>::empty());
    assert(deps.drop_last().last() == deps[0]);
    assert(deps.last() == deps[1]);
    assert(resolve_deps_spec(p, Seq::<Seq<char>>::empty(), pushed) matches Ok(z)
        && z.steps.len() == 0);
    let r0 = resolve_name_spec(p, deps[0], pushed);
    let r1 = resolve_name_spec(p, deps[1], pushed);
    let d = resolve_deps_spec(p, deps, pushed);
    assert(d is Ok);
    assert(r0 is Ok && r1 is Ok);
    assert(d->Ok_0.steps =~= r0->Ok_0.steps + r1->Ok_0.steps);
    assert(resolve_task_spec(p, key, t, svcs, in_prog)->Ok_0.steps =~= r0->Ok_0.steps
        + r1->Ok_0.steps + start_service_steps(svcs) + command_steps(t)
        + stop_service_steps(svcs));
}

/// Resolving a group expands to one spawn step per member that names a
/// component, in member order and carrying the group's environment;
/// member names that match no component are skipped without failing the
/// group.
pub proof fn lemma_group_expansion(
    p: ProjectView,
    members: Seq<Seq<char>>,
    env: Seq<(Seq<char>, Seq<char>)>,
)
    ensures
        group_spawn_steps(p, members, env) == members.filter(
            |m: Seq<char>| find_component_spec(p, m) is Some,
        ).map_values(
            |m: Seq<char>| PlanStepView::Spawn {
                component: find_component_spec(p, m)->Some_0,
                extra_env: env,
            },
        ),
    decreases members.len(),
{
    reveal(Seq::<Seq<char>>::filter);
    let pred = |m: Seq<char>| find_component_spec(p, m) is Some;
    let f = |m: Seq<char>| PlanStepView::Spawn {
        component: find_component_spec(p, m)->Some_0,
        extra_env: env,
    };
    if members.len() == 0 {
        assert(group_spawn_steps(p, members, env) =~= members.filter(pred).map_values(f));
    } else {
        lemma_group_expansion(p, members.drop_last(), env);
        if pred(members.last()) {
            assert(members.filter(pred) =~= members.drop_last().filter(pred).push(members.last()));
            assert(members.filter(pred).map_values(f) =~= members.drop_last().filter(
                pred,
            ).map_values(f).push(f(members.last())));
            assert(group_spawn_steps(p, members, env) =~= members.filter(pred).map_values(f));
        } else {
            assert(members.filter(pred) =~= members.drop_last().filter(pred));
            assert(group_spawn_steps(p, members, env) =~= members.filter(pred).map_values(f));
        }
    }
}

} // verus!
