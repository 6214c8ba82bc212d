//! The supervisor: concurrent execution of many components.
//!
//! The supervisor owns the worker registry and every decision of the run
//! loop: what a spawn needs (services, environment, working directory,
//! command line), whether an exited component is respawned, what a kill
//! request touches, when the run is over, and which services are stopped
//! afterwards.  Performing the decisions — spawning processes, reading
//! pipes, sending signals, talking to the container runtime — is outside
//! work driven by the shell around this library, which feeds every event
//! back in here.
//!
//! One point follows a deliberate redesign of the event loop: on a retry
//! the old worker record is retired in place and a fresh record is
//! registered, rather than replacing the record; retired records are kept
//! so that shutdown still sees every component that ever ran.

use crate::component::{component_path, Component, ComponentView};
use crate::env::{expand_all_spec, expand_env, expand_spec, EnvMap};
use crate::project::{services_of, Project, ProjectView};
use crate::service::{Service, ServiceLauncher, ServiceTerminator};
use crate::task::{Task, TaskView};
use crate::util::{path_join, path_join_spec};
use vstd::pervasive::VecAdditionalExecFns;
use vstd::prelude::*;

verus! {

/// The runtime record of one spawned component.
pub struct WorkerRec {
    pub component: Component,
    pub extra_env: EnvMap,
    /// The worker's process loop is still active.
    pub running: bool,
    /// No further events or retries will occur for this worker.
    pub completed: bool,
}

/// The mathematical shape of a [`WorkerRec`].
pub struct WorkerView {
    pub component: ComponentView,
    pub extra_env: Seq<(Seq<char>, Seq<char>)>,
    pub running: bool,
    pub completed: bool,
}

impl View for WorkerRec {
    type V = WorkerView;

    open spec fn view(&self) -> WorkerView {
        WorkerView {
            component: self.component@,
            extra_env: self.extra_env@,
            running: self.running,
            completed: self.completed,
        }
    }
}

impl DeepView for WorkerRec {
    type V = WorkerView;

    open spec fn deep_view(&self) -> WorkerView {
        self@
    }
}

/// The supervisor's whole state: the project, the worker registry, and
/// the cancellation flag (`active` is false once the run is cancelled).
pub struct Supervisor {
    pub project: Project,
    pub workers: Vec<WorkerRec>,
    pub active: bool,
}

/// The mathematical shape of a [`Supervisor`].
pub struct SupervisorView {
    pub project: ProjectView,
    pub workers: Seq<WorkerView>,
    pub active: bool,
}

impl View for Supervisor {
    type V = SupervisorView;

    open spec fn view(&self) -> SupervisorView {
        SupervisorView {
            project: self.project@,
            workers: self.workers.deep_view(),
            active: self.active,
        }
    }
}

/// A fully prepared command: the line to run, the directory to run it in,
/// and the environment to run it with, every `%VAR%` token expanded.
pub struct PreparedCommand {
    pub line: String,
    pub cwd: String,
    pub env: EnvMap,
}

/// Everything the shell needs to spawn one component: the services to
/// start first, the prepared start command, and the delay before the
/// spawn.
pub struct SpawnPlan {
    pub services: Vec<Service>,
    pub prepared: PreparedCommand,
    pub delay: Option<u64>,
}

/// A respawn decided by the supervisor: the component to launch again
/// under a fresh worker record, with the same call-site environment.
pub struct SpawnRequest {
    pub component: Component,
    pub extra_env: EnvMap,
}

/// The merged environment a component's process runs with: the ambient
/// process environment, overridden by the component's own environment,
/// overridden by the call-site environment (a group's, on a group run).
pub open spec fn worker_env(
    ambient: Seq<(Seq<char>, Seq<char>)>,
    c: ComponentView,
    extra: Seq<(Seq<char>, Seq<char>)>,
) -> Seq<(Seq<char>, Seq<char>)> {
    ambient + c.env + extra
}

/// The merged environment a task command runs with: the ambient process
/// environment overridden by the task's own environment.
pub open spec fn task_env(
    ambient: Seq<(Seq<char>, Seq<char>)>,
    t: TaskView,
) -> Seq<(Seq<char>, Seq<char>)> {
    ambient + t.env
}

/// The working directory of a task: the project root, or the task's
/// `path` override joined onto it, expanded against the merged
/// environment.
pub open spec fn task_cwd(
    p: ProjectView,
    t: TaskView,
    merged: Seq<(Seq<char>, Seq<char>)>,
) -> Seq<char> {
    match t.path {
        Some(sub) => path_join_spec(p.root_path, expand_spec(sub, merged)),
        None => p.root_path,
    }
}

/// Whether a worker's process loop should end: on a kill request always,
/// and on a natural process exit only when the component is not marked
/// `keep_alive`.
pub open spec fn worker_stop_spec(keep_alive: bool, exited: bool, kill_requested: bool) -> bool {
    kill_requested || (exited && !keep_alive)
}

/// Decides whether a worker's process loop ends this round.
pub fn worker_should_stop(keep_alive: bool, exited: bool, kill_requested: bool) -> (r: bool)
    ensures
        r == worker_stop_spec(keep_alive, exited, kill_requested),
{
    kill_requested || (exited && !keep_alive)
}

/// The phases of one worker's process loop: launching the child process,
/// monitoring it, and finished.
#[derive(Clone, Copy, PartialEq, Eq, Structural, Debug)]
pub enum WorkerPhase {
    Launching,
    Monitoring,
    Finished,
}

/// What the worker's shell observed since its last decision: the spawn
/// failed, the spawn succeeded, or one poll round with the child's exit
/// state and the kill channel's state.
#[derive(Clone, Copy, PartialEq, Eq, Structural, Debug)]
pub enum WorkerObservation {
    SpawnFailed,
    SpawnOk,
    Poll { exited: bool, kill_requested: bool },
}

/// One worker decision: the next phase and what to do — report the spawn
/// failure, announce the start, kill the child (idempotent if it already
/// exited), announce the terminal shutdown.
#[derive(Clone, Copy, PartialEq, Eq, Structural, Debug)]
pub struct WorkerDecision {
    pub phase: WorkerPhase,
    pub emit_error: bool,
    pub emit_start: bool,
    pub kill_process: bool,
    pub emit_shutdown: bool,
}

/// The worker lifecycle rule: a failed spawn reports an error and is an
/// immediate terminal shutdown; a successful spawn announces the start;
/// a poll round ends the loop — killing the child and announcing the
/// shutdown — exactly when the stop rule fires; a finished worker does
/// nothing further.
pub open spec fn worker_step_spec(
    keep_alive: bool,
    phase: WorkerPhase,
    obs: WorkerObservation,
) -> WorkerDecision {
    match (phase, obs) {
        (WorkerPhase::Launching, WorkerObservation::SpawnFailed) => WorkerDecision {
            phase: WorkerPhase::Finished,
            emit_error: true,
            emit_start: false,
            kill_process: false,
            emit_shutdown: true,
        },
        (WorkerPhase::Launching, WorkerObservation::SpawnOk) => WorkerDecision {
            phase: WorkerPhase::Monitoring,
            emit_error: false,
            emit_start: true,
            kill_process: false,
            emit_shutdown: false,
        },
        (WorkerPhase::Monitoring, WorkerObservation::Poll { exited, kill_requested }) => {
            if worker_stop_spec(keep_alive, exited, kill_requested) {
                WorkerDecision {
                    phase: WorkerPhase::Finished,
                    emit_error: false,
                    emit_start: false,
                    kill_process: true,
                    emit_shutdown: true,
                }
            } else {
                WorkerDecision {
                    phase: WorkerPhase::Monitoring,
                    emit_error: false,
                    emit_start: false,
                    kill_process: false,
                    emit_shutdown: false,
                }
            }
        },
        _ => WorkerDecision {
            phase,
            emit_error: false,
            emit_start: false,
            kill_process: false,
            emit_shutdown: false,
        },
    }
}

/// Decides one round of a worker's process loop.
pub fn worker_step(keep_alive: bool, phase: WorkerPhase, obs: WorkerObservation) -> (r:
    WorkerDecision)
    ensures
        r == worker_step_spec(keep_alive, phase, obs),
{
    match (phase, obs) {
        (WorkerPhase::Launching, WorkerObservation::SpawnFailed) => WorkerDecision {
            phase: WorkerPhase::Finished,
            emit_error: true,
            emit_start: false,
            kill_process: false,
            emit_shutdown: true,
        },
        (WorkerPhase::Launching, WorkerObservation::SpawnOk) => WorkerDecision {
            phase: WorkerPhase::Monitoring,
            emit_error: false,
            emit_start: true,
            kill_process: false,
            emit_shutdown: false,
        },
        (WorkerPhase::Monitoring, WorkerObservation::Poll { exited, kill_requested }) => {
            if worker_should_stop(keep_alive, exited, kill_requested) {
                WorkerDecision {
                    phase: WorkerPhase::Finished,
                    emit_error: false,
                    emit_start: false,
                    kill_process: true,
                    emit_shutdown: true,
                }
            } else {
                WorkerDecision {
                    phase: WorkerPhase::Monitoring,
                    emit_error: false,
                    emit_start: false,
                    kill_process: false,
                    emit_shutdown: false,
                }
            }
        },
        _ => WorkerDecision {
            phase,
            emit_error: false,
            emit_start: false,
            kill_process: false,
            emit_shutdown: false,
        },
    }
}

/// The worker's whole run over a sequence of observations: the final
/// phase and how many start and shutdown events were announced.
pub open spec fn worker_run_spec(
    keep_alive: bool,
    phase: WorkerPhase,
    obss: Seq<WorkerObservation>,
) -> (WorkerPhase, nat, nat)
    decreases obss.len(),
{
    if obss.len() == 0 {
        (phase, 0, 0)
    } else {
        let d = worker_step_spec(keep_alive, phase, obss[0]);
        let rest = worker_run_spec(keep_alive, d.phase, obss.drop_first());
        (
            rest.0,
            rest.1 + (if d.emit_start {
                1nat
            } else {
                0nat
            }),
            rest.2 + (if d.emit_shutdown {
                1nat
            } else {
                0nat
            }),
        )
    }
}

/// Whatever its process does, one worker run announces at most one start
/// and exactly one terminal shutdown — the shutdown exactly when the
/// loop finishes, never before, never twice.
pub proof fn lemma_worker_one_start_one_shutdown(
    keep_alive: bool,
    obss: Seq<WorkerObservation>,
)
    ensures
        ({
            let r = worker_run_spec(keep_alive, WorkerPhase::Launching, obss);
            &&& r.1 <= 1
            &&& r.2 <= 1
            &&& (r.0 is Finished <==> r.2 == 1)
        }),
{
    lemma_worker_run_from(keep_alive, WorkerPhase::Launching, obss);
}

/// The run bookkeeping from any phase: a run from a finished phase does
/// nothing, and a run announces its one shutdown exactly when it reaches
/// the finished phase.
proof fn lemma_worker_run_from(
    keep_alive: bool,
    phase: WorkerPhase,
    obss: Seq<WorkerObservation>,
)
    ensures
        ({
            let r = worker_run_spec(keep_alive, phase, obss);
            &&& r.1 <= 1
            &&& r.2 <= 1
            &&& (phase is Finished ==> r.0 is Finished && r.1 == 0 && r.2 == 0)
            &&& (phase is Monitoring ==> r.1 == 0)
            &&& ((r.0 is Finished && !(phase is Finished)) <==> r.2 == 1)
            &&& (!(r.0 is Finished) ==> r.2 == 0)
        }),
    decreases obss.len(),
{
    if obss.len() > 0 {
        let d = worker_step_spec(keep_alive, phase, obss[0]);
        lemma_worker_run_from(keep_alive, d.phase, obss.drop_first());
    }
}

/// Whether an exited worker is respawned: only while the run is active,
/// only for a component with `retry` set, and only when the worker has
/// not already been marked completed.
pub open spec fn retry_decision(s: SupervisorView, i: int) -> bool {
    s.active && s.workers[i].component.retry && !s.workers[i].completed
}

/// A worker record marked finished.
pub open spec fn finished_worker(w: WorkerView) -> WorkerView {
    WorkerView { running: false, completed: true, ..w }
}

/// A fresh worker record for a respawn of the same component.
pub open spec fn fresh_worker(w: WorkerView) -> WorkerView {
    WorkerView { running: true, completed: false, ..w }
}

/// What a terminal shutdown event does to the state: a retried worker is
/// retired and a fresh record for the same component is registered; any
/// other worker is marked finished.  The second component of the result
/// is the respawn request, when there is one.
pub open spec fn on_shutdown_spec(s: SupervisorView, i: int) -> (SupervisorView, Option<
    WorkerView,
>) {
    if retry_decision(s, i) {
        let retired = s.workers.update(i, finished_worker(s.workers[i]));
        (
            SupervisorView { workers: retired.push(fresh_worker(s.workers[i])), ..s },
            Some(fresh_worker(s.workers[i])),
        )
    } else {
        (SupervisorView { workers: s.workers.update(i, finished_worker(s.workers[i])), ..s }, None)
    }
}

/// What a closed or failed event channel does to the state: the worker is
/// marked finished without a retry, whatever its flags.
pub open spec fn on_closed_spec(s: SupervisorView, i: int) -> SupervisorView {
    SupervisorView { workers: s.workers.update(i, finished_worker(s.workers[i])), ..s }
}

/// What cancellation does to the state: the run stops being active and
/// every worker is marked completed, so no retry is honoured afterwards.
pub open spec fn cancel_spec(s: SupervisorView) -> SupervisorView {
    SupervisorView {
        active: false,
        workers: s.workers.map_values(|w: WorkerView| WorkerView { completed: true, ..w }),
        ..s
    }
}

/// How many workers are currently running.
pub open spec fn count_running(ws: Seq<WorkerView>) -> nat
    decreases ws.len(),
{
    if ws.len() == 0 {
        0
    } else {
        count_running(ws.drop_last()) + (if ws.last().running {
            1nat
        } else {
            0nat
        })
    }
}

/// Whether some worker references the given service name.
pub open spec fn service_referenced(ws: Seq<WorkerView>, name: Seq<char>) -> bool {
    exists|j: int, k: int|
        0 <= j < ws.len() && 0 <= k < ws[j].component.services.len() && #[trigger] ws[j].component.services[k]
            == name
}

impl Supervisor {
    /// A supervisor over the given project, with no workers yet and the
    /// run active.
    pub fn new(project: &Project) -> (r: Self)
        ensures
            r@.project == project@,
            r@.workers.len() == 0,
            r@.active == true,
    {
        let r = Supervisor { project: project.clone(), workers: Vec::new(), active: true };
        proof {
            assert(r@.workers =~= Seq::<WorkerView>::empty());
        }
        r
    }

    /// The launch sequence for the services a component depends on,
    /// resolved by name in declared order.
    pub fn run_component_services(&self, component: &Component) -> (r: ServiceLauncher)
        ensures
            r.services.deep_view() == services_of(self@.project, component@.services),
    {
        ServiceLauncher::new(self.project.resolve_services(&component.services))
    }

    /// The teardown sequence for the services a component depends on,
    /// resolved by name in declared order.
    pub fn shutdown_component_services(&self, component: &Component) -> (r: ServiceTerminator)
        ensures
            r.services.deep_view() == services_of(self@.project, component@.services),
    {
        ServiceTerminator::new(self.project.resolve_services(&component.services))
    }

    /// Prepares one command of a task: the line and every value of the
    /// merged environment are expanded, and the task's optional `path`
    /// override picks the working directory under the project root.  The
    /// ambient process environment is supplied by the caller; the task's
    /// own environment overrides it.
    pub fn prepare_task_command(&self, task: &Task, cmd: &String, ambient: &EnvMap) -> (r:
        PreparedCommand)
        ensures
            r.line@ == expand_spec(cmd@, task_env(ambient@, task@)),
            r.cwd@ == task_cwd(self@.project, task@, task_env(ambient@, task@)),
            r.env@ == expand_all_spec(task_env(ambient@, task@)),
    {
        let mut merged = ambient.clone();
        merged.extend(&task.env);
        let cwd = match &task.path {
            Some(sub) => {
                let expanded = expand_env(sub.as_str(), &merged);
                path_join(self.project.root_path.as_str(), expanded.as_str())
            },
            None => self.project.root_path.clone(),
        };
        let line = expand_env(cmd.as_str(), &merged);
        let env = merged.expand_values();
        PreparedCommand { line, cwd, env }
    }

    /// Everything the shell needs to spawn the component, without
    /// touching the registry: the resolved services, the prepared start
    /// command, and the start delay.  The environment is layered ambient
    /// < component < call-site and each value expanded against the merged
    /// whole; the working directory is the component's path under the
    /// project root, itself expanded.  Used directly for a respawn, whose
    /// fresh worker record is already registered.
    pub fn prepare_spawn(
        &self,
        component: &Component,
        extra_env: &EnvMap,
        ambient: &EnvMap,
    ) -> (r: SpawnPlan)
        ensures
            r.services.deep_view() == services_of(self@.project, component@.services),
            r.prepared.line@ == expand_spec(
                component@.start,
                worker_env(ambient@, component@, extra_env@),
            ),
            r.prepared.cwd@ == path_join_spec(
                self@.project.root_path,
                expand_spec(component_path(component@), worker_env(ambient@, component@, extra_env@)),
            ),
            r.prepared.env@ == expand_all_spec(worker_env(ambient@, component@, extra_env@)),
            r.delay == component@.delay,
    {
        let services = self.project.resolve_services(&component.services);
        let mut merged = ambient.clone();
        merged.extend(&component.env);
        merged.extend(extra_env);
        proof {
            assert(merged@ =~= worker_env(ambient@, component@, extra_env@));
        }
        let path = component.get_path();
        let expanded_path = expand_env(path.as_str(), &merged);
        let cwd = path_join(self.project.root_path.as_str(), expanded_path.as_str());
        let line = expand_env(component.start.as_str(), &merged);
        let env = merged.expand_values();
        SpawnPlan {
            services,
            prepared: PreparedCommand { line, cwd, env },
            delay: component.delay,
        }
    }

    /// Registers a fresh worker for the component and hands back the
    /// spawn plan for it, as [`Supervisor::prepare_spawn`] computes it.
    pub fn spawn_component(
        &mut self,
        component: &Component,
        extra_env: &EnvMap,
        ambient: &EnvMap,
    ) -> (r: SpawnPlan)
        ensures
            final(self)@ == (SupervisorView {
                workers: old(self)@.workers.push(
                    WorkerView {
                        component: component@,
                        extra_env: extra_env@,
                        running: true,
                        completed: false,
                    },
                ),
                ..old(self)@
            }),
            r.services.deep_view() == services_of(old(self)@.project, component@.services),
            r.prepared.line@ == expand_spec(
                component@.start,
                worker_env(ambient@, component@, extra_env@),
            ),
            r.prepared.cwd@ == path_join_spec(
                old(self)@.project.root_path,
                expand_spec(component_path(component@), worker_env(ambient@, component@, extra_env@)),
            ),
            r.prepared.env@ == expand_all_spec(worker_env(ambient@, component@, extra_env@)),
            r.delay == component@.delay,
    {
        let plan = self.prepare_spawn(component, extra_env, ambient);
        let ghost before = self@.workers;
        self.workers.push(
            WorkerRec {
                component: component.clone(),
                extra_env: extra_env.clone(),
                running: true,
                completed: false,
            },
        );
        proof {
            assert(self@.workers =~= before.push(
                WorkerView {
                    component: component@,
                    extra_env: extra_env@,
                    running: true,
                    completed: false,
                },
            ));
        }
        plan
    }

    /// Handles a terminal shutdown event of the worker at `index`.  When
    /// the run is active, the component asks for retries, and the worker
    /// was not already marked completed, the worker is retired, a fresh
    /// record is registered, and the respawn request is returned — exactly
    /// one respawn per exit.  Otherwise the worker is marked finished and
    /// nothing is respawned.
    pub fn handle_shutdown(&mut self, index: usize) -> (r: Option<SpawnRequest>)
        requires
            index < old(self)@.workers.len(),
        ensures
            final(self)@ == on_shutdown_spec(old(self)@, index as int).0,
            match r {
                Some(req) => on_shutdown_spec(old(self)@, index as int).1 == Some(
                    WorkerView {
                        component: req.component@,
                        extra_env: req.extra_env@,
                        running: true,
                        completed: false,
                    },
                ),
                None => on_shutdown_spec(old(self)@, index as int).1 is None,
            },
    {
        let ghost pre = self@;
        let retry = self.active && self.workers[index].component.retry
            && !self.workers[index].completed;
        let component = self.workers[index].component.clone();
        let extra_env = self.workers[index].extra_env.clone();
        self.workers.set(index, WorkerRec { component, extra_env, running: false, completed: true });
        proof {
            assert(self@.workers =~= pre.workers.update(
                index as int,
                finished_worker(pre.workers[index as int]),
            ));
        }
        if retry {
            let fresh_component = self.workers[index].component.clone();
            let fresh_env = self.workers[index].extra_env.clone();
            let req_component = fresh_component.clone();
            let req_env = fresh_env.clone();
            let ghost retired = self@.workers;
            self.workers.push(
                WorkerRec {
                    component: fresh_component,
                    extra_env: fresh_env,
                    running: true,
                    completed: false,
                },
            );
            proof {
                assert(self@.workers =~= retired.push(fresh_worker(pre.workers[index as int])));
            }
            Some(SpawnRequest { component: req_component, extra_env: req_env })
        } else {
            None
        }
    }

    /// Handles a worker whose event channel closed or failed: the worker
    /// is marked finished and never retried; the caller forwards a
    /// best-effort kill, which is idempotent.
    pub fn handle_closed(&mut self, index: usize)
        requires
            index < old(self)@.workers.len(),
        ensures
            final(self)@ == on_closed_spec(old(self)@, index as int),
    {
        let ghost pre = self@;
        let component = self.workers[index].component.clone();
        let extra_env = self.workers[index].extra_env.clone();
        self.workers.set(index, WorkerRec { component, extra_env, running: false, completed: true });
        proof {
            assert(self@.workers =~= pre.workers.update(
                index as int,
                finished_worker(pre.workers[index as int]),
            ));
        }
    }

    /// Cancels the run: the active flag is cleared, every worker is
    /// marked completed so that no retry is honoured afterwards, and the
    /// indices of the workers that were running — each exactly once, in
    /// order — are returned so the caller can send one kill signal apiece.
    pub fn cancel(&mut self) -> (kills: Vec<usize>)
        ensures
            final(self)@ == cancel_spec(old(self)@),
            kills@.len() == count_running(old(self)@.workers),
            forall|a: int|
                0 <= a < kills@.len() ==> #[trigger] kills@[a] < old(self)@.workers.len() && old(
                    self,
                )@.workers[kills@[a] as int].running,
            forall|a: int, b: int| 0 <= a < b < kills@.len() ==> kills@[a] < kills@[b],
            forall|j: int|
                0 <= j < old(self)@.workers.len() && old(self)@.workers[j].running
                    ==> kills@.contains(j as usize),
    {
        self.active = false;
        let ghost pre = self@.workers;
        let mut kills: Vec<usize> = Vec::new();
        let mut i: usize = 0;
        proof {
            assert(pre.take(0) =~= Seq::<WorkerView>::empty());
        }
        while i < self.workers.len()
            invariant
                i <= self.workers.len(),
                self.workers.len() == pre.len(),
                self@.workers.len() == pre.len(),
                self@.project == old(self)@.project,
                self@.active == false,
                forall|j: int|
                    0 <= j < i ==> #[trigger] self@.workers[j] == (WorkerView {
                        completed: true,
                        ..pre[j]
                    }),
                forall|j: int| i <= j < pre.len() ==> #[trigger] self@.workers[j] == pre[j],
                kills@.len() == count_running(pre.take(i as int)),
                forall|a: int|
                    0 <= a < kills@.len() ==> #[trigger] kills@[a] < i && pre[kills@[a] as int].running,
                forall|a: int, b: int| 0 <= a < b < kills@.len() ==> kills@[a] < kills@[b],
                forall|j: int| 0 <= j < i && pre[j].running ==> kills@.contains(j as usize),
            decreases self.workers.len() - i,
        {
            let ghost pre_kills = kills@;
            let ghost entry_ws = self@.workers;
            let ghost entry_rec = self@.workers[i as int];
            proof {
                assert(entry_rec == pre[i as int]);
            }
            let running = self.workers[i].running;
            if running {
                kills.push(i);
            }
            let component = self.workers[i].component.clone();
            let extra_env = self.workers[i].extra_env.clone();
            self.workers.set(i, WorkerRec { component, extra_env, running, completed: true });
            proof {
                assert(pre.take(i + 1).drop_last() =~= pre.take(i as int));
                assert(pre.take(i + 1).last() == pre[i as int]);
                if running {
                    assert(kills@ =~= pre_kills.push(i));
                }
                assert(self@.workers[i as int].component == entry_rec.component);
                assert(self@.workers[i as int].extra_env == entry_rec.extra_env);
                assert(self@.workers[i as int] == (WorkerView { completed: true, ..pre[i as int] }));
                assert forall|j: int| 0 <= j < i implies #[trigger] self@.workers[j] == (WorkerView {
                    completed: true,
                    ..pre[j]
                }) by {
                    assert(entry_ws[j] == (WorkerView { completed: true, ..pre[j] }));
                    assert(self@.workers[j] == entry_ws[j]);
                }
                assert forall|j: int|
                    i + 1 <= j < pre.len() implies #[trigger] self@.workers[j] == pre[j] by {
                    assert(entry_ws[j] == pre[j]);
                    assert(self@.workers[j] == entry_ws[j]);
                }
                assert forall|j: int|
                    0 <= j < i + 1 && pre[j].running implies kills@.contains(j as usize) by {
                    if j < i {
                        assert(pre_kills.contains(j as usize));
                        if running {
                            crate::util::lemma_contains_after_push(pre_kills, i, j as usize);
                        }
                    } else {
                        assert(kills@.last() == i as usize);
                    }
                }
            }
            i = i + 1;
        }
        proof {
            assert(pre.take(pre.len() as int) =~= pre);
            let target = cancel_spec(old(self)@).workers;
            assert(target.len() == pre.len());
            assert forall|j: int| 0 <= j < pre.len() implies self@.workers[j] == #[trigger] target[j] by {
                assert(target[j] == (WorkerView { completed: true, ..pre[j] }));
            }
            assert(self@.workers =~= target);
            assert(self@.project == old(self)@.project);
            assert(self@.active == cancel_spec(old(self)@).active);
            assert(self@ == cancel_spec(old(self)@));
        }
        kills
    }

    /// Whether the run is over: there is at least one worker and every
    /// worker has completed.
    pub fn all_completed(&self) -> (r: bool)
        ensures
            r == (self@.workers.len() > 0 && forall|j: int|
                0 <= j < self@.workers.len() ==> (#[trigger] self@.workers[j]).completed),
    {
        if self.workers.len() == 0 {
            return false;
        }
        let mut i: usize = 0;
        while i < self.workers.len()
            invariant
                i <= self.workers.len(),
                forall|j: int| 0 <= j < i ==> (#[trigger] self@.workers[j]).completed,
            decreases self.workers.len() - i,
        {
            if !self.workers[i].completed {
                proof {
                    assert(!self@.workers[i as int].completed);
                }
                return false;
            }
            i = i + 1;
        }
        true
    }

    /// Whether any worker is currently running.
    pub fn any_running(&self) -> (r: bool)
        ensures
            r == exists|j: int|
                0 <= j < self@.workers.len() && (#[trigger] self@.workers[j]).running,
    {
        let mut i: usize = 0;
        while i < self.workers.len()
            invariant
                i <= self.workers.len(),
                forall|j: int| 0 <= j < i ==> !(#[trigger] self@.workers[j]).running,
            decreases self.workers.len() - i,
        {
            if self.workers[i].running {
                proof {
                    assert(self@.workers[i as int].running);
                }
                return true;
            }
            i = i + 1;
        }
        false
    }

    /// The unique set of service names referenced by any worker that ever
    /// ran, in first-reference order: each name appears exactly once,
    /// however many components shared it, so each service is stopped
    /// exactly once at shutdown.
    pub fn shutdown_service_names(&self) -> (r: Vec<String>)
        ensures
            forall|a: int|
                0 <= a < r.deep_view().len() ==> service_referenced(
                    self@.workers,
                    #[trigger] r.deep_view()[a],
                ),
            forall|a: int, b: int|
                0 <= a < b < r.deep_view().len() ==> r.deep_view()[a] != r.deep_view()[b],
            forall|j: int, k: int|
                0 <= j < self@.workers.len() && 0 <= k < self@.workers[j].component.services.len()
                    ==> r.deep_view().contains(#[trigger] self@.workers[j].component.services[k]),
    {
        let mut out: Vec<String> = Vec::new();
        let mut i: usize = 0;
        while i < self.workers.len()
            invariant
                i <= self.workers.len(),
                forall|a: int|
                    0 <= a < out.deep_view().len() ==> service_referenced(
                        self@.workers,
                        #[trigger] out.deep_view()[a],
                    ),
                forall|a: int, b: int|
                    0 <= a < b < out.deep_view().len() ==> out.deep_view()[a] != out.deep_view()[b],
                forall|j: int, k: int|
                    0 <= j < i && 0 <= k < self@.workers[j].component.services.len()
                        ==> out.deep_view().contains(
                        #[trigger] self@.workers[j].component.services[k],
                    ),
            decreases self.workers.len() - i,
        {
            let w = &self.workers[i];
            let mut k: usize = 0;
            while k < w.component.services.len()
                invariant
                    i < self.workers.len(),
                    k <= w.component.services.len(),
                    w == &self.workers[i as int],
                    forall|a: int|
                        0 <= a < out.deep_view().len() ==> service_referenced(
                            self@.workers,
                            #[trigger] out.deep_view()[a],
                        ),
                    forall|a: int, b: int|
                        0 <= a < b < out.deep_view().len() ==> out.deep_view()[a]
                            != out.deep_view()[b],
                    forall|j: int, l: int|
                        0 <= j < i && 0 <= l < self@.workers[j].component.services.len()
                            ==> out.deep_view().contains(
                            #[trigger] self@.workers[j].component.services[l],
                        ),
                    forall|l: int|
                        0 <= l < k ==> out.deep_view().contains(
                            #[trigger] self@.workers[i as int].component.services[l],
                        ),
                decreases w.component.services.len() - k,
            {
                let ghost name = self@.workers[i as int].component.services[k as int];
                proof {
                    assert((w.component.services@[k as int])@ == name);
                }
                let seen = crate::component::contains_string(&out, &w.component.services[k]);
                if !seen {
                    let ghost before = out.deep_view();
                    out.push(w.component.services[k].clone());
                    proof {
                        assert(out.deep_view() =~= before.push(name));
                        assert(out.deep_view().last() == name);
                        assert(out.deep_view().contains(name));
                        assert(service_referenced(self@.workers, name)) by {
                            assert(self@.workers[i as int].component.services[k as int] == name);
                        }
                        assert forall|a: int|
                            0 <= a < out.deep_view().len() implies service_referenced(
                            self@.workers,
                            #[trigger] out.deep_view()[a],
                        ) by {
                            if a < before.len() {
                                assert(out.deep_view()[a] == before[a]);
                            }
                        }
                        assert forall|j2: int, l2: int|
                            0 <= j2 < i && 0 <= l2
                                < self@.workers[j2].component.services.len() implies out.deep_view().contains(
                            #[trigger] self@.workers[j2].component.services[l2],
                        ) by {
                            crate::util::lemma_contains_after_push(
                                before,
                                name,
                                self@.workers[j2].component.services[l2],
                            );
                        }
                        assert forall|l: int|
                            0 <= l < k implies out.deep_view().contains(
                            #[trigger] self@.workers[i as int].component.services[l],
                        ) by {
                            crate::util::lemma_contains_after_push(
                                before,
                                name,
                                self@.workers[i as int].component.services[l],
                            );
                        }
                    }
                }
                proof {
                    assert(out.deep_view().contains(name));
                }
                k = k + 1;
            }
            i = i + 1;
        }
        out
    }
}


/// One event the run loop can observe, as the trace model sees it: a
/// worker's terminal process exit, a worker's event channel closing,
/// cancellation of the whole run, or anything informational (output
/// lines, start notices, service notices, errors), which never changes
/// the state.
pub enum SupvEvent {
    Exited { index: int },
    Closed { index: int },
    Cancelled,
    Informational,
}

/// What one event does to the supervisor state, and which respawns it
/// issues.
pub open spec fn step_spec(s: SupervisorView, e: SupvEvent) -> (SupervisorView, Seq<WorkerView>) {
    match e {
        SupvEvent::Exited { index } => {
            if 0 <= index < s.workers.len() {
                let r = on_shutdown_spec(s, index);
                (
                    r.0,
                    match r.1 {
                        Some(w) => seq![w],
                        None => Seq::<WorkerView>::empty(),
                    },
                )
            } else {
                (s, Seq::<WorkerView>::empty())
            }
        },
        SupvEvent::Closed { index } => {
            if 0 <= index < s.workers.len() {
                (on_closed_spec(s, index), Seq::<WorkerView>::empty())
            } else {
                (s, Seq::<WorkerView>::empty())
            }
        },
        SupvEvent::Cancelled => (cancel_spec(s), Seq::<WorkerView>::empty()),
        SupvEvent::Informational => (s, Seq::<WorkerView>::empty()),
    }
}

/// A whole run of the event loop: the final state and every respawn
/// issued along the way, in order.
pub open spec fn run_spec(s: SupervisorView, evs: Seq<SupvEvent>) -> (SupervisorView, Seq<
    WorkerView,
>)
    decreases evs.len(),
{
    if evs.len() == 0 {
        (s, Seq::<WorkerView>::empty())
    } else {
        let first = step_spec(s, evs[0]);
        let rest = run_spec(first.0, evs.drop_first());
        (rest.0, first.1 + rest.1)
    }
}

/// For a component with `retry` set, a process exit while the run is
/// active and the worker not yet marked completed is answered by exactly
/// one respawn of that component with the same call-site environment,
/// under one fresh worker record; once the run is cancelled, no exit is
/// answered by a respawn.
pub proof fn lemma_retry_exactly_one_respawn(s: SupervisorView, index: int)
    requires
        0 <= index < s.workers.len(),
    ensures
        (s.active && s.workers[index].component.retry && !s.workers[index].completed) ==> {
            let r = step_spec(s, SupvEvent::Exited { index });
            &&& r.1.len() == 1
            &&& r.1[0].component == s.workers[index].component
            &&& r.1[0].extra_env == s.workers[index].extra_env
            &&& r.0.workers.len() == s.workers.len() + 1
            &&& r.0.workers.last() == fresh_worker(s.workers[index])
        },
        !s.active ==> step_spec(s, SupvEvent::Exited { index }).1.len() == 0,
{
}

/// An exit of a worker whose component does not ask for retries is
/// terminal: the worker is marked completed and nothing is respawned.
pub proof fn lemma_exit_without_retry_is_terminal(s: SupervisorView, index: int)
    requires
        0 <= index < s.workers.len(),
        !s.workers[index].component.retry,
    ensures
        step_spec(s, SupvEvent::Exited { index }).1.len() == 0,
        step_spec(s, SupvEvent::Exited { index }).0.workers[index].completed,
{
}

/// Every respawn a single step issues is for a component with `retry`
/// set.
proof fn lemma_step_respawns_need_retry(s: SupervisorView, e: SupvEvent)
    ensures
        forall|a: int|
            0 <= a < step_spec(s, e).1.len() ==> (#[trigger] step_spec(s, e).1[a]).component.retry,
{
}

/// Over any sequence of events, every respawn issued is for a component
/// with `retry` set: a component with `retry` unset is spawned only by
/// its one registration and never again.
pub proof fn lemma_no_respawn_without_retry(s: SupervisorView, evs: Seq<SupvEvent>)
    ensures
        forall|a: int|
            0 <= a < run_spec(s, evs).1.len() ==> (#[trigger] run_spec(s, evs).1[a]).component.retry,
    decreases evs.len(),
{
    if evs.len() > 0 {
        let first = step_spec(s, evs[0]);
        lemma_step_respawns_need_retry(s, evs[0]);
        lemma_no_respawn_without_retry(first.0, evs.drop_first());
        let rest = run_spec(first.0, evs.drop_first());
        assert forall|a: int|
            0 <= a < run_spec(s, evs).1.len() implies (#[trigger] run_spec(s, evs).1[a]).component.retry by {
            if a < first.1.len() {
                assert(run_spec(s, evs).1[a] == first.1[a]);
            } else {
                assert(run_spec(s, evs).1[a] == rest.1[a - first.1.len()]);
            }
        }
    }
}

/// One step never un-completes a worker and never removes one.
proof fn lemma_step_preserves_completed(s: SupervisorView, e: SupvEvent, j: int)
    requires
        0 <= j < s.workers.len(),
        s.workers[j].completed,
    ensures
        step_spec(s, e).0.workers.len() >= s.workers.len(),
        step_spec(s, e).0.workers[j].completed,
{
    if e is Cancelled {
        assert(cancel_spec(s).workers[j] == (WorkerView { completed: true, ..s.workers[j] }));
    }
}

/// A worker once marked completed stays completed through any further
/// events: its shutdown is terminal.
pub proof fn lemma_completed_is_stable(s: SupervisorView, evs: Seq<SupvEvent>, j: int)
    requires
        0 <= j < s.workers.len(),
        s.workers[j].completed,
    ensures
        run_spec(s, evs).0.workers.len() >= s.workers.len(),
        run_spec(s, evs).0.workers[j].completed,
    decreases evs.len(),
{
    if evs.len() > 0 {
        lemma_step_preserves_completed(s, evs[0], j);
        lemma_completed_is_stable(step_spec(s, evs[0]).0, evs.drop_first(), j);
    }
}

/// Once the run is cancelled nothing is respawned, whatever the
/// components' `retry` flags, and the run never becomes active again.
pub proof fn lemma_no_retries_after_cancel(s: SupervisorView, evs: Seq<SupvEvent>)
    requires
        !s.active,
    ensures
        run_spec(s, evs).1.len() == 0,
        !run_spec(s, evs).0.active,
    decreases evs.len(),
{
    if evs.len() > 0 {
        lemma_no_retries_after_cancel(step_spec(s, evs[0]).0, evs.drop_first());
    }
}

} // verus!
