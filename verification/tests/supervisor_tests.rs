use conductor::component::Component;
use conductor::env::EnvMap;
use conductor::project::Project;
use conductor::service::Service;
use conductor::supervisor::{
    worker_should_stop, worker_step, Supervisor, WorkerObservation, WorkerPhase,
};
use conductor::system::{ComponentEvent, ComponentEventBody};
use conductor::task::Task;

fn component(name: &str) -> Component {
    let mut c = Component::default();
    c.name = name.to_string();
    c
}

fn env_of(pairs: &[(&str, &str)]) -> EnvMap {
    let mut e = EnvMap::new();
    for (k, v) in pairs {
        e.set(k.to_string(), v.to_string());
    }
    e
}

#[test]
fn retry_component_respawns_exactly_once_per_exit() {
    let p = Project::default();
    let mut supr = Supervisor::new(&p);
    let mut web = component("web");
    web.retry = true;
    let _ = supr.spawn_component(&web, &EnvMap::new(), &EnvMap::new());
    assert_eq!(supr.workers.len(), 1);
    let req = supr.handle_shutdown(0).expect("a retrying exit respawns");
    assert_eq!(req.component.name, "web");
    assert_eq!(supr.workers.len(), 2);
    assert!(supr.workers[0].completed);
    assert!(supr.workers[1].running);
    assert!(!supr.workers[1].completed);
}

#[test]
fn non_retry_component_shuts_down_terminally() {
    let p = Project::default();
    let mut supr = Supervisor::new(&p);
    let web = component("web");
    let _ = supr.spawn_component(&web, &EnvMap::new(), &EnvMap::new());
    assert!(supr.handle_shutdown(0).is_none());
    assert_eq!(supr.workers.len(), 1);
    assert!(supr.workers[0].completed);
    assert!(supr.all_completed());
}

#[test]
fn cancel_kills_each_running_worker_once_and_stops_retries() {
    let p = Project::default();
    let mut supr = Supervisor::new(&p);
    let mut web = component("web");
    web.retry = true;
    let mut api = component("api");
    api.retry = true;
    let _ = supr.spawn_component(&web, &EnvMap::new(), &EnvMap::new());
    let _ = supr.spawn_component(&api, &EnvMap::new(), &EnvMap::new());
    let kills = supr.cancel();
    assert_eq!(kills, vec![0, 1]);
    assert!(!supr.active);
    assert!(supr.all_completed());
    assert!(supr.handle_shutdown(0).is_none());
    assert!(supr.handle_shutdown(1).is_none());
    assert_eq!(supr.workers.len(), 2);
}

#[test]
fn closed_channel_marks_worker_finished() {
    let p = Project::default();
    let mut supr = Supervisor::new(&p);
    let _ = supr.spawn_component(&component("web"), &EnvMap::new(), &EnvMap::new());
    assert!(supr.any_running());
    supr.handle_closed(0);
    assert!(!supr.any_running());
    assert!(supr.all_completed());
}

#[test]
fn shared_service_is_stopped_exactly_once() {
    let mut p = Project::default();
    let mut cache = Service::default();
    cache.name = String::from("cache");
    p.services = vec![cache];
    let mut supr = Supervisor::new(&p);
    let mut web = component("web");
    web.services = vec![String::from("cache")];
    let mut api = component("api");
    api.services = vec![String::from("cache"), String::from("queue")];
    let _ = supr.spawn_component(&web, &EnvMap::new(), &EnvMap::new());
    let _ = supr.spawn_component(&api, &EnvMap::new(), &EnvMap::new());
    let names = supr.shutdown_service_names();
    assert_eq!(names, vec![String::from("cache"), String::from("queue")]);
}

#[test]
fn spawn_plan_resolves_services_and_delay() {
    let mut p = Project::default();
    let mut db = Service::default();
    db.name = String::from("db");
    db.container = Some(String::from("postgres-14"));
    p.services = vec![db];
    let mut supr = Supervisor::new(&p);
    let mut web = component("web");
    web.services = vec![String::from("db"), String::from("ghost")];
    web.delay = Some(3);
    web.start = String::from("cargo run");
    let plan = supr.spawn_component(&web, &EnvMap::new(), &EnvMap::new());
    assert_eq!(plan.delay, Some(3));
    assert_eq!(plan.services.len(), 1);
    assert_eq!(plan.services[0].get_container_name(), "postgres-14");
    assert_eq!(plan.prepared.line, "cargo run");
}

#[test]
fn spawn_env_is_layered_and_expanded() {
    let mut p = Project::default();
    p.root_path = String::from("/project");
    let mut supr = Supervisor::new(&p);
    let mut web = component("web");
    web.env = env_of(&[("FOO", "%BAR%baz"), ("AMB", "component")]);
    let ambient = env_of(&[("BAR", "qux"), ("AMB", "ambient"), ("EXT", "ambient")]);
    let extra = env_of(&[("EXT", "group")]);
    let plan = supr.spawn_component(&web, &extra, &ambient);
    assert_eq!(plan.prepared.env.get("FOO"), Some(String::from("quxbaz")));
    assert_eq!(plan.prepared.env.get("AMB"), Some(String::from("component")));
    assert_eq!(plan.prepared.env.get("EXT"), Some(String::from("group")));
    assert_eq!(plan.prepared.cwd, "/project/web");
}

#[test]
fn spawn_cwd_expands_component_path() {
    let mut p = Project::default();
    p.root_path = String::from("/project");
    let mut supr = Supervisor::new(&p);
    let mut web = component("web");
    web.path = Some(String::from("%DIR%"));
    let ambient = env_of(&[("DIR", "frontend")]);
    let plan = supr.spawn_component(&web, &EnvMap::new(), &ambient);
    assert_eq!(plan.prepared.cwd, "/project/frontend");
}

#[test]
fn task_command_preparation_expands_and_overrides() {
    let mut p = Project::default();
    p.root_path = String::from("/project");
    let supr = Supervisor::new(&p);
    let mut t = Task::default();
    t.name = String::from("migrate");
    t.path = Some(String::from("db"));
    t.env = env_of(&[("MODE", "task")]);
    let ambient = env_of(&[("MODE", "ambient"), ("N", "5")]);
    let prepared = supr.prepare_task_command(&t, &String::from("run %N% times"), &ambient);
    assert_eq!(prepared.line, "run 5 times");
    assert_eq!(prepared.cwd, "/project/db");
    assert_eq!(prepared.env.get("MODE"), Some(String::from("task")));
}

#[test]
fn worker_stop_rule() {
    assert!(worker_should_stop(false, true, false));
    assert!(worker_should_stop(true, false, true));
    assert!(worker_should_stop(false, false, true));
    assert!(!worker_should_stop(true, true, false));
    assert!(!worker_should_stop(false, false, false));
}

#[test]
fn worker_lifecycle_emits_one_start_and_one_shutdown() {
    let d = worker_step(false, WorkerPhase::Launching, WorkerObservation::SpawnOk);
    assert!(d.emit_start && !d.emit_shutdown && !d.emit_error);
    assert_eq!(d.phase, WorkerPhase::Monitoring);
    let quiet = worker_step(
        false,
        d.phase,
        WorkerObservation::Poll { exited: false, kill_requested: false },
    );
    assert!(!quiet.emit_start && !quiet.emit_shutdown);
    assert_eq!(quiet.phase, WorkerPhase::Monitoring);
    let done = worker_step(
        false,
        quiet.phase,
        WorkerObservation::Poll { exited: true, kill_requested: false },
    );
    assert!(done.kill_process && done.emit_shutdown && !done.emit_start);
    assert_eq!(done.phase, WorkerPhase::Finished);
    let after = worker_step(
        false,
        done.phase,
        WorkerObservation::Poll { exited: true, kill_requested: true },
    );
    assert!(!after.emit_shutdown && !after.kill_process);
}

#[test]
fn keep_alive_worker_survives_natural_exit_until_killed() {
    let d = worker_step(
        true,
        WorkerPhase::Monitoring,
        WorkerObservation::Poll { exited: true, kill_requested: false },
    );
    assert_eq!(d.phase, WorkerPhase::Monitoring);
    assert!(!d.emit_shutdown);
    let killed = worker_step(
        true,
        d.phase,
        WorkerObservation::Poll { exited: true, kill_requested: true },
    );
    assert_eq!(killed.phase, WorkerPhase::Finished);
    assert!(killed.emit_shutdown);
}

#[test]
fn failed_spawn_is_error_and_immediate_shutdown() {
    let d = worker_step(false, WorkerPhase::Launching, WorkerObservation::SpawnFailed);
    assert!(d.emit_error && d.emit_shutdown && !d.emit_start);
    assert_eq!(d.phase, WorkerPhase::Finished);
}

#[test]
fn component_events_carry_component_and_body() {
    let web = component("web");
    let e = ComponentEvent::output(web.clone(), String::from("hello"));
    assert_eq!(e.component.name, "web");
    assert!(matches!(e.body, ComponentEventBody::Output { ref body } if body == "hello"));
    let e = ComponentEvent::start(web.clone());
    assert!(matches!(e.body, ComponentEventBody::ComponentStart));
    let e = ComponentEvent::shutdown(web.clone());
    assert!(matches!(e.body, ComponentEventBody::ComponentShutdown));
    let e = ComponentEvent::error(web.clone(), String::from("boom"));
    assert!(matches!(e.body, ComponentEventBody::ComponentError { ref body } if body == "boom"));
    let e = ComponentEvent::service_start(web.clone(), String::from("db"));
    assert!(
        matches!(e.body, ComponentEventBody::ServiceStart { ref service_name } if service_name == "db")
    );
    let e = ComponentEvent::service_shutdown(web, String::from("db"));
    assert!(
        matches!(e.body, ComponentEventBody::ServiceShutdown { ref service_name } if service_name == "db")
    );
}

#[test]
fn launcher_and_terminator_walk_from_the_back() {
    let mut a = Service::default();
    a.name = String::from("a");
    let mut b = Service::default();
    b.name = String::from("b");
    let mut l = conductor::service::ServiceLauncher::new(vec![a.clone(), b.clone()]);
    assert_eq!(l.next_service().unwrap().name, "b");
    assert_eq!(l.next_service().unwrap().name, "a");
    assert!(l.next_service().is_none());
    let mut t = conductor::service::ServiceTerminator::new(vec![a, b]);
    assert_eq!(t.next_service().unwrap().name, "b");
    assert_eq!(t.next_service().unwrap().name, "a");
    assert!(t.next_service().is_none());
}

#[test]
fn supervisor_service_sequences_resolve_names() {
    let mut p = Project::default();
    let mut db = Service::default();
    db.name = String::from("db");
    p.services = vec![db];
    let mut web = component("web");
    web.services = vec![String::from("db"), String::from("ghost")];
    let supr = Supervisor::new(&p);
    let mut launcher = supr.run_component_services(&web);
    assert_eq!(launcher.next_service().unwrap().name, "db");
    assert!(launcher.next_service().is_none());
    let mut term = supr.shutdown_component_services(&web);
    assert_eq!(term.next_service().unwrap().name, "db");
    assert!(term.next_service().is_none());
}
