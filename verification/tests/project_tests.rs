use conductor::component::{Component, TerminalColor};
use conductor::group::Group;
use conductor::project::Project;
use conductor::service::{Service, ServiceType};
use conductor::task::Task;

fn component(name: &str) -> Component {
    let mut c = Component::default();
    c.name = name.to_string();
    c
}

fn service(name: &str) -> Service {
    let mut s = Service::default();
    s.name = name.to_string();
    s
}

fn sample_project() -> Project {
    let mut p = Project::default();
    p.root_path = String::from("/project");
    p.components = vec![component("Web"), component("Api")];
    p.groups = vec![Group {
        name: String::from("All"),
        components: vec![String::from("web"), String::from("api")],
        env: conductor::env::EnvMap::new(),
    }];
    p.services = vec![service("Postgres")];
    let mut t = Task::default();
    t.name = String::from("Build");
    p.tasks = vec![t];
    p
}

#[test]
fn project_default_values() {
    let p = Project::default();
    assert_eq!(p.name, "Unnamed Project");
    assert!(p.components.is_empty());
    assert!(p.groups.is_empty());
    assert!(p.services.is_empty());
    assert!(p.tasks.is_empty());
    assert_eq!(p.root_path, "");
}

#[test]
fn component_default_values() {
    let c = Component::default();
    assert_eq!(c.name, "Unknown");
    assert!(c.default);
    assert!(!c.retry);
    assert!(!c.keep_alive);
    assert!(matches!(c.color, TerminalColor::Yellow));
    assert!(c.path.is_none());
    assert!(c.repo.is_none());
    assert!(c.delay.is_none());
}

#[test]
fn service_default_is_container() {
    let s = Service::default();
    assert!(matches!(s.service_type, ServiceType::DockerContainer));
    assert!(s.container.is_none());
}

#[test]
fn get_path_defaults_to_name() {
    let c = component("web");
    assert_eq!(c.get_path(), "web");
    let mut d = component("api");
    d.path = Some(String::from("services/api"));
    assert_eq!(d.get_path(), "services/api");
}

#[test]
fn container_name_defaults_to_service_name() {
    let s = service("db");
    assert_eq!(s.get_container_name(), "db");
    let mut t = service("db");
    t.container = Some(String::from("postgres-14"));
    assert_eq!(t.get_container_name(), "postgres-14");
}

#[test]
fn clone_repo_reports_missing_repo() {
    let c = component("web");
    let e = c.clone_repo().unwrap_err();
    assert_eq!(e.text(), "Repo not specified");
    let mut d = component("api");
    d.repo = Some(String::from("https://example.test/api.git"));
    assert_eq!(d.clone_repo().unwrap(), "https://example.test/api.git");
}

#[test]
fn finds_are_case_insensitive() {
    let p = sample_project();
    assert_eq!(p.find_component("WEB").unwrap().name, "Web");
    assert_eq!(p.find_group("all").unwrap().name, "All");
    assert_eq!(p.find_project_task("build").unwrap().name, "Build");
    assert_eq!(p.service_by_name("postgres").unwrap().name, "Postgres");
    assert!(p.find_component("missing").is_none());
}

#[test]
fn find_component_first_match_wins() {
    let mut p = sample_project();
    p.components = vec![component("dup"), component("DUP")];
    p.components[0].start = String::from("first");
    p.components[1].start = String::from("second");
    assert_eq!(p.find_component("Dup").unwrap().start, "first");
}

#[test]
fn find_component_task_matches_composite_name() {
    let mut p = sample_project();
    let mut t = Task::default();
    t.name = String::from("Migrate");
    p.components[0].tasks = vec![t];
    let (c, t) = p.find_component_task("web:migrate").unwrap();
    assert_eq!(c.name, "Web");
    assert_eq!(t.name, "Migrate");
    assert!(p.find_component_task("api:migrate").is_none());
}

#[test]
fn filter_default_keeps_flagged() {
    let mut p = sample_project();
    p.components[1].default = false;
    p.filter_default();
    assert_eq!(p.components.len(), 1);
    assert_eq!(p.components[0].name, "Web");
}

#[test]
fn filter_names_is_case_insensitive() {
    let mut p = sample_project();
    p.filter_names(&vec![String::from("API")]);
    assert_eq!(p.components.len(), 1);
    assert_eq!(p.components[0].name, "Api");
}

#[test]
fn filter_tags_keeps_intersecting() {
    let mut p = sample_project();
    p.components[0].tags = vec![String::from("frontend")];
    p.components[1].tags = vec![String::from("backend")];
    p.filter_tags(&vec![String::from("backend")]);
    assert_eq!(p.components.len(), 1);
    assert_eq!(p.components[0].name, "Api");
}

#[test]
fn filter_tags_empty_keeps_all() {
    let mut p = sample_project();
    p.filter_tags(&vec![]);
    assert_eq!(p.components.len(), 2);
}

#[test]
fn resolve_services_skips_unknown() {
    let mut p = sample_project();
    p.components[0].services = vec![String::from("postgres"), String::from("nope")];
    let svcs = p.resolve_services(&p.components[0].services);
    assert_eq!(svcs.len(), 1);
    assert_eq!(svcs[0].name, "Postgres");
}
