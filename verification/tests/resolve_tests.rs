use conductor::command::Commands;
use conductor::component::Component;
use conductor::env::EnvMap;
use conductor::errors::RunError;
use conductor::group::Group;
use conductor::project::Project;
use conductor::resolve::PlanStep;
use conductor::service::Service;
use conductor::task::Task;

fn component(name: &str) -> Component {
    let mut c = Component::default();
    c.name = name.to_string();
    c
}

fn task(name: &str, deps: &[&str], cmds: &[&str]) -> Task {
    let mut t = Task::default();
    t.name = name.to_string();
    t.dependencies = deps.iter().map(|d| d.to_string()).collect();
    t.commands = Commands::Multiple(cmds.iter().map(|c| c.to_string()).collect());
    t
}

fn command_lines(steps: &[PlanStep]) -> Vec<(String, String)> {
    steps
        .iter()
        .filter_map(|s| match s {
            PlanStep::TaskCommand { task, command } => Some((task.name.clone(), command.clone())),
            _ => None,
        })
        .collect()
}

#[test]
fn nothing_to_run_when_no_name_matches() {
    let mut p = Project::default();
    p.components = vec![component("web")];
    let err = p.run_names(&vec![String::from("doesnotexist")]).unwrap_err();
    assert_eq!(err, RunError::NothingToRun);
    assert_eq!(err.text(), "Nothing to run");
}

#[test]
fn dependencies_run_before_own_commands_in_declared_order() {
    let mut p = Project::default();
    p.tasks = vec![
        task("build", &["prep", "gen"], &["echo build1", "echo build2"]),
        task("prep", &[], &["echo prep"]),
        task("gen", &[], &["echo gen"]),
    ];
    let plan = p.run_names(&vec![String::from("build")]).unwrap();
    let lines = command_lines(&plan.steps);
    assert_eq!(
        lines,
        vec![
            (String::from("prep"), String::from("echo prep")),
            (String::from("gen"), String::from("echo gen")),
            (String::from("build"), String::from("echo build1")),
            (String::from("build"), String::from("echo build2")),
        ]
    );
    assert!(!plan.spawned);
}

#[test]
fn circular_dependency_fails_fast() {
    let mut p = Project::default();
    p.tasks = vec![task("a", &["b"], &["echo a"]), task("b", &["a"], &["echo b"])];
    let err = p.run_names(&vec![String::from("a")]).unwrap_err();
    assert_eq!(err, RunError::CircularDependency);
}

#[test]
fn self_dependency_fails_fast() {
    let mut p = Project::default();
    p.tasks = vec![task("a", &["a"], &["echo a"])];
    let err = p.run_names(&vec![String::from("a")]).unwrap_err();
    assert_eq!(err, RunError::CircularDependency);
}

#[test]
fn unmatched_dependency_is_skipped() {
    let mut p = Project::default();
    p.tasks = vec![task("a", &["ghost"], &["echo a"])];
    let plan = p.run_names(&vec![String::from("a")]).unwrap();
    assert_eq!(command_lines(&plan.steps), vec![(String::from("a"), String::from("echo a"))]);
}

#[test]
fn group_spawns_known_members_and_skips_unknown() {
    let mut p = Project::default();
    p.components = vec![component("web"), component("api")];
    let mut genv = EnvMap::new();
    genv.set(String::from("MODE"), String::from("dev"));
    p.groups = vec![Group {
        name: String::from("all"),
        components: vec![String::from("web"), String::from("ghost"), String::from("api")],
        env: genv,
    }];
    let plan = p.run_names(&vec![String::from("all")]).unwrap();
    assert!(plan.spawned);
    let spawned: Vec<(String, Option<String>)> = plan
        .steps
        .iter()
        .filter_map(|s| match s {
            PlanStep::Spawn { component, extra_env } => {
                Some((component.name.clone(), extra_env.get("MODE")))
            }
            _ => None,
        })
        .collect();
    assert_eq!(
        spawned,
        vec![
            (String::from("web"), Some(String::from("dev"))),
            (String::from("api"), Some(String::from("dev"))),
        ]
    );
}

#[test]
fn bare_component_spawns_without_extra_env() {
    let mut p = Project::default();
    p.components = vec![component("web")];
    let plan = p.run_names(&vec![String::from("web")]).unwrap();
    assert!(plan.spawned);
    assert_eq!(plan.steps.len(), 1);
    match &plan.steps[0] {
        PlanStep::Spawn { component, extra_env } => {
            assert_eq!(component.name, "web");
            assert!(extra_env.pairs.is_empty());
        }
        _ => panic!("expected a spawn step"),
    }
}

#[test]
fn component_task_brackets_commands_with_services() {
    let mut p = Project::default();
    let mut web = component("web");
    web.services = vec![String::from("db")];
    web.tasks = vec![task("migrate", &[], &["echo migrate"])];
    p.components = vec![web];
    let mut db = Service::default();
    db.name = String::from("db");
    p.services = vec![db];
    let plan = p.run_names(&vec![String::from("web:migrate")]).unwrap();
    assert_eq!(plan.steps.len(), 3);
    assert!(matches!(&plan.steps[0], PlanStep::StartService { service } if service.name == "db"));
    assert!(
        matches!(&plan.steps[1], PlanStep::TaskCommand { command, .. } if command == "echo migrate")
    );
    assert!(matches!(&plan.steps[2], PlanStep::StopService { service } if service.name == "db"));
    assert!(!plan.spawned);
}

#[test]
fn project_task_wins_over_component() {
    let mut p = Project::default();
    p.components = vec![component("build")];
    p.tasks = vec![task("build", &[], &["echo built"])];
    let plan = p.run_names(&vec![String::from("build")]).unwrap();
    assert_eq!(command_lines(&plan.steps), vec![(String::from("build"), String::from("echo built"))]);
    assert!(!plan.spawned);
}

#[test]
fn empty_name_list_is_nothing_to_run() {
    let mut p = Project::default();
    p.components = vec![component("web")];
    let err = p.run_names(&vec![]).unwrap_err();
    assert_eq!(err, RunError::NothingToRun);
}

#[test]
fn component_wins_over_group_of_same_name() {
    let mut p = Project::default();
    p.components = vec![component("web"), component("api")];
    p.groups = vec![Group {
        name: String::from("web"),
        components: vec![String::from("api")],
        env: EnvMap::new(),
    }];
    let plan = p.run_names(&vec![String::from("web")]).unwrap();
    assert_eq!(plan.steps.len(), 1);
    assert!(matches!(&plan.steps[0], PlanStep::Spawn { component, .. } if component.name == "web"));
}

#[test]
fn tasks_and_components_mix_in_name_order() {
    let mut p = Project::default();
    p.components = vec![component("web")];
    p.tasks = vec![task("prep", &[], &["echo prep"])];
    let plan = p
        .run_names(&vec![String::from("prep"), String::from("web"), String::from("ghost")])
        .unwrap();
    assert!(plan.spawned);
    assert_eq!(plan.steps.len(), 2);
    assert!(matches!(&plan.steps[0], PlanStep::TaskCommand { command, .. } if command == "echo prep"));
    assert!(matches!(&plan.steps[1], PlanStep::Spawn { component, .. } if component.name == "web"));
}

#[test]
fn component_task_dependencies_resolve_before_services_start() {
    let mut p = Project::default();
    let mut web = component("web");
    web.services = vec![String::from("db")];
    web.tasks = vec![task("migrate", &["prep"], &["echo migrate"])];
    p.components = vec![web];
    let mut db = Service::default();
    db.name = String::from("db");
    p.services = vec![db];
    p.tasks = vec![task("prep", &[], &["echo prep"])];
    let plan = p.run_names(&vec![String::from("web:migrate")]).unwrap();
    assert_eq!(plan.steps.len(), 4);
    assert!(matches!(&plan.steps[0], PlanStep::TaskCommand { command, .. } if command == "echo prep"));
    assert!(matches!(&plan.steps[1], PlanStep::StartService { service } if service.name == "db"));
    assert!(
        matches!(&plan.steps[2], PlanStep::TaskCommand { command, .. } if command == "echo migrate")
    );
    assert!(matches!(&plan.steps[3], PlanStep::StopService { service } if service.name == "db"));
}

#[test]
fn group_of_only_unknown_members_still_matches() {
    let mut p = Project::default();
    p.groups = vec![Group {
        name: String::from("all"),
        components: vec![String::from("ghost")],
        env: EnvMap::new(),
    }];
    let plan = p.run_names(&vec![String::from("all")]).unwrap();
    assert!(plan.steps.is_empty());
    assert!(!plan.spawned);
}

#[test]
fn run_spawns_every_component() {
    let mut p = Project::default();
    p.components = vec![component("web"), component("api")];
    let plan = p.run();
    assert!(plan.spawned);
    let names: Vec<String> = plan
        .steps
        .iter()
        .map(|s| match s {
            PlanStep::Spawn { component, .. } => component.name.clone(),
            _ => panic!("expected only spawn steps"),
        })
        .collect();
    assert_eq!(names, vec![String::from("web"), String::from("api")]);
}

#[test]
fn setup_lists_components_with_repositories() {
    let mut p = Project::default();
    p.root_path = String::from("/project");
    let mut web = component("web");
    web.repo = Some(String::from("https://example.test/web.git"));
    web.init = vec![String::from("echo init")];
    p.components = vec![web, component("api")];
    let steps = p.setup();
    assert_eq!(steps.len(), 1);
    assert_eq!(steps[0].repo, "https://example.test/web.git");
    assert_eq!(steps[0].target_path, "/project/web");
    assert_eq!(steps[0].init_task.name, "web");
    assert_eq!(
        steps[0].init_task.commands.clone().into_vec(),
        vec![String::from("echo init")]
    );
}
