use conductor::command::{Command, Commands};
use conductor::task::Task;

#[test]
fn test_task_iterator() {
    let mut t = Task::default();
    t.commands = Commands::Multiple(vec![
        String::from("one"),
        String::from("two"),
        String::from("three"),
        String::from("four"),
    ]);
    assert_eq!(t.commands.into_vec().into_iter().find(|o| o == "two").is_some(), true);
}

#[test]
fn task_default_values() {
    let t = Task::default();
    assert_eq!(t.name, "Unnamed");
    assert!(t.description.is_none());
    assert!(t.dependencies.is_empty());
    assert!(t.path.is_none());
    assert_eq!(t.commands.into_vec().len(), 0);
    assert!(t.env.pairs.is_empty());
}

#[test]
fn commands_single_is_one_line() {
    let c = Commands::Single(String::from("echo hi"));
    assert_eq!(c.into_vec(), vec![String::from("echo hi")]);
}

#[test]
fn commands_keep_declared_order() {
    let c = Commands::Multiple(vec![String::from("a"), String::from("b")]);
    assert_eq!(c.into_vec(), vec![String::from("a"), String::from("b")]);
}

#[test]
fn commands_from_vec() {
    let c = Commands::from(vec![String::from("x")]);
    assert_eq!(c.into_vec(), vec![String::from("x")]);
}

#[test]
fn command_default_is_empty() {
    let c = Command::default();
    assert_eq!(c.command, "");
    assert!(c.args.is_empty());
    assert!(c.dir.is_none());
    assert!(c.env.pairs.is_empty());
}

#[test]
fn task_clone_preserves_fields() {
    let mut t = Task::default();
    t.name = String::from("build");
    t.dependencies = vec![String::from("prep")];
    t.commands = Commands::Single(String::from("make"));
    let u = t.clone();
    assert_eq!(u.name, "build");
    assert_eq!(u.dependencies, vec![String::from("prep")]);
    assert_eq!(u.commands.into_vec(), vec![String::from("make")]);
}
