use envrun::command::{plan_command, ExecMode, LaunchPlan, Platform};
use envrun::dotenv::Assignment;
use envrun::environment::Environment;
use envrun::run::{
    exit_status, initial_environment, launch_outcome, load_file, ChildStatus, Outcome, ReadFailure,
    RunError,
};

fn var(key: &str, value: &str) -> Assignment {
    Assignment { key: key.to_string(), value: value.to_string() }
}

#[test]
fn missing_file_fails_the_run() {
    let mut env = Environment::from_assignments(&vec![var("A", "1")]);
    let r = load_file(
        &mut env,
        &"missing.env".to_string(),
        Err((ReadFailure::NotFound, "No such file or directory".to_string())),
    );
    let e = match r {
        Err(e) => e,
        Ok(_) => panic!("a missing file loaded"),
    };
    assert!(matches!(e, RunError::Load { failure: ReadFailure::NotFound, .. }));
    assert_eq!(e.message(), "loading dotenv file: missing.env: No such file or directory");
    assert_eq!(env.len(), 1);
    assert_eq!(env.get(&"A".to_string()), Some("1".to_string()));
    let status = exit_status(&Err(e));
    assert_ne!(status, 0);
    assert_eq!(status, 1);
}

#[test]
fn read_file_is_loaded() {
    let mut env = Environment::new();
    let r = load_file(&mut env, &".env".to_string(), Ok("A=1\nnope\n".to_string()));
    assert_eq!(r.ok(), Some(vec![1]));
    assert_eq!(env.get(&"A".to_string()), Some("1".to_string()));
}

#[test]
fn empty_command_exits_zero() {
    assert!(plan_command(&vec![], &ExecMode::Shell(None), Platform::Unix).is_none());
    assert_eq!(exit_status(&Ok(Outcome::NothingToRun)), 0);
}

#[test]
fn child_status_is_passed_on() {
    assert_eq!(exit_status(&Ok(Outcome::Finished(ChildStatus::Exited(0)))), 0);
    assert_eq!(exit_status(&Ok(Outcome::Finished(ChildStatus::Exited(3)))), 3);
    assert_eq!(exit_status(&Ok(Outcome::Finished(ChildStatus::Killed(9)))), 137);
    assert_eq!(exit_status(&Ok(Outcome::Finished(ChildStatus::Killed(0)))), 1);
}

#[test]
fn launch_failure_is_reported() {
    let plan = LaunchPlan { program: "nosuchprog".to_string(), args: vec![] };
    let r = launch_outcome(&plan, Err("not found".to_string()));
    let e = match r {
        Err(e) => e,
        Ok(_) => panic!("a failed launch succeeded"),
    };
    assert_eq!(e.message(), "running command: nosuchprog: not found");
    assert_eq!(exit_status(&Err(e)), 1);
    let r = launch_outcome(&plan, Ok(ChildStatus::Exited(5)));
    assert_eq!(r.ok(), Some(Outcome::Finished(ChildStatus::Exited(5))));
}

#[test]
fn initial_environment_clears_on_request() {
    let inherited = vec![var("A", "1"), var("B", "2")];
    assert_eq!(initial_environment(&inherited, true).len(), 0);
    let env = initial_environment(&inherited, false);
    assert_eq!(env.len(), 2);
    assert_eq!(env.get(&"B".to_string()), Some("2".to_string()));
}
