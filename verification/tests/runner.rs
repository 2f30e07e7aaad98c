use kyle::config::{Includes, Kylefile, Task, TaskMap};
use kyle::runner::{build_command, Action, Error, Outcome, Phase, Runner, Visit};
use std::path::PathBuf;

fn task(run: &str, deps: &[&str]) -> Task {
    Task { desc: String::new(), run: run.into(), deps: deps.iter().map(|d| d.to_string()).collect() }
}

fn runner(tasks: &[(&str, Task)]) -> Runner {
    let mut map = TaskMap::new();
    for (name, t) in tasks {
        map.insert(name.to_string(), t.clone());
    }
    let kf = Kylefile { name: "test".into(), includes: Includes::Absent, tasks: map };
    Runner::with_working_dir(kf, PathBuf::from("/work"), PathBuf::from("/root"))
}

/// Drives a run. Commands succeed unless they are listed in `failing`, and
/// visits to namespaces go as `visit` says; what was asked for is recorded.
fn drive(
    r: &mut Runner,
    name: &str,
    args: &[String],
    failing: &[&str],
    visit: &dyn Fn(&str, &str) -> Visit,
    log: &mut Vec<String>,
) -> Result<(), Error> {
    assert!(matches!(r.phase(), Phase::Idle));
    let mut action = r.begin(name, args);
    loop {
        action = match action {
            Action::Execute { task, command } => {
                assert!(matches!(r.phase(), Phase::Command));
                log.push(format!("{task}: {command}"));
                if failing.contains(&task.as_str()) {
                    r.command_ended(Outcome::Failed(Some(1)))
                } else {
                    r.command_ended(Outcome::Success)
                }
            }
            Action::Enter { namespace, task, dir } => {
                assert!(matches!(r.phase(), Phase::Namespace));
                log.push(format!("[{namespace}] {task} in {}", dir.display()));
                r.namespace_left(visit(&namespace, &task))
            }
            Action::Again => {
                assert!(matches!(r.phase(), Phase::Ready));
                r.resume()
            }
            Action::Finish(result) => {
                assert!(matches!(r.phase(), Phase::Idle));
                return result;
            }
        }
    }
}

fn completed(_: &str, _: &str) -> Visit {
    Visit::Completed
}

#[test]
fn run_simple_task() {
    let mut r = runner(&[("hello", task("echo \"hello world\"", &[]))]);
    let mut log = Vec::new();
    drive(&mut r, "hello", &[], &[], &completed, &mut log).unwrap();
    assert_eq!(log, vec!["hello: echo \"hello world\""]);
    assert!(r.has_completed("hello"));
}

#[test]
fn run_task_with_deps() {
    let mut r = runner(&[
        ("first", task("echo first", &[])),
        ("second", task("echo second", &["first"])),
    ]);
    let mut log = Vec::new();
    let result = drive(&mut r, "second", &[], &[], &completed, &mut log);
    assert!(result.is_ok());
    assert_eq!(log, vec!["first: echo first", "second: echo second"]);
}

#[test]
fn task_not_found() {
    let mut r = runner(&[("build", task("echo \"build\"", &[]))]);
    let mut log = Vec::new();
    let err = drive(&mut r, "nonexistent", &[], &[], &completed, &mut log).unwrap_err();
    assert!(matches!(&err, Error::TaskNotFound(name) if name == "nonexistent"));
    assert_eq!(err.message(), "task not found: nonexistent");
    assert!(err.message().contains("task not found"));
    assert!(err.message().contains("nonexistent"));
    assert!(log.is_empty());
}

#[test]
fn arg_passthrough() {
    let mut r = runner(&[("echo", task("echo args:", &[]))]);
    let mut log = Vec::new();
    let args = vec!["--flag1".to_string(), "--flag2".to_string(), "value".to_string()];
    drive(&mut r, "echo", &args, &[], &completed, &mut log).unwrap();
    assert_eq!(log, vec!["echo: echo args: --flag1 --flag2 value"]);
}

#[test]
fn arg_passthrough_with_separator() {
    let mut r = runner(&[("echo", task("echo args:", &[]))]);
    let mut log = Vec::new();
    let args = vec!["--release".to_string(), "-v".to_string()];
    drive(&mut r, "echo", &args, &[], &completed, &mut log).unwrap();
    assert_eq!(log, vec!["echo: echo args: --release -v"]);
}

#[test]
fn args_go_to_the_requested_task_only() {
    let mut r = runner(&[("a", task("run a", &["b"])), ("b", task("run b", &[]))]);
    let mut log = Vec::new();
    drive(&mut r, "a", &["x".to_string()], &[], &completed, &mut log).unwrap();
    assert_eq!(log, vec!["b: run b", "a: run a x"]);
}

#[test]
fn command_lines() {
    assert_eq!(build_command(&"make".to_string(), &vec![]), "make");
    assert_eq!(build_command(&"make".to_string(), &vec!["-j".to_string()]), "make -j");
    assert_eq!(
        build_command(&"".to_string(), &vec!["a".to_string(), "b c".to_string()]),
        " a b c"
    );
}

#[test]
fn a_task_reached_twice_runs_once() {
    let mut r = runner(&[
        ("a", task("run a", &["b", "c"])),
        ("b", task("run b", &["d"])),
        ("c", task("run c", &["d"])),
        ("d", task("run d", &[])),
    ]);
    let mut log = Vec::new();
    drive(&mut r, "a", &[], &[], &completed, &mut log).unwrap();
    assert_eq!(log, vec!["d: run d", "b: run b", "c: run c", "a: run a"]);
}

#[test]
fn running_a_completed_task_again_does_nothing() {
    let mut r = runner(&[("a", task("run a", &["b", "ns:x"])), ("b", task("run b", &[]))]);
    let mut log = Vec::new();
    drive(&mut r, "a", &[], &[], &completed, &mut log).unwrap();
    assert_eq!(log.len(), 3);
    let mut again = Vec::new();
    let action = r.begin("a", &[]);
    assert!(matches!(action, Action::Finish(Ok(()))));
    assert!(matches!(r.phase(), Phase::Idle));
    drive(&mut r, "b", &[], &[], &completed, &mut again).unwrap();
    assert!(again.is_empty());
}

#[test]
fn a_failing_command_ends_the_run() {
    let mut r = runner(&[
        ("deploy", task("./deploy", &["build", "test"])),
        ("build", task("make", &[])),
        ("test", task("make test", &[])),
    ]);
    let mut log = Vec::new();
    let err = drive(&mut r, "deploy", &[], &["build"], &completed, &mut log).unwrap_err();
    assert_eq!(log, vec!["build: make"]);
    assert_eq!(err.message(), "dependency 'build' failed: task 'build' failed: exit code: 1");
    assert!(!r.has_completed("build"));
    assert!(!r.has_completed("deploy"));
    match err {
        Error::DependencyFailed { dep, source } => {
            assert_eq!(dep, "build");
            assert!(matches!(*source, Error::ExecutionFailed { .. }));
        }
        other => panic!("{other:?}"),
    }
}

#[test]
fn a_failure_is_reported_by_every_task_on_the_way() {
    let mut r = runner(&[
        ("a", task("run a", &["b"])),
        ("b", task("run b", &["c"])),
        ("c", task("run c", &[])),
    ]);
    let mut log = Vec::new();
    let err = drive(&mut r, "a", &[], &["c"], &completed, &mut log).unwrap_err();
    assert_eq!(
        err.message(),
        "dependency 'b' failed: dependency 'c' failed: task 'c' failed: exit code: 1"
    );
}

#[test]
fn exit_codes_and_launch_failures() {
    for (outcome, text) in [
        (Outcome::Failed(Some(2)), "task 't' failed: exit code: 2"),
        (Outcome::Failed(Some(127)), "task 't' failed: exit code: 127"),
        (Outcome::Failed(Some(-15)), "task 't' failed: exit code: -15"),
        (Outcome::Failed(Some(0)), "task 't' failed: exit code: 0"),
        (Outcome::Failed(Some(i32::MAX)), "task 't' failed: exit code: 2147483647"),
        (Outcome::Failed(Some(i32::MIN)), "task 't' failed: exit code: -2147483648"),
        (Outcome::Failed(None), "task 't' failed: exit code: -1"),
        (Outcome::NotStarted("no such shell".into()), "task 't' failed: no such shell"),
    ] {
        let mut r = runner(&[("t", task("true", &[]))]);
        assert!(matches!(r.begin("t", &[]), Action::Execute { .. }));
        match r.command_ended(outcome) {
            Action::Finish(Err(e)) => assert_eq!(e.message(), text),
            other => panic!("{other:?}"),
        }
        assert!(matches!(r.phase(), Phase::Idle));
    }
}

#[test]
fn a_missing_dependency_fails_before_any_command() {
    let mut r = runner(&[("a", task("run a", &["ghost"]))]);
    let mut log = Vec::new();
    let err = drive(&mut r, "a", &[], &[], &completed, &mut log).unwrap_err();
    assert!(log.is_empty());
    assert_eq!(err.message(), "dependency 'ghost' failed: task not found: ghost");
}

#[test]
fn a_namespaced_dependency_is_entered_once() {
    let mut r = runner(&[
        ("a", task("run a", &["infra:deploy", "b"])),
        ("b", task("run b", &["infra:deploy", "infra.deploy"])),
    ]);
    let mut log = Vec::new();
    drive(&mut r, "a", &[], &[], &completed, &mut log).unwrap();
    let expected_dir = PathBuf::from("/root").join("infra");
    assert_eq!(
        log,
        vec![
            format!("[infra] deploy in {}", expected_dir.display()),
            "b: run b".to_string(),
            "a: run a".to_string(),
        ]
    );
    assert!(r.has_completed("infra:deploy"));
    assert!(r.has_completed("a"));
    assert!(r.has_completed("b"));
}

#[test]
fn failures_of_a_namespace() {
    let cases: Vec<(Box<dyn Fn(&str, &str) -> Visit>, &str)> = vec![
        (
            Box::new(|_, _| Visit::Missing),
            "dependency 'infra:deploy' failed: namespace not found: infra",
        ),
        (
            Box::new(|_, _| {
                Visit::Unreadable(kyle::config::Error::UnknownFormat("ini".into()))
            }),
            "dependency 'infra:deploy' failed: failed to load namespace 'infra': unknown format: ini",
        ),
        (
            Box::new(|_, task| {
                Visit::Failed(Error::ExecutionFailed {
                    task: task.to_string(),
                    reason: "exit code: 1".into(),
                })
            }),
            "dependency 'infra:deploy' failed: task 'deploy' failed: exit code: 1",
        ),
    ];
    for (visit, text) in cases {
        let mut r = runner(&[("a", task("run a", &["infra:deploy"]))]);
        let mut log = Vec::new();
        let err = drive(&mut r, "a", &[], &[], visit.as_ref(), &mut log).unwrap_err();
        assert_eq!(err.message(), text);
        assert_eq!(log.len(), 1);
        assert!(!r.has_completed("infra:deploy"));
        assert!(!r.has_completed("a"));
    }
}

#[test]
fn the_engine_tells_what_it_was_made_with() {
    let r = runner(&[("a", task("run a", &[]))]);
    assert!(r.kylefile().tasks.contains_key("a"));
    assert_eq!(r.kylefile().name, "test");
    assert!(r.source().is_none());
    assert_eq!(r.working_dir(), &PathBuf::from("/work"));
    assert_eq!(r.root_dir(), &PathBuf::from("/root"));
    assert!(!r.has_completed("a"));
}

#[test]
fn a_task_with_an_empty_command_still_runs() {
    let mut r = runner(&[("noop", task("", &[]))]);
    let mut log = Vec::new();
    drive(&mut r, "noop", &[], &[], &completed, &mut log).unwrap();
    assert_eq!(log, vec!["noop: "]);
}

#[test]
fn list_tasks_with_kylefile() {
    let mut build = task("echo building", &[]);
    build.desc = "Build the project".into();
    let mut test = task("echo testing", &[]);
    test.desc = "Run tests".into();
    let r = runner(&[("build", build), ("test", test), ("plain", task("true", &[]))]);
    assert_eq!(
        r.list_tasks(),
        vec!["  build - Build the project", "  test - Run tests", "  plain"]
    );
    assert!(runner(&[]).list_tasks().is_empty());
}
