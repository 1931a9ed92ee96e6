use arr::commands::{gather_args, get_attack_command, get_check_command, get_cleanup_command, get_dependency_command};
use arr::error::ArrError;
use arr::host::{check_superuser_requirement, is_os_supported, script_flag, shown_stream, Host};
use arr::model::{AtomicDependency, AtomicExecutor, AtomicInputArg, AtomicReadTeamTechnique, AtomicTest};
use arr::pipeline::{Action, Arr, Event, Stage};
use arr::template::parse_command;

fn executor(command: Option<&str>, cleanup: Option<&str>, elevation: Option<bool>) -> AtomicExecutor {
    AtomicExecutor {
        name: "sh".to_string(),
        elevation_required: elevation,
        command: command.map(|c| c.to_string()),
        cleanup_command: cleanup.map(|c| c.to_string()),
        steps: None,
    }
}

fn test_case(platforms: &[&str], exec: AtomicExecutor) -> AtomicTest {
    AtomicTest {
        name: "echo".to_string(),
        auto_generated_guid: "guid".to_string(),
        description: "prints".to_string(),
        supported_platforms: platforms.iter().map(|p| p.to_string()).collect(),
        executor: exec,
        input_arguments: Vec::new(),
        dependency_executor_name: None,
        dependencies: None,
    }
}

fn technique(test: AtomicTest) -> AtomicReadTeamTechnique {
    AtomicReadTeamTechnique {
        attack_technique: "T0000".to_string(),
        display_name: "Example".to_string(),
        atomic_tests: vec![test],
    }
}

fn arg(default: &str) -> AtomicInputArg {
    AtomicInputArg { description: "d".to_string(), default: default.to_string(), arg_type: "string".to_string() }
}

fn host(root: bool) -> Host {
    Host { os: "linux".to_string(), is_root: root }
}

fn vars(pairs: &[(&str, &str)]) -> Vec<(String, String)> {
    pairs.iter().map(|(k, v)| (k.to_string(), v.to_string())).collect()
}

/// Drives a request up to the first action after the definition is loaded.
fn load(arr: &Arr, start: (Stage, Action), def: AtomicReadTeamTechnique, h: &Host) -> (Stage, Action) {
    let (stage, action) = start;
    assert!(matches!(&action, Action::LocateRoot { search_path } if search_path == "art"));
    let (stage, action) = arr.step(stage, Event::RootLocated(Ok("/data/atomics".to_string())), h);
    assert!(matches!(&action, Action::LocateDefinition { technique, atomics_dir }
        if technique == "T0000" && atomics_dir == "/data/atomics"));
    let (stage, action) = arr.step(stage, Event::DefinitionLocated(Ok("/data/atomics/T0000.yaml".to_string())), h);
    assert!(matches!(&action, Action::LoadDefinition { file } if file == "/data/atomics/T0000.yaml"));
    arr.step(stage, Event::DefinitionLoaded(Ok(def)), h)
}

fn expect_execute(action: &Action, cmd: &str, exec: &str) {
    match action {
        Action::Execute { command, executor } => {
            assert_eq!(command, cmd);
            assert_eq!(executor, exec);
        }
        _ => panic!("expected a command"),
    }
}

fn expect_finish(action: Action) -> Result<(), ArrError> {
    match action {
        Action::Finish(r) => r,
        _ => panic!("expected the end of the run"),
    }
}

#[test]
fn scenario_echo_with_override_succeeds() {
    let def = technique(test_case(&["Linux"], executor(Some("echo #{msg}"), None, None)));
    let arr = Arr::new("T0000".to_string(), vars(&[("msg", "hello")]), 0, "art".to_string());
    let h = host(false);
    let (stage, action) = load(&arr, arr.run(), def, &h);
    expect_execute(&action, "echo hello", "sh");
    let (stage, action) = arr.step(stage, Event::CommandFinished(Ok(())), &h);
    assert!(matches!(stage, Stage::Finished));
    assert_eq!(expect_finish(action), Ok(()));
}

#[test]
fn scenario_missing_variable_fails_before_any_command() {
    let def = technique(test_case(&["linux"], executor(Some("echo #{msg}"), None, None)));
    let arr = Arr::new("T0000".to_string(), Vec::new(), 0, "art".to_string());
    let (_, action) = load(&arr, arr.run(), def, &host(true));
    assert_eq!(expect_finish(action), Err(ArrError::ArgValueNotFound("msg".to_string())));
}

#[test]
fn scenario_elevation_without_root_fails() {
    let def = technique(test_case(&["linux"], executor(Some("id"), None, Some(true))));
    let arr = Arr::new("T0000".to_string(), Vec::new(), 0, "art".to_string());
    let (_, action) = load(&arr, arr.run(), def, &host(false));
    assert_eq!(expect_finish(action), Err(ArrError::RootRequired));
}

#[test]
fn elevation_with_root_runs() {
    let def = technique(test_case(&["linux"], executor(Some("id"), None, Some(true))));
    let arr = Arr::new("T0000".to_string(), Vec::new(), 0, "art".to_string());
    let (_, action) = load(&arr, arr.run(), def, &host(true));
    expect_execute(&action, "id", "sh");
}

#[test]
fn unsupported_platform_fails_first() {
    let def = technique(test_case(&["windows", "macos"], executor(Some("echo #{missing}"), None, Some(true))));
    let arr = Arr::new("T0000".to_string(), Vec::new(), 0, "art".to_string());
    let (stage, action) = load(&arr, arr.run(), def, &host(false));
    assert!(matches!(stage, Stage::Finished));
    assert_eq!(expect_finish(action), Err(ArrError::OsNotSupported));
}

#[test]
fn cleanup_without_template_fails() {
    for cleanup in [None, Some(""), Some("\n")] {
        let def = technique(test_case(&["linux"], executor(Some("echo"), cleanup, None)));
        let arr = Arr::new("T0000".to_string(), Vec::new(), 0, "art".to_string());
        let (_, action) = load(&arr, arr.cleanup(), def, &host(false));
        assert_eq!(expect_finish(action), Err(ArrError::Other("No cleanup command".to_string())));
    }
}

#[test]
fn cleanup_runs_its_command() {
    let def = technique(test_case(&["linux"], executor(Some("touch x"), Some("rm PathToAtomicsFolder/x"), None)));
    let arr = Arr::new("T0000".to_string(), Vec::new(), 0, "art".to_string());
    let h = host(false);
    let (stage, action) = load(&arr, arr.cleanup(), def, &h);
    expect_execute(&action, "rm /data/atomics/x", "sh");
    let (_, action) = arr.step(stage, Event::CommandFinished(Ok(())), &h);
    assert_eq!(expect_finish(action), Ok(()));
}

#[test]
fn absent_attack_template_runs_empty_command() {
    let def = technique(test_case(&["linux"], executor(None, None, None)));
    let arr = Arr::new("T0000".to_string(), Vec::new(), 0, "art".to_string());
    let (_, action) = load(&arr, arr.run(), def, &host(false));
    expect_execute(&action, "", "sh");
}

fn with_dependencies(dep_executor: Option<&str>) -> AtomicReadTeamTechnique {
    let mut t = test_case(&["linux"], executor(Some("attack #{n}"), None, None));
    t.input_arguments = vec![("n".to_string(), arg("PathToAtomicsFolder/bin"))];
    t.dependency_executor_name = dep_executor.map(|e| e.to_string());
    t.dependencies = Some(vec![
        AtomicDependency {
            description: "one".to_string(),
            prereq_command: "check1 #{n}".to_string(),
            get_prereq_command: "get1".to_string(),
        },
        AtomicDependency {
            description: "two".to_string(),
            prereq_command: "check2".to_string(),
            get_prereq_command: "get2\nmore".to_string(),
        },
    ]);
    technique(t)
}

#[test]
fn phases_run_in_order() {
    let arr = Arr::new("T0000".to_string(), Vec::new(), 0, "art".to_string());
    let h = host(false);
    let (mut stage, mut action) = load(&arr, arr.run(), with_dependencies(Some("bash")), &h);
    let expected = [
        ("check1 /data/atomics/bin", "bash"),
        ("check2", "bash"),
        ("get1", "bash"),
        ("get2;more", "bash"),
        ("attack /data/atomics/bin", "sh"),
    ];
    for (cmd, exec) in expected {
        expect_execute(&action, cmd, exec);
        let next = arr.step(stage, Event::CommandFinished(Ok(())), &h);
        stage = next.0;
        action = next.1;
    }
    assert_eq!(expect_finish(action), Ok(()));
}

#[test]
fn dependencies_without_executor_are_skipped() {
    let arr = Arr::new("T0000".to_string(), Vec::new(), 0, "art".to_string());
    let (_, action) = load(&arr, arr.run(), with_dependencies(None), &host(false));
    expect_execute(&action, "attack /data/atomics/bin", "sh");
}

#[test]
fn failed_command_ends_the_run() {
    let arr = Arr::new("T0000".to_string(), Vec::new(), 0, "art".to_string());
    let h = host(false);
    let (stage, action) = load(&arr, arr.run(), with_dependencies(Some("bash")), &h);
    expect_execute(&action, "check1 /data/atomics/bin", "bash");
    let (stage, action) = arr.step(stage, Event::CommandFinished(Err(ArrError::CommandExecutionFailed)), &h);
    assert!(matches!(stage, Stage::Finished));
    assert_eq!(expect_finish(action), Err(ArrError::CommandExecutionFailed));
}

#[test]
fn locate_failures_end_the_run() {
    let arr = Arr::new("T0000".to_string(), Vec::new(), 0, "art".to_string());
    let h = host(false);
    let (stage, _) = arr.run();
    let (_, action) = arr.step(stage, Event::RootLocated(Err(ArrError::FileNotFound("no root".to_string()))), &h);
    assert_eq!(expect_finish(action), Err(ArrError::FileNotFound("no root".to_string())));
    let (stage, _) = arr.run();
    let (stage, _) = arr.step(stage, Event::RootLocated(Ok("/r".to_string())), &h);
    let (_, action) = arr.step(stage, Event::DefinitionLocated(Err(ArrError::CannotLocateYamlFile)), &h);
    assert_eq!(expect_finish(action), Err(ArrError::CannotLocateYamlFile));
}

#[test]
fn stage_accepts_only_its_event() {
    let arr = Arr::new("T0000".to_string(), Vec::new(), 0, "art".to_string());
    let (stage, _) = arr.run();
    assert!(stage.accepts(&Event::RootLocated(Ok("/r".to_string()))));
    assert!(!stage.accepts(&Event::CommandFinished(Ok(()))));
}

#[test]
fn override_wins_and_defaults_resolve_path() {
    let mut t = test_case(&["linux"], executor(None, None, None));
    t.input_arguments = vec![
        ("a".to_string(), arg("PathToAtomicsFolder/a.txt")),
        ("b".to_string(), arg("default")),
    ];
    let def = technique(t);
    let store = gather_args(&def, &vars(&[("b", "PathToAtomicsFolder/user")]), 0, "/root/atomics");
    assert_eq!(parse_command("#{a}", "/elsewhere", &store), Ok("/root/atomics/a.txt".to_string()));
    assert_eq!(parse_command("#{b}", "/elsewhere", &store), Ok("/root/atomics/user".to_string()));
}

#[test]
fn command_builders_follow_templates() {
    let def = with_dependencies(Some("bash"));
    let store = gather_args(&def, &Vec::new(), 0, "/d");
    assert_eq!(
        get_check_command(&def, 0, "/d", &store),
        Ok(vec![("check1 /d/bin".to_string(), "bash".to_string()), ("check2".to_string(), "bash".to_string())])
    );
    assert_eq!(
        get_dependency_command(&def, 0, "/d", &store),
        Ok(vec![("get1".to_string(), "bash".to_string()), ("get2;more".to_string(), "bash".to_string())])
    );
    assert_eq!(get_attack_command(&def, 0, "/d", &store), Ok(("attack /d/bin".to_string(), "sh".to_string())));
    assert_eq!(get_cleanup_command(&def, 0, "/d", &store), Ok((String::new(), "sh".to_string())));
    assert_eq!(
        get_check_command(&def, 0, "/d", &Vec::new()),
        Err(ArrError::ArgValueNotFound("n".to_string()))
    );
}

#[test]
fn platform_names_are_normalised() {
    let def = technique(test_case(&["  LiNuX "], executor(None, None, None)));
    assert_eq!(is_os_supported(&def, 0, "linux"), Ok(()));
    assert_eq!(is_os_supported(&def, 0, "windows"), Err(ArrError::OsNotSupported));
}

#[test]
fn superuser_requirement() {
    let needs = technique(test_case(&["linux"], executor(None, None, Some(true))));
    let optional = technique(test_case(&["linux"], executor(None, None, Some(false))));
    assert_eq!(check_superuser_requirement(&needs, 0, false), Err(ArrError::RootRequired));
    assert_eq!(check_superuser_requirement(&needs, 0, true), Ok(()));
    assert_eq!(check_superuser_requirement(&optional, 0, false), Ok(()));
}

#[test]
fn interpreter_flags_and_streams() {
    assert_eq!(script_flag("cmd"), "/c");
    assert_eq!(script_flag("sh"), "-c");
    assert_eq!(script_flag("powershell"), "-c");
    assert_eq!(shown_stream(String::new()), "(None)");
    assert_eq!(shown_stream("out".to_string()), "out");
}

#[test]
fn current_host_keeps_platform_name() {
    let h = Host::current("linux".to_string());
    assert_eq!(h.os, "linux");
}
