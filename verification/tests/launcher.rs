use child_supervisor::config::{
    LaunchPlan, ProcessConfig, Stdio, BACKTRACE_VAR, ENABLED, MANAGED_WORKER_VAR,
};
use child_supervisor::diagnosis::{
    describe_exit, describe_wait_failure, ExitReport, EMULATION_KILL_SIGNAL,
};
use child_supervisor::errors::Error;

fn config() -> ProcessConfig {
    ProcessConfig {
        program: "/usr/bin/worker".to_string(),
        args: vec!["--mode".to_string(), "child".to_string()],
        env: vec![
            ("PATH".to_string(), "/bin".to_string()),
            ("RUST_BACKTRACE".to_string(), "0".to_string()),
        ],
        cwd: Some("/tmp/work".to_string()),
    }
}

fn pair(name: &str, value: &str) -> (String, String) {
    (name.to_string(), value.to_string())
}

#[test]
fn the_variables_have_their_names() {
    assert_eq!(MANAGED_WORKER_VAR, "EVCXR_IS_RUNTIME");
    assert_eq!(BACKTRACE_VAR, "RUST_BACKTRACE");
    assert_eq!(ENABLED, "1");
    assert_eq!(EMULATION_KILL_SIGNAL, 9);
}

#[test]
fn a_marked_supervisor_does_not_launch() {
    match LaunchPlan::prepare(config(), true) {
        Err(error) => assert_eq!(error, Error::RecursiveLaunchRejected),
        Ok(_) => panic!("a launch was prepared"),
    }
}

#[test]
fn the_plan_adds_the_marker_and_the_backtrace_switch_last() {
    let plan = LaunchPlan::prepare(config(), false).unwrap();
    assert_eq!(
        plan.env(),
        &vec![
            pair("PATH", "/bin"),
            pair("RUST_BACKTRACE", "0"),
            pair("EVCXR_IS_RUNTIME", "1"),
            pair("RUST_BACKTRACE", "1"),
        ]
    );
}

#[test]
fn the_plan_keeps_what_the_caller_configured() {
    let plan = LaunchPlan::prepare(config(), false).unwrap();
    assert_eq!(plan.program(), "/usr/bin/worker");
    assert_eq!(plan.args(), &vec!["--mode".to_string(), "child".to_string()]);
    assert_eq!(plan.cwd(), &Some("/tmp/work".to_string()));
}

#[test]
fn the_plan_of_a_bare_config_holds_only_the_two_variables() {
    let bare = ProcessConfig {
        program: "worker".to_string(),
        args: Vec::new(),
        env: Vec::new(),
        cwd: None,
    };
    let plan = LaunchPlan::prepare(bare, false).unwrap();
    assert_eq!(
        plan.env(),
        &vec![pair("EVCXR_IS_RUNTIME", "1"), pair("RUST_BACKTRACE", "1")]
    );
    assert_eq!(plan.args(), &Vec::<String>::new());
    assert_eq!(plan.cwd(), &None);
    assert_eq!(plan.command_text(), "worker");
}

#[test]
fn all_three_streams_are_piped() {
    let plan = LaunchPlan::prepare(config(), false).unwrap();
    assert_eq!(plan.stdin(), Stdio::Piped);
    assert_eq!(plan.stdout(), Stdio::Piped);
    assert_eq!(plan.stderr(), Stdio::Piped);
    assert_ne!(plan.stdin(), Stdio::Inherited);
}

#[test]
fn the_command_text_is_the_program_and_its_arguments() {
    let plan = LaunchPlan::prepare(config(), false).unwrap();
    assert_eq!(plan.command_text(), "/usr/bin/worker --mode child");
}

#[test]
fn each_error_reads_as_its_message() {
    assert_eq!(
        Error::RecursiveLaunchRejected.message(),
        "Our current binary doesn't call runtime_hook()"
    );
    assert_eq!(
        Error::LaunchFailed {
            command: "worker --flag".to_string(),
            cause: "No such file or directory (os error 2)".to_string(),
        }
        .message(),
        "Failed to run 'worker --flag': No such file or directory (os error 2)"
    );
    assert_eq!(
        Error::SubprocessTerminated("gone\nSubprocess terminated with status: 1".to_string())
            .message(),
        "gone\nSubprocess terminated with status: 1"
    );
    assert_eq!(Error::Io("broken".to_string()).message(), "broken");
}

#[test]
fn an_exit_is_described_by_the_last_output_and_the_status() {
    let report = ExitReport { status: "exit status: 101".to_string(), signal: None };
    assert_eq!(
        describe_exit("thread 'main' panicked\nnote: backtrace\n".to_string(), &report),
        "thread 'main' panicked\nnote: backtrace\nSubprocess terminated with status: exit status: 101"
    );
    assert_eq!(
        describe_exit(String::new(), &report),
        "Subprocess terminated with status: exit status: 101"
    );
}

#[test]
fn the_emulation_signal_is_answered_with_advice() {
    let report = ExitReport { status: "signal: 9 (SIGKILL)".to_string(), signal: Some(9) };
    assert_eq!(
        describe_exit("last words\n".to_string(), &report),
        "Subprocess terminated with signal 9. This is known to happen when evcxr is installed via a Homebrew shell under emulation. Try installing rustup and evcxr without using Homebrew and see if that helps."
    );
}

#[test]
fn another_signal_is_described_like_any_exit() {
    let report = ExitReport { status: "signal: 11 (SIGSEGV)".to_string(), signal: Some(11) };
    assert_eq!(
        describe_exit("last words\n".to_string(), &report),
        "last words\nSubprocess terminated with status: signal: 11 (SIGSEGV)"
    );
}

#[test]
fn a_failed_wait_is_described_by_its_cause() {
    assert_eq!(
        describe_wait_failure("No child processes (os error 10)"),
        "Subprocess didn't start: No child processes (os error 10)"
    );
}
