use yurt::context::parse::Environment;
use yurt::shell::{pipe, pipe_result, ShellSpec};
use yurt::specs::shell::command::{call, call_bool, CommandError, Outcome};
use yurt::specs::shell::{Hook, Shell, ShellCommand, ShellHook, ShellKind};

fn check_shell(input: &str, expected: ShellKind) {
    let shell = Shell::from(input.to_string());
    assert_eq!(shell.kind, expected);
    assert_eq!(shell.command.as_str(), input);
}

fn exited(code: i32) -> Outcome {
    Outcome::Exited { code, stderr: String::new() }
}

#[test]
fn shell_shell_kind_match() {
    check_shell("zsh", ShellKind::Zsh);
    check_shell("longer/path/bash", ShellKind::Bash);
    check_shell("some/other/shell/nonsense", ShellKind::Other);
    check_shell("", ShellKind::Empty);
}

#[test]
fn shell_kind_of_other_programs() {
    check_shell("/bin/sh", ShellKind::Sh);
    check_shell("pwsh", ShellKind::Powershell);
    check_shell("cmd", ShellKind::Cmd);
    check_shell("cmd.exe", ShellKind::Cmd);
}

#[test]
fn shell_from_env() {
    let set = Environment::new(vec![("SHELL".to_string(), "/usr/bin/zsh".to_string())]);
    let shell = Shell::from_env(&set, "linux");
    assert_eq!(shell.kind, ShellKind::Zsh);
    assert_eq!(shell.command, "/usr/bin/zsh");
    let unset = Shell::from_env(&Environment::empty(), "linux");
    assert_eq!(unset.kind, ShellKind::Sh);
    assert_eq!(unset.command, "sh");
}

#[test]
fn default_shell_per_os() {
    assert_eq!(Shell::for_os("windows").command, "cmd");
    assert_eq!(Shell::for_os("macos").command, "zsh");
    assert_eq!(Shell::for_os("linux").command, "sh");
}

#[test]
fn exec_success() {
    let line = Shell::for_os("linux").exec("echo 'hello world!'");
    assert_eq!(line.program, "sh");
    assert_eq!(line.args, vec!["-c".to_string(), "echo 'hello world!'".to_string()]);
    assert!(call(&exited(0)).is_ok());
}

#[test]
fn exec_failure() {
    let line = Shell::for_os("linux").exec("made_up_command with parameters");
    assert_eq!(line.args[1], "made_up_command with parameters");
    match call(&Outcome::Exited { code: 127, stderr: "not found".to_string() }) {
        Err(CommandError::Status { code, stderr }) => {
            assert_eq!(code, 127);
            assert_eq!(stderr, "not found");
        }
        other => panic!("unexpected result: {other:?}"),
    }
}

#[test]
fn exec_in_cmd_uses_slash_c() {
    let line = Shell::for_os("windows").exec("dir");
    assert_eq!(line.program, "cmd");
    assert_eq!(line.args, vec!["/C".to_string(), "dir".to_string()]);
}

#[test]
fn command_success() {
    let command = ShellCommand::new(Shell::from_env(&Environment::empty(), "linux"), "echo 'hello world!'".to_string());
    let line = command.exec();
    assert_eq!(line.program, "sh");
    assert_eq!(line.args[1], "echo 'hello world!'");
    assert!(call(&exited(0)).is_ok());
}

#[test]
fn command_failure() {
    let command = ShellCommand::new(Shell::from_env(&Environment::empty(), "linux"), "made_up_command -a -b".to_string());
    let line = command.exec_bool();
    assert_eq!(line.args[1], "made_up_command -a -b");
    assert!(call(&exited(127)).is_err());
    assert!(call(&Outcome::Signaled { stderr: String::new() }).is_err());
}

#[test]
fn call_unchecked_failure() {
    let not_started = Outcome::NotStarted { reason: "No such file or directory".to_string() };
    assert!(matches!(call(&not_started), Err(CommandError::NotStarted { .. })));
}

#[test]
fn call_bool_success() {
    assert!(call_bool(&exited(0)).unwrap());
    assert!(!call_bool(&exited(1)).unwrap());
    assert!(!call_bool(&Outcome::Signaled { stderr: String::new() }).unwrap());
}

#[test]
fn call_bool_failure() {
    assert!(call_bool(&Outcome::NotStarted { reason: "missing".to_string() }).is_err());
}

#[test]
fn hook_from_name() {
    assert!(Hook::from("install".to_string()).same(&Hook::Install));
    assert!(Hook::from("uninstall".to_string()).same(&Hook::Uninstall));
    assert!(Hook::from("deploy".to_string()).same(&Hook::Custom("deploy".to_string())));
    assert!(!Hook::from("deploy".to_string()).same(&Hook::Install));
}

#[test]
fn shell_hook_runs_only_on_its_hooks() {
    let hook = ShellHook {
        on: vec![Hook::Install, Hook::Custom("deploy".to_string())],
        command: ShellCommand::new(Shell::for_os("linux"), "echo hi".to_string()),
    };
    assert!(hook.applies(&Hook::Install));
    assert!(!hook.applies(&Hook::Uninstall));
    assert!(hook.exec_for(&Hook::Custom("deploy".to_string())).is_some());
    assert!(hook.exec_for(&Hook::Uninstall).is_none());
    assert_eq!(hook.exec().args[1], "echo hi");
}

#[test]
fn remote_script_pipes_curl_into_shell() {
    let pipe = Shell::from("bash".to_string()).remote_script(&vec!["-fsSL".to_string(), "https://example.org".to_string()]);
    assert_eq!(pipe.first.program, "curl");
    assert_eq!(pipe.first.args, vec!["-fsSL".to_string(), "https://example.org".to_string()]);
    assert_eq!(pipe.second.program, "bash");
    assert!(pipe.second.args.is_empty());
}

#[test]
fn shell_spec_round_trip() {
    let shell = ShellSpec("/bin/zsh".to_string()).into_shell();
    assert_eq!(shell.kind, ShellKind::Zsh);
    assert_eq!(ShellSpec::from_shell(shell).0, "/bin/zsh");
}

#[test]
fn command_from_str() {
    let env = Environment::new(vec![("SHELL".to_string(), "/bin/bash".to_string())]);
    let cmd = ShellCommand::from("echo 'hello world!'".to_string(), &env, "linux");
    assert_eq!(cmd.shell.command, "/bin/bash");
    assert_eq!(cmd.shell.kind, ShellKind::Bash);
    assert_eq!(cmd.command, "echo 'hello world!'");
    let default = ShellCommand::from("x".to_string(), &Environment::empty(), "macos");
    assert_eq!(default.shell.command, "zsh");
}

#[test]
fn from_env() {
    let shell = Shell::from_env(&Environment::new(vec![("SHELL".to_string(), "/bin/fish".to_string())]), "linux");
    assert_ne!(shell.kind, ShellKind::Empty);
    let unset = Shell::from_env(&Environment::empty(), "linux");
    let default = Shell::for_os("linux");
    assert_eq!(unset.kind, default.kind);
    assert_eq!(unset.command, default.command);
}

#[test]
fn call_unchecked_success() {
    assert!(call(&exited(0)).is_ok());
}

#[test]
fn pipe_success() {
    match pipe_result(&Outcome::Exited { code: 0, stderr: "note".to_string() }, b"world\n".to_vec()) {
        Ok(out) => {
            assert_eq!(out.stdout, b"world\n".to_vec());
            assert_eq!(out.stderr, "note");
        }
        Err(e) => panic!("the pipe succeeded: {e:?}"),
    }
}

#[test]
fn pipe_failure() {
    match pipe_result(&Outcome::Exited { code: 2, stderr: "bad input".to_string() }, b"partial".to_vec()) {
        Err(CommandError::Status { stderr, .. }) => assert_eq!(stderr, "bad input"),
        other => panic!("unexpected result: {other:?}"),
    }
}

#[test]
fn pipe_plan() {
    let p = pipe("curl", &vec!["-s".to_string()], "sh", &vec![]);
    assert_eq!(p.first.program, "curl");
    assert_eq!(p.first.args, vec!["-s".to_string()]);
    assert_eq!(p.second.program, "sh");
}

#[test]
fn shell_kind_from_stem() {
    assert_eq!(ShellKind::from_stem(&Some("bash".to_string())), ShellKind::Bash);
    assert_eq!(ShellKind::from_stem(&Some("cmd".to_string())), ShellKind::Cmd);
    assert_eq!(ShellKind::from_stem(&Some("pwsh".to_string())), ShellKind::Powershell);
    assert_eq!(ShellKind::from_stem(&Some(String::new())), ShellKind::Empty);
    assert_eq!(ShellKind::from_stem(&None), ShellKind::Empty);
    assert_eq!(ShellKind::from_stem(&Some("fish".to_string())), ShellKind::Other);
}

#[test]
fn pipe_not_started_or_signaled_fails() {
    assert!(matches!(
        pipe_result(&Outcome::NotStarted { reason: "no such program".to_string() }, Vec::new()),
        Err(CommandError::NotStarted { .. })
    ));
    assert!(matches!(pipe_result(&Outcome::Signaled { stderr: String::new() }, Vec::new()), Err(CommandError::Signal { .. })));
}
