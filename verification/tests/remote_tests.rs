use dirsync::bootstrap::InstallState;
use dirsync::bootstrap::InstallStep;
use dirsync::bootstrap::RemoteInstallError;
use dirsync::bootstrap::dirsync_client_dir;
use dirsync::bootstrap::install_begin;
use dirsync::bootstrap::install_failure;
use dirsync::bootstrap::install_step;
use dirsync::bootstrap::remove_command;
use dirsync::bootstrap::remove_dirsync_outcome;
use dirsync::cli::CliOptions;
use dirsync::cli::join_args;
use dirsync::config::ReceivePathRec;
use dirsync::config::RemoteConfigRecord;
use dirsync::config::SessionConfig;
use dirsync::decimal::dec_string;
use dirsync::remote::Remote;
use dirsync::remote::RemoteExecError;
use dirsync::remote::StartOutcome;
use dirsync::remote::chmod_command;
use dirsync::remote::exists_command;
use dirsync::remote::interpret_exists;
use dirsync::remote::remove_dir_command;
use dirsync::reverse::reverse_sync_command;

fn session_config(receive_paths: Option<Vec<&str>>) -> SessionConfig {
    SessionConfig {
        local_root: String::from("."),
        remote: RemoteConfigRecord {
            root: String::from("/srv/app"),
            host: String::from("example.com"),
            user: String::from("me"),
            receive_paths: receive_paths.map(|ps| {
                ps.into_iter().map(|p| ReceivePathRec { path: String::from(p) }).collect()
            }),
        },
        ignore_gitignore: true,
    }
}

#[test]
fn stream_to_end_reports_exit_status_zero() {
    let remote = Remote::with_root(String::from("/srv/app"));
    let mut command = remote.command("exit 0");
    assert_eq!(command.command, "cd /srv/app && exit 0");
    assert!(command.exec(StartOutcome::Started).is_ok());
    assert!(command.streamed(Ok(())).is_ok());
    assert_eq!(command.wait_close(Ok(0)).unwrap(), 0);
}

#[test]
fn stream_to_end_reports_exit_status_seven() {
    let remote = Remote::with_root(String::from("/srv/app"));
    let mut command = remote.command("exit 7");
    assert!(command.exec(StartOutcome::Started).is_ok());
    assert!(command.streamed(Ok(())).is_ok());
    assert_eq!(command.wait_close(Ok(7)).unwrap(), 7);
}

#[test]
fn a_refused_pty_request_names_the_command() {
    let remote = Remote::with_root(String::from("/srv/app"));
    let mut command = remote.command("ls");
    let err = command.exec(StartOutcome::PtyRefused(String::from("no pty"))).unwrap_err();
    let RemoteExecError::ExecError(cmd, detail) = err;
    assert_eq!(cmd, "cd /srv/app && ls");
    assert_eq!(detail, "no pty");
}

#[test]
fn a_refused_exec_call_names_the_command() {
    let remote = Remote::with_root(String::from("/srv/app"));
    let mut command = remote.command("ls");
    let err = command.exec(StartOutcome::ExecRefused(String::from("closed"))).unwrap_err();
    let RemoteExecError::ExecError(cmd, detail) = &err;
    assert_eq!(cmd, "cd /srv/app && ls");
    assert_eq!(detail, "closed");
    assert_eq!(
        err.message(),
        "Failed to execute remote command: cd /srv/app && ls with error: closed"
    );
}

#[test]
fn buffered_output_and_status_are_returned_unchanged() {
    let remote = Remote::with_root(String::from("/srv/app"));
    let mut command = remote.command("cat notes");
    assert!(command.exec(StartOutcome::Started).is_ok());
    let text = command.read_output(Ok(String::from("hello\n"))).unwrap();
    assert_eq!(text, "hello\n");
    assert_eq!(command.wait_close(Ok(0)).unwrap(), 0);
}

#[test]
fn environment_entries_prefix_the_command_line() {
    let remote = Remote::with_root(String::from("/srv/app"));
    let mut command = remote.command("make");
    assert_eq!(command.command_line(), " cd /srv/app && make");
    command.env("CC", "gcc");
    command.env("JOBS", "4");
    assert_eq!(command.command_line(), "CC=gcc JOBS=4 cd /srv/app && make");
    command.env("CC", "clang");
    assert_eq!(command.command_line(), "CC=clang JOBS=4 cd /srv/app && make");
}

#[test]
fn hook_probe_and_plan_follow_the_remote_layout() {
    let remote = Remote::with_root(String::from("/srv/app"));
    let path = remote.hook_path("onSyncDidFinish");
    assert_eq!(path, "/srv/app/.dirsync/actions/onSyncDidFinish/remote");
    assert_eq!(
        exists_command(&path),
        "test -f /srv/app/.dirsync/actions/onSyncDidFinish/remote && echo 1 || echo 0"
    );
    assert!(interpret_exists("1\n"));
    assert!(!interpret_exists("0\n"));
    assert!(!interpret_exists("1"));

    let plan = remote.hook_commands("onSyncDidFinish", "1\n").expect("hook present");
    assert_eq!(
        plan.chmod_command,
        "chmod +x /srv/app/.dirsync/actions/onSyncDidFinish/remote"
    );
    assert_eq!(plan.run_command, "/srv/app/.dirsync/actions/onSyncDidFinish/remote");
    assert!(remote.hook_commands("onSyncDidFinish", "0\n").is_none());
}

#[test]
fn remove_dir_is_a_recursive_delete() {
    assert_eq!(remove_dir_command("/srv/app"), "rm -rf /srv/app");
    assert_eq!(chmod_command("/srv/app/hook"), "chmod +x /srv/app/hook");
}

#[test]
fn install_probe_short_circuits_when_the_binary_is_present() {
    let (state, probe) = install_begin();
    assert_eq!(state, InstallState::Awaiting(InstallStep::Probe));
    assert_eq!(probe, "which dirsync");
    let (state, command) = install_step(state, 0);
    assert_eq!(state, InstallState::Installed);
    assert!(command.is_none(), "no directory, clone or build step runs");
    let (state, command) = install_step(state, 0);
    assert_eq!(state, InstallState::Installed, "a repeated installation is a no-op");
    assert!(command.is_none());
}

#[test]
fn probe_status_one_runs_exactly_three_gated_commands_in_order() {
    let (state, _probe) = install_begin();
    let (state, first) = install_step(state, 1);
    assert_eq!(state, InstallState::Awaiting(InstallStep::MakeDir));
    assert_eq!(
        first.unwrap(),
        "echo \"Making dir: .dirsync/client\" && mkdir -p .dirsync/client && cd .dirsync/client && ls"
    );
    let (state, second) = install_step(state, 0);
    assert_eq!(state, InstallState::Awaiting(InstallStep::CloneRepo));
    assert_eq!(
        second.unwrap(),
        "echo \"cloning into dir: .dirsync/client\" && cd .dirsync/client && ls && git clone https://github.com/spencerkohan/dirsync"
    );
    let (state, third) = install_step(state, 0);
    assert_eq!(state, InstallState::Awaiting(InstallStep::Build));
    assert_eq!(third.unwrap(), "cd .dirsync/client/dirsync && cargo build");
    let (state, fourth) = install_step(state, 0);
    assert_eq!(state, InstallState::Installed);
    assert!(fourth.is_none());
}

#[test]
fn a_failed_step_aborts_the_installation_at_that_step() {
    let (state, _probe) = install_begin();
    let (state, _mkdir) = install_step(state, 1);
    let (state, _clone) = install_step(state, 0);
    let (state, next) = install_step(state, 128);
    assert_eq!(state, InstallState::Failed(InstallStep::CloneRepo, 128));
    assert!(next.is_none(), "no later command is issued");
    let (state, next) = install_step(state, 0);
    assert_eq!(state, InstallState::Failed(InstallStep::CloneRepo, 128));
    assert!(next.is_none());
}

#[test]
fn installation_failures_name_the_step_and_the_status() {
    let RemoteInstallError::Error(m) = install_failure(InstallStep::MakeDir, 2);
    assert_eq!(m, "Failed make directory with status: 2");
    let RemoteInstallError::Error(m) = install_failure(InstallStep::CloneRepo, 128);
    assert_eq!(
        m,
        "Failed to clone https://github.com/spencerkohan/dirsync with status: 128"
    );
    let RemoteInstallError::Error(m) = install_failure(InstallStep::Build, 101);
    assert_eq!(m, "Failed to build dirsync with status: 101");
    let err = install_failure(InstallStep::Build, 101);
    assert_eq!(err.message(), "Remote install error: Failed to build dirsync with status: 101");
}

#[test]
fn removal_surfaces_a_nonzero_exit_status() {
    assert_eq!(dirsync_client_dir(), ".dirsync/client");
    assert_eq!(remove_command(), "rm -rf .dirsync/client");
    assert!(remove_dirsync_outcome(0).is_ok());
    let Err(RemoteInstallError::Error(m)) = remove_dirsync_outcome(3) else {
        panic!("a nonzero status is an error");
    };
    assert_eq!(m, "Failed to remove dirsync with status: 3");
}

#[test]
fn wrapped_exec_errors_keep_their_diagnostic() {
    let exec_err = RemoteExecError::ExecError(String::from("ls"), String::from("gone"));
    let RemoteInstallError::Error(m) = RemoteInstallError::wrap_exec_error(&exec_err);
    assert_eq!(m, "Failed to execute remote command: ls with error: gone");
}

#[test]
fn reverse_sync_runs_the_remote_watcher_over_the_receive_paths() {
    assert!(reverse_sync_command(&session_config(None)).is_none());
    let command = reverse_sync_command(&session_config(Some(vec!["logs", "cache"])))
        .expect("receive paths configured");
    assert_eq!(
        command,
        "cargo run --manifest-path /srv/app/.dirsync/client/dirsync/Cargo.toml -- watch -r /srv/app logs cache"
    );
}

#[test]
fn decimal_rendering_covers_negative_statuses() {
    assert_eq!(dec_string(0), "0");
    assert_eq!(dec_string(7), "7");
    assert_eq!(dec_string(12345), "12345");
    assert_eq!(dec_string(-1), "-1");
    assert_eq!(dec_string(i32::MIN), "-2147483648");
    assert_eq!(dec_string(i32::MAX), "2147483647");
}

#[test]
fn one_off_remote_commands_join_their_words() {
    assert_eq!(join_args(&vec![]), "");
    assert_eq!(join_args(&vec![String::from("ls")]), "ls");
    assert_eq!(
        join_args(&vec![String::from("ls"), String::from("-la"), String::from("src")]),
        "ls -la src"
    );
}

#[test]
fn the_local_root_defaults_to_the_current_directory() {
    let opts = CliOptions { source: None, subcommand: None };
    assert_eq!(opts.local_root(), ".");
    let opts = CliOptions { source: Some(String::from("/tmp/tree")), subcommand: None };
    assert_eq!(opts.local_root(), "/tmp/tree");
}

#[test]
fn version_is_reported() {
    assert_eq!(dirsync::version(), "0.2.0");
}
