//! Idempotent installation of the remote counterpart.
//!
//! Installation probes for an existing remote binary first and short-circuits
//! when one is found. Otherwise three remote commands run in order — create
//! the client directory, clone the source, build it — each gated on the
//! previous one exiting with status zero; the first nonzero status aborts the
//! whole installation with an error naming the failed step.

use vstd::prelude::*;

use crate::decimal::dec_string;
use crate::decimal::spec_dec;
use crate::remote::RemoteExecError;

verus! {

/// Where the remote counterpart is installed, relative to the remote root.
pub fn dirsync_client_dir() -> (r: &'static str)
    ensures
        r@ == ".dirsync/client"@,
{
    ".dirsync/client"
}

/// The probe that reports, by exit status, whether the remote binary exists.
pub open spec fn spec_probe_command() -> Seq<char> {
    "which dirsync"@
}

/// The first installation step: create the client directory.
pub open spec fn spec_make_dir_command() -> Seq<char> {
    "echo \"Making dir: .dirsync/client\" && mkdir -p .dirsync/client && cd .dirsync/client && ls"@
}

/// The second installation step: fetch the source.
pub open spec fn spec_clone_command() -> Seq<char> {
    "echo \"cloning into dir: .dirsync/client\" && cd .dirsync/client && ls && git clone https://github.com/spencerkohan/dirsync"@
}

/// The third installation step: build the fetched source.
pub open spec fn spec_build_command() -> Seq<char> {
    "cd .dirsync/client/dirsync && cargo build"@
}

/// The command that removes the remote counterpart.
pub open spec fn spec_remove_command() -> Seq<char> {
    "rm -rf .dirsync/client"@
}

/// The probe that reports whether the remote binary exists.
pub fn probe_command() -> (r: &'static str)
    ensures
        r@ == spec_probe_command(),
{
    "which dirsync"
}

/// The command of the first installation step.
pub fn make_dir_command() -> (r: &'static str)
    ensures
        r@ == spec_make_dir_command(),
{
    "echo \"Making dir: .dirsync/client\" && mkdir -p .dirsync/client && cd .dirsync/client && ls"
}

/// The command of the second installation step.
pub fn clone_command() -> (r: &'static str)
    ensures
        r@ == spec_clone_command(),
{
    "echo \"cloning into dir: .dirsync/client\" && cd .dirsync/client && ls && git clone https://github.com/spencerkohan/dirsync"
}

/// The command of the third installation step.
pub fn build_command() -> (r: &'static str)
    ensures
        r@ == spec_build_command(),
{
    "cd .dirsync/client/dirsync && cargo build"
}

/// The command that removes the remote counterpart.
pub fn remove_command() -> (r: &'static str)
    ensures
        r@ == spec_remove_command(),
{
    "rm -rf .dirsync/client"
}

/// The remote commands of one installation, in the order they may run.
#[derive(Debug, Clone, Copy, PartialEq, Eq, Structural)]
pub enum InstallStep {
    Probe,
    MakeDir,
    CloneRepo,
    Build,
}

/// Where one installation stands: waiting on a step's exit status, finished,
/// or aborted by the step that reported the recorded nonzero status.
#[derive(Debug, Clone, Copy, PartialEq, Eq, Structural)]
pub enum InstallState {
    Awaiting(InstallStep),
    Installed,
    Failed(InstallStep, i32),
}

/// An installation or removal of the remote counterpart failed.
#[derive(Debug, Clone)]
pub enum RemoteInstallError {
    Error(String),
}

/// The command a step sends.
pub open spec fn spec_step_command(step: InstallStep) -> Seq<char> {
    match step {
        InstallStep::Probe => spec_probe_command(),
        InstallStep::MakeDir => spec_make_dir_command(),
        InstallStep::CloneRepo => spec_clone_command(),
        InstallStep::Build => spec_build_command(),
    }
}

/// The step that follows a successful one, if any.
pub open spec fn spec_next_step(step: InstallStep) -> Option<InstallStep> {
    match step {
        InstallStep::Probe => Some(InstallStep::MakeDir),
        InstallStep::MakeDir => Some(InstallStep::CloneRepo),
        InstallStep::CloneRepo => Some(InstallStep::Build),
        InstallStep::Build => None,
    }
}

/// One transition of the installation, given the exit status of the step
/// just finished: the probe short-circuits to `Installed` on status zero and
/// otherwise starts the three real steps; each real step advances only on
/// status zero and aborts otherwise. The result carries the next command to
/// send, when there is one.
pub open spec fn spec_install_step(state: InstallState, status: i32) -> (
    InstallState,
    Option<Seq<char>>,
) {
    match state {
        InstallState::Awaiting(step) => {
            if step is Probe {
                if status == 0 {
                    (InstallState::Installed, None)
                } else {
                    (
                        InstallState::Awaiting(InstallStep::MakeDir),
                        Some(spec_make_dir_command()),
                    )
                }
            } else {
                if status == 0 {
                    match spec_next_step(step) {
                        Some(next) => (InstallState::Awaiting(next), Some(spec_step_command(next))),
                        None => (InstallState::Installed, None),
                    }
                } else {
                    (InstallState::Failed(step, status), None)
                }
            }
        },
        InstallState::Installed => (InstallState::Installed, None),
        InstallState::Failed(step, s) => (InstallState::Failed(step, s), None),
    }
}

/// Begins one installation: the probe is sent first.
pub fn install_begin() -> (r: (InstallState, String))
    ensures
        r.0 == InstallState::Awaiting(InstallStep::Probe),
        r.1@ == spec_probe_command(),
{
    let mut cmd: String = String::new();
    cmd.append("which dirsync");
    (InstallState::Awaiting(InstallStep::Probe), cmd)
}

/// Advances one installation by the exit status of the step just finished,
/// returning the new state and the next command to send, if any.
pub fn install_step(state: InstallState, status: i32) -> (r: (InstallState, Option<String>))
    ensures
        r.0 == spec_install_step(state, status).0,
        match spec_install_step(state, status).1 {
            Some(text) => r.1 matches Some(cmd) && cmd@ == text,
            None => r.1 is None,
        },
{
    match state {
        InstallState::Awaiting(step) => {
            match step {
                InstallStep::Probe => {
                    if status == 0 {
                        (InstallState::Installed, None)
                    } else {
                        let mut cmd: String = String::new();
                        cmd.append(make_dir_command());
                        (InstallState::Awaiting(InstallStep::MakeDir), Some(cmd))
                    }
                },
                InstallStep::MakeDir => {
                    if status == 0 {
                        let mut cmd: String = String::new();
                        cmd.append(clone_command());
                        (InstallState::Awaiting(InstallStep::CloneRepo), Some(cmd))
                    } else {
                        (InstallState::Failed(InstallStep::MakeDir, status), None)
                    }
                },
                InstallStep::CloneRepo => {
                    if status == 0 {
                        let mut cmd: String = String::new();
                        cmd.append(build_command());
                        (InstallState::Awaiting(InstallStep::Build), Some(cmd))
                    } else {
                        (InstallState::Failed(InstallStep::CloneRepo, status), None)
                    }
                },
                InstallStep::Build => {
                    if status == 0 {
                        (InstallState::Installed, None)
                    } else {
                        (InstallState::Failed(InstallStep::Build, status), None)
                    }
                },
            }
        },
        InstallState::Installed => (InstallState::Installed, None),
        InstallState::Failed(step, s) => (InstallState::Failed(step, s), None),
    }
}

/// The diagnostic of an aborted installation, naming the failed step and the
/// status it reported.
pub open spec fn spec_install_failure_message(step: InstallStep, status: i32) -> Seq<char> {
    match step {
        InstallStep::Probe => "Failed to probe for dirsync with status: "@ + spec_dec(
            status as int,
        ),
        InstallStep::MakeDir => "Failed make directory with status: "@ + spec_dec(status as int),
        InstallStep::CloneRepo => (
            "Failed to clone https://github.com/spencerkohan/dirsync with status: "@ + spec_dec(
                status as int,
            )
        ),
        InstallStep::Build => "Failed to build dirsync with status: "@ + spec_dec(status as int),
    }
}

/// The error an aborted installation surfaces.
pub fn install_failure(step: InstallStep, status: i32) -> (r: RemoteInstallError)
    ensures
        r matches RemoteInstallError::Error(m) && m@ == spec_install_failure_message(step, status),
{
    let mut m: String = String::new();
    match step {
        InstallStep::Probe => m.append("Failed to probe for dirsync with status: "),
        InstallStep::MakeDir => m.append("Failed make directory with status: "),
        InstallStep::CloneRepo => m.append(
            "Failed to clone https://github.com/spencerkohan/dirsync with status: ",
        ),
        InstallStep::Build => m.append("Failed to build dirsync with status: "),
    }
    m.append(dec_string(status).as_str());
    RemoteInstallError::Error(m)
}

/// The outcome of removing the remote counterpart: a nonzero exit status of
/// the recursive delete is surfaced as an error carrying that status.
pub fn remove_dirsync_outcome(status: i32) -> (r: Result<(), RemoteInstallError>)
    ensures
        status == 0 ==> r is Ok,
        status != 0 ==> (r matches Err(RemoteInstallError::Error(m)) && m@
            == "Failed to remove dirsync with status: "@ + spec_dec(status as int)),
{
    if status == 0 {
        Ok(())
    } else {
        let mut m: String = String::new();
        m.append("Failed to remove dirsync with status: ");
        m.append(dec_string(status).as_str());
        Err(RemoteInstallError::Error(m))
    }
}

impl RemoteInstallError {
    /// A diagnostic line for the operator.
    pub fn message(&self) -> (s: String)
        ensures
            s@ == match self {
                RemoteInstallError::Error(m) => "Remote install error: "@ + m@,
            },
    {
        match self {
            RemoteInstallError::Error(m) => {
                let mut s: String = String::new();
                s.append("Remote install error: ");
                s.append(m.as_str());
                s
            },
        }
    }

    /// Wraps a failed remote command, keeping its diagnostic.
    pub fn wrap_exec_error(e: &RemoteExecError) -> (r: RemoteInstallError)
        ensures
            r matches RemoteInstallError::Error(m) && m@ == match e {
                RemoteExecError::ExecError(cmd, err) => (
                    "Failed to execute remote command: "@ + cmd@ + " with error: "@ + err@
                ),
            },
    {
        RemoteInstallError::Error(e.message())
    }
}

/// One installation run: the state after consuming the exit statuses in
/// order, and the commands issued along the way. The probe's status is the
/// first of the sequence.
pub open spec fn spec_install_run(state: InstallState, statuses: Seq<i32>) -> (
    InstallState,
    Seq<Seq<char>>,
)
    decreases statuses.len(),
{
    if statuses.len() == 0 {
        (state, Seq::empty())
    } else {
        let stepped = spec_install_step(state, statuses[0]);
        let rest = spec_install_run(stepped.0, statuses.skip(1));
        (
            rest.0,
            (match stepped.1 {
                Some(c) => seq![c],
                None => Seq::<Seq<char>>::empty(),
            }) + rest.1,
        )
    }
}

/// A finished installation ignores further statuses and issues no commands.
proof fn lemma_install_run_absorbed(state: InstallState, statuses: Seq<i32>)
    requires
        state is Installed || state is Failed,
    ensures
        spec_install_run(state, statuses) == (state, Seq::<Seq<char>>::empty()),
    decreases statuses.len(),
{
    if statuses.len() == 0 {
    } else {
        lemma_install_run_absorbed(state, statuses.skip(1));
        assert(Seq::<Seq<char>>::empty() + Seq::<Seq<char>>::empty() =~= Seq::<
            Seq<char>,
        >::empty());
    }
}

/// Installation is idempotent: whenever the probe reports the remote binary
/// present (status zero) — as it does once an installation has succeeded —
/// the run ends installed without issuing any command, so a repeated
/// installation performs no directory, clone or build step.
pub proof fn lemma_install_idempotent(statuses: Seq<i32>)
    requires
        statuses.len() >= 1,
        statuses[0] == 0,
    ensures
        spec_install_run(InstallState::Awaiting(InstallStep::Probe), statuses) == (
            InstallState::Installed,
            Seq::<Seq<char>>::empty(),
        ),
{
    lemma_install_run_absorbed(InstallState::Installed, statuses.skip(1));
    assert(Seq::<Seq<char>>::empty() + Seq::<Seq<char>>::empty() =~= Seq::<Seq<char>>::empty());
}

/// When the probe reports the binary absent and every step succeeds, exactly
/// the three installation commands run, in order: make the directory, clone
/// the source, build it.
pub proof fn lemma_install_when_absent(probe_status: i32, s1: i32, s2: i32, s3: i32)
    requires
        probe_status != 0,
        s1 == 0,
        s2 == 0,
        s3 == 0,
    ensures
        spec_install_run(
            InstallState::Awaiting(InstallStep::Probe),
            seq![probe_status, s1, s2, s3],
        ) == (
            InstallState::Installed,
            seq![spec_make_dir_command(), spec_clone_command(), spec_build_command()],
        ),
{
    reveal_with_fuel(spec_install_run, 5);
    let statuses = seq![probe_status, s1, s2, s3];
    assert(statuses.skip(1) =~= seq![s1, s2, s3]);
    assert(seq![s1, s2, s3].skip(1) =~= seq![s2, s3]);
    assert(seq![s2, s3].skip(1) =~= seq![s3]);
    assert(seq![s3].skip(1) =~= Seq::<i32>::empty());
    assert(spec_install_run(
        InstallState::Awaiting(InstallStep::Probe),
        statuses,
    ).1 =~= seq![spec_make_dir_command(), spec_clone_command(), spec_build_command()]);
}

/// Each installation step is gated on the previous one: the first nonzero
/// status aborts the run at that step, and no later command is issued.
pub proof fn lemma_install_fail_fast(probe_status: i32, s1: i32, s2: i32)
    requires
        probe_status != 0,
        s1 == 0,
        s2 != 0,
    ensures
        spec_install_run(
            InstallState::Awaiting(InstallStep::Probe),
            seq![probe_status, s1, s2],
        ) == (
            InstallState::Failed(InstallStep::CloneRepo, s2),
            seq![spec_make_dir_command(), spec_clone_command()],
        ),
{
    reveal_with_fuel(spec_install_run, 4);
    let statuses = seq![probe_status, s1, s2];
    assert(statuses.skip(1) =~= seq![s1, s2]);
    assert(seq![s1, s2].skip(1) =~= seq![s2]);
    assert(seq![s2].skip(1) =~= Seq::<i32>::empty());
    assert(spec_install_run(
        InstallState::Awaiting(InstallStep::Probe),
        statuses,
    ).1 =~= seq![spec_make_dir_command(), spec_clone_command()]);
}

} // verus!
