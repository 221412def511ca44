//! The remote session model.
//!
//! A session owns one authenticated connection and a resolved remote root;
//! commands are bound to independent channels, each with its own lifecycle
//! `Built -> Executing -> Closed`. The transport itself is an external
//! collaborator: the functions here construct the exact command text sent to
//! it and decide, from each observed outcome, the next lifecycle state and
//! the caller-visible result.

use vstd::prelude::*;

verus! {

/// A connected session: the resolved remote root every command starts in.
#[derive(Debug, Clone)]
pub struct Remote {
    pub root: String,
}

/// The lifecycle of one command channel.
#[derive(Debug, Clone, Copy, PartialEq, Eq, Structural)]
pub enum CommandState {
    Built,
    Executing,
    Closed,
}

/// A command string bound to a channel, with an environment mapping whose
/// keys are unique, in insertion order.
#[derive(Debug, Clone)]
pub struct RemoteCommand {
    pub command: String,
    pub environment: Vec<(String, String)>,
    pub state: CommandState,
}

/// A remote command failed: the offending command text and the underlying
/// error text.
#[derive(Debug, Clone)]
pub enum RemoteExecError {
    ExecError(String, String),
}

/// How starting remote execution went: the pseudo-terminal request or the
/// exec call was rejected with an error text, or execution started.
pub enum StartOutcome {
    PtyRefused(String),
    ExecRefused(String),
    Started,
}

/// `cd <root> && <command>`: every command runs in the resolved remote root.
pub open spec fn spec_cd_command(root: Seq<char>, command: Seq<char>) -> Seq<char> {
    "cd "@ + root + " && "@ + command
}

/// `<root>/.dirsync/actions/<event>/remote`: where a lifecycle hook lives.
pub open spec fn spec_hook_path(root: Seq<char>, event: Seq<char>) -> Seq<char> {
    root + "/.dirsync/actions/"@ + event + "/remote"@
}

/// The shell probe whose output tells whether a remote file exists.
pub open spec fn spec_exists_command(path: Seq<char>) -> Seq<char> {
    "test -f "@ + path + " && echo 1 || echo 0"@
}

/// The command that marks a hook executable.
pub open spec fn spec_chmod_command(path: Seq<char>) -> Seq<char> {
    "chmod +x "@ + path
}

/// The best-effort recursive remote delete.
pub open spec fn spec_remove_dir_command(path: Seq<char>) -> Seq<char> {
    "rm -rf "@ + path
}

/// The environment mapping as pairs of character sequences.
pub open spec fn spec_env_model(env: Seq<(String, String)>) -> Seq<(Seq<char>, Seq<char>)> {
    env.map(|i: int, p: (String, String)| (p.0@, p.1@))
}

/// `var=val` entries joined with single spaces.
pub open spec fn spec_env_join(env: Seq<(Seq<char>, Seq<char>)>) -> Seq<char>
    decreases env.len(),
{
    if env.len() == 0 {
        Seq::empty()
    } else if env.len() == 1 {
        env[0].0 + "="@ + env[0].1
    } else {
        env[0].0 + "="@ + env[0].1 + " "@ + spec_env_join(env.skip(1))
    }
}

/// The full command line sent on exec: the environment prefix, one space,
/// then the bound command.
pub open spec fn spec_command_line(c: RemoteCommand) -> Seq<char> {
    spec_env_join(spec_env_model(c.environment@)) + " "@ + c.command@
}

/// The environment after binding `var`: an existing entry with that key is
/// overwritten in place, a new key is appended.
pub open spec fn spec_env_insert(
    env: Seq<(Seq<char>, Seq<char>)>,
    var: Seq<char>,
    val: Seq<char>,
) -> Seq<(Seq<char>, Seq<char>)>
    decreases env.len(),
{
    if env.len() == 0 {
        seq![(var, val)]
    } else if env[0].0 == var {
        seq![(var, val)] + env.skip(1)
    } else {
        seq![env[0]] + spec_env_insert(env.skip(1), var, val)
    }
}

/// Starting execution: a refused pseudo-terminal request or a refused exec
/// call wraps the offending command text into an error and leaves the
/// channel built; a started execution moves it to `Executing`.
pub open spec fn spec_exec_step(c: RemoteCommand, outcome: StartOutcome) -> (
    RemoteCommand,
    Result<(), RemoteExecError>,
) {
    match outcome {
        StartOutcome::PtyRefused(e) => (c, Err(RemoteExecError::ExecError(c.command, e))),
        StartOutcome::ExecRefused(e) => (c, Err(RemoteExecError::ExecError(c.command, e))),
        StartOutcome::Started => (
            RemoteCommand { state: CommandState::Executing, ..c },
            Ok(()),
        ),
    }
}

/// Draining the output streams: a read failure wraps the command text; a
/// clean drain changes nothing.
pub open spec fn spec_streamed_step(c: RemoteCommand, outcome: Result<(), String>) -> (
    RemoteCommand,
    Result<(), RemoteExecError>,
) {
    match outcome {
        Ok(u) => (c, Ok(())),
        Err(e) => (c, Err(RemoteExecError::ExecError(c.command, e))),
    }
}

/// Closing the channel: a reported exit status is returned unchanged and
/// closes the channel; a close failure wraps the command text and leaves the
/// channel as it was.
pub open spec fn spec_wait_close_step(c: RemoteCommand, outcome: Result<i32, String>) -> (
    RemoteCommand,
    Result<i32, RemoteExecError>,
) {
    match outcome {
        Ok(status) => (RemoteCommand { state: CommandState::Closed, ..c }, Ok(status)),
        Err(e) => (c, Err(RemoteExecError::ExecError(c.command, e))),
    }
}

impl Remote {
    /// A session model over an already-authenticated connection whose remote
    /// root resolved to `root`.
    pub fn with_root(root: String) -> (r: Remote)
        ensures
            r.root == root,
    {
        Remote { root }
    }

    /// Binds a command to a fresh channel, prefixed with a directory change
    /// into the remote root.
    pub fn command(&self, command: &str) -> (c: RemoteCommand)
        ensures
            c.command@ == spec_cd_command(self.root@, command@),
            c.environment@.len() == 0,
            c.state is Built,
    {
        let mut cmd: String = String::new();
        cmd.append("cd ");
        cmd.append(self.root.as_str());
        cmd.append(" && ");
        cmd.append(command);
        RemoteCommand { command: cmd, environment: Vec::new(), state: CommandState::Built }
    }

    /// The path a lifecycle hook must occupy to be run.
    pub fn hook_path(&self, event: &str) -> (s: String)
        ensures
            s@ == spec_hook_path(self.root@, event@),
    {
        let mut s: String = String::new();
        s.append(self.root.as_str());
        s.append("/.dirsync/actions/");
        s.append(event);
        s.append("/remote");
        s
    }

    /// The plan for one lifecycle hook, given what the remote existence
    /// probe printed: when the hook file exists, mark it executable and run
    /// it; otherwise there is nothing to do.
    pub fn hook_commands(&self, event: &str, exists_output: &str) -> (r: Option<HookPlan>)
        ensures
            exists_output@ == "1\n"@ ==> (r matches Some(p) && p.chmod_command@
                == spec_chmod_command(spec_hook_path(self.root@, event@)) && p.run_command@
                == spec_hook_path(self.root@, event@)),
            exists_output@ != "1\n"@ ==> r is None,
    {
        if interpret_exists(exists_output) {
            let path = self.hook_path(event);
            let chmod = chmod_command(path.as_str());
            Some(HookPlan { chmod_command: chmod, run_command: path })
        } else {
            None
        }
    }
}

/// What `execute_if_exists` runs when the hook is present: first the chmod,
/// then the hook itself, its output streamed to the caller.
#[derive(Debug, Clone)]
pub struct HookPlan {
    pub chmod_command: String,
    pub run_command: String,
}

/// The shell probe for a remote file's existence.
pub fn exists_command(path: &str) -> (s: String)
    ensures
        s@ == spec_exists_command(path@),
{
    let mut s: String = String::new();
    s.append("test -f ");
    s.append(path);
    s.append(" && echo 1 || echo 0");
    s
}

/// Whether the existence probe's output reports a present file.
pub fn interpret_exists(output: &str) -> (b: bool)
    ensures
        b == (output@ == "1\n"@),
{
    let out = String::from_str(output);
    let expected = String::from_str("1\n");
    out == expected
}

/// The command that marks a hook executable.
pub fn chmod_command(path: &str) -> (s: String)
    ensures
        s@ == spec_chmod_command(path@),
{
    let mut s: String = String::new();
    s.append("chmod +x ");
    s.append(path);
    s
}

/// The best-effort recursive remote delete; its exit status is not checked.
pub fn remove_dir_command(path: &str) -> (s: String)
    ensures
        s@ == spec_remove_dir_command(path@),
{
    let mut s: String = String::new();
    s.append("rm -rf ");
    s.append(path);
    s
}

impl RemoteCommand {
    /// Binds an environment variable for this command; a rebound key is
    /// overwritten in place.
    pub fn env(&mut self, var: &str, val: &str)
        ensures
            spec_env_model(final(self).environment@) == spec_env_insert(
                spec_env_model(old(self).environment@),
                var@,
                val@,
            ),
            final(self).command == old(self).command,
            final(self).state == old(self).state,
    {
        let ghost orig = spec_env_model(self.environment@);
        let mut i: usize = 0;
        while i < self.environment.len()
            invariant
                i <= self.environment@.len(),
                spec_env_model(self.environment@) == orig,
                spec_env_model(old(self).environment@) == orig,
                self.command == old(self).command,
                self.state == old(self).state,
                forall|j: int| 0 <= j < i ==> orig[j].0 != var@,
            decreases self.environment@.len() - i,
        {
            if crate::str_eq(self.environment[i].0.as_str(), var) {
                let pair = (String::from_str(var), String::from_str(val));
                self.environment.set(i, pair);
                proof {
                    lemma_env_insert_at(orig, var@, val@, i as int);
                    assert(spec_env_model(self.environment@) =~= orig.update(
                        i as int,
                        (var@, val@),
                    ));
                }
                return ;
            }
            i = i + 1;
        }
        let pair = (String::from_str(var), String::from_str(val));
        self.environment.push(pair);
        proof {
            lemma_env_insert_absent(orig, var@, val@);
            assert(spec_env_model(self.environment@) =~= orig.push((var@, val@)));
        }
    }

    /// The full command line sent on exec: environment prefix, one space,
    /// then the bound command.
    pub fn command_line(&self) -> (s: String)
        ensures
            s@ == spec_command_line(*self),
    {
        let mut s = env_join_from(&self.environment, 0);
        s.append(" ");
        s.append(self.command.as_str());
        proof {
            assert(self.environment@.map(
                |i: int, p: (String, String)| (p.0@, p.1@),
            ).skip(0) =~= spec_env_model(self.environment@));
        }
        s
    }

    /// Starts remote execution, given how the pseudo-terminal request and
    /// the exec call went.
    pub fn exec(&mut self, outcome: StartOutcome) -> (r: Result<(), RemoteExecError>)
        requires
            old(self).state is Built,
        ensures
            (*final(self), r) == spec_exec_step(*old(self), outcome),
    {
        match outcome {
            StartOutcome::PtyRefused(e) => Err(
                RemoteExecError::ExecError(self.command.clone(), e),
            ),
            StartOutcome::ExecRefused(e) => Err(
                RemoteExecError::ExecError(self.command.clone(), e),
            ),
            StartOutcome::Started => {
                self.state = CommandState::Executing;
                Ok(())
            },
        }
    }

    /// Accounts for the concurrent drain of stdout and stderr.
    pub fn streamed(&mut self, outcome: Result<(), String>) -> (r: Result<(), RemoteExecError>)
        requires
            old(self).state is Executing,
        ensures
            (*final(self), r) == spec_streamed_step(*old(self), outcome),
    {
        match outcome {
            Ok(u) => Ok(()),
            Err(e) => Err(RemoteExecError::ExecError(self.command.clone(), e)),
        }
    }

    /// Accounts for buffering the command's output into a string.
    pub fn read_output(&mut self, outcome: Result<String, String>) -> (r: Result<
        String,
        RemoteExecError,
    >)
        requires
            old(self).state is Executing,
        ensures
            *final(self) == *old(self),
            outcome matches Ok(text) ==> r == Ok::<String, RemoteExecError>(text),
            outcome matches Err(e) ==> r == Err::<String, RemoteExecError>(
                RemoteExecError::ExecError(old(self).command, e),
            ),
    {
        match outcome {
            Ok(text) => Ok(text),
            Err(e) => Err(RemoteExecError::ExecError(self.command.clone(), e)),
        }
    }

    /// Closes the channel and reports the remote exit status unchanged.
    pub fn wait_close(&mut self, outcome: Result<i32, String>) -> (r: Result<i32, RemoteExecError>)
        requires
            old(self).state is Executing,
        ensures
            (*final(self), r) == spec_wait_close_step(*old(self), outcome),
    {
        match outcome {
            Ok(status) => {
                self.state = CommandState::Closed;
                Ok(status)
            },
            Err(e) => Err(RemoteExecError::ExecError(self.command.clone(), e)),
        }
    }
}

impl RemoteExecError {
    /// A diagnostic line for the operator.
    pub fn message(&self) -> (s: String)
        ensures
            s@ == match self {
                RemoteExecError::ExecError(cmd, e) => (
                    "Failed to execute remote command: "@ + cmd@ + " with error: "@ + e@
                ),
            },
    {
        match self {
            RemoteExecError::ExecError(cmd, e) => {
                let mut s: String = String::new();
                s.append("Failed to execute remote command: ");
                s.append(cmd.as_str());
                s.append(" with error: ");
                s.append(e.as_str());
                s
            },
        }
    }
}

/// The `var=val` entries from position `i` on, joined with single spaces.
fn env_join_from(env: &Vec<(String, String)>, i: usize) -> (s: String)
    requires
        i <= env@.len(),
    ensures
        s@ == spec_env_join(
            env@.map(|k: int, p: (String, String)| (p.0@, p.1@)).skip(i as int),
        ),
    decreases env@.len() - i,
{
    let ghost model = env@.map(|k: int, p: (String, String)| (p.0@, p.1@));
    if i == env.len() {
        assert(model.skip(i as int) =~= Seq::<(Seq<char>, Seq<char>)>::empty());
        String::new()
    } else {
        let mut s: String = String::new();
        s.append(env[i].0.as_str());
        s.append("=");
        s.append(env[i].1.as_str());
        assert(model.skip(i as int)[0] == (env@[i as int].0@, env@[i as int].1@));
        if i + 1 == env.len() {
            assert(model.skip(i as int).len() == 1);
            s
        } else {
            s.append(" ");
            let rest = env_join_from(env, i + 1);
            s.append(rest.as_str());
            assert(model.skip(i as int).skip(1) =~= model.skip(i as int + 1));
            assert(model.skip(i as int).len() > 1);
            s
        }
    }
}

/// Overwriting a key found at position `i` (and at no earlier position)
/// updates that entry in place.
proof fn lemma_env_insert_at(
    env: Seq<(Seq<char>, Seq<char>)>,
    var: Seq<char>,
    val: Seq<char>,
    i: int,
)
    requires
        0 <= i < env.len(),
        env[i].0 == var,
        forall|j: int| 0 <= j < i ==> env[j].0 != var,
    ensures
        spec_env_insert(env, var, val) == env.update(i, (var, val)),
    decreases i,
{
    if i == 0 {
        assert(spec_env_insert(env, var, val) =~= env.update(0, (var, val)));
    } else {
        lemma_env_insert_at(env.skip(1), var, val, i - 1);
        assert(env.skip(1).update(i - 1, (var, val)) =~= env.update(i, (var, val)).skip(1));
        assert(spec_env_insert(env, var, val) =~= env.update(i, (var, val)));
    }
}

/// Binding a key no entry holds appends a new entry.
proof fn lemma_env_insert_absent(env: Seq<(Seq<char>, Seq<char>)>, var: Seq<char>, val: Seq<char>)
    requires
        forall|j: int| 0 <= j < env.len() ==> env[j].0 != var,
    ensures
        spec_env_insert(env, var, val) == env.push((var, val)),
    decreases env.len(),
{
    if env.len() == 0 {
        assert(spec_env_insert(env, var, val) =~= env.push((var, val)));
    } else {
        lemma_env_insert_absent(env.skip(1), var, val);
        assert(env.skip(1).push((var, val)) =~= env.push((var, val)).skip(1));
        assert(spec_env_insert(env, var, val) =~= env.push((var, val)));
    }
}

/// A command bound to a channel and executed, its streams drained and the
/// channel closed without incident, reports exactly the exit status the
/// channel carried — `exit 0` yields 0, `exit 7` yields 7.
pub proof fn lemma_stream_to_end_reports_exit_status(c: RemoteCommand, status: i32)
    requires
        c.state is Built,
    ensures
        ({
            let started = spec_exec_step(c, StartOutcome::Started);
            let drained = spec_streamed_step(started.0, Ok(()));
            let closed = spec_wait_close_step(drained.0, Ok(status));
            &&& started.1 is Ok
            &&& drained.1 is Ok
            &&& closed.1 == Ok::<i32, RemoteExecError>(status)
            &&& closed.0.state is Closed
            &&& closed.0.command == c.command
        }),
{
}

} // verus!
