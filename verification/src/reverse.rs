//! The reverse synchronization channel.
//!
//! When receive paths are configured, a remote instance of the watch
//! capability is started over a persistent channel, scoped to those paths,
//! and its line-oriented output is forwarded to local logging. The channel is
//! best-effort: its failures are logged and never abort the forward loop.

use vstd::prelude::*;

use crate::config::ReceivePathRec;
use crate::config::SessionConfig;

verus! {

/// Path strings joined with single spaces, as one command argument list.
pub open spec fn spec_join_paths(ps: Seq<Seq<char>>) -> Seq<char>
    decreases ps.len(),
{
    if ps.len() == 0 {
        Seq::empty()
    } else if ps.len() == 1 {
        ps[0]
    } else {
        ps[0] + " "@ + spec_join_paths(ps.skip(1))
    }
}

/// The command that runs the remote watcher scoped to the receive paths,
/// from the remote counterpart's build tree under the remote root.
pub open spec fn spec_watch_command(root: Seq<char>, joined: Seq<char>) -> Seq<char> {
    "cargo run --manifest-path "@ + root + "/.dirsync/client/dirsync/Cargo.toml -- watch -r "@
        + root + " "@ + joined
}

/// The configured receive paths from position `i` on, joined with spaces.
fn join_paths_from(paths: &Vec<ReceivePathRec>, i: usize) -> (s: String)
    requires
        i <= paths@.len(),
    ensures
        s@ == spec_join_paths(paths@.map(|k: int, p: ReceivePathRec| p.path@).skip(i as int)),
    decreases paths@.len() - i,
{
    let ghost model = paths@.map(|k: int, p: ReceivePathRec| p.path@);
    if i == paths.len() {
        assert(model.skip(i as int) =~= Seq::<Seq<char>>::empty());
        String::new()
    } else {
        let mut s: String = String::new();
        s.append(paths[i].path.as_str());
        assert(model.skip(i as int)[0] == paths@[i as int].path@);
        if i + 1 == paths.len() {
            assert(model.skip(i as int).len() == 1);
            s
        } else {
            s.append(" ");
            let rest = join_paths_from(paths, i + 1);
            s.append(rest.as_str());
            assert(model.skip(i as int).skip(1) =~= model.skip(i as int + 1));
            assert(model.skip(i as int).len() > 1);
            s
        }
    }
}

/// The configured receive paths joined with single spaces.
pub fn joined_receive_paths(paths: &Vec<ReceivePathRec>) -> (s: String)
    ensures
        s@ == spec_join_paths(paths@.map(|k: int, p: ReceivePathRec| p.path@)),
{
    let s = join_paths_from(paths, 0);
    proof {
        assert(paths@.map(|k: int, p: ReceivePathRec| p.path@).skip(0) =~= paths@.map(
            |k: int, p: ReceivePathRec| p.path@,
        ));
    }
    s
}

/// The command that launches the remote watcher over the receive paths, or
/// nothing when no receive paths are configured.
pub fn reverse_sync_command(config: &SessionConfig) -> (r: Option<String>)
    ensures
        config.remote.receive_paths is None ==> r is None,
        config.remote.receive_paths matches Some(ps) ==> (r matches Some(cmd) && cmd@
            == spec_watch_command(
            config.remote.root@,
            spec_join_paths(ps@.map(|k: int, p: ReceivePathRec| p.path@)),
        )),
{
    match &config.remote.receive_paths {
        None => None,
        Some(paths) => {
            let joined = joined_receive_paths(paths);
            let mut cmd: String = String::new();
            cmd.append("cargo run --manifest-path ");
            cmd.append(config.remote.root.as_str());
            cmd.append("/.dirsync/client/dirsync/Cargo.toml -- watch -r ");
            cmd.append(config.remote.root.as_str());
            cmd.append(" ");
            cmd.append(joined.as_str());
            Some(cmd)
        },
    }
}

} // verus!
