//! Planning one synchronization pass.
//!
//! A pass is two invocations of the external transfer command — the control
//! directory first, unconditionally and with no exclude rules, then the full
//! tree with the exclude rules built from the configuration — followed by the
//! `onSyncDidFinish` hook on the remote. Any transfer failing is fatal for
//! the run.

use vstd::prelude::*;

use crate::config::ReceivePathRec;
use crate::config::SessionConfig;
use crate::config::spec_destination;
use crate::config::spec_exclude_path;

verus! {

/// One invocation of the external transfer command: a source path, a
/// `user@host:root` destination, and exclude-rule arguments.
#[derive(Debug, Clone)]
pub struct TransferInvocation {
    pub source: String,
    pub destination: String,
    pub args: Vec<String>,
}

/// The hook run on the remote after a pass completes.
pub fn sync_finished_hook() -> (r: &'static str)
    ensures
        r@ == "onSyncDidFinish"@,
{
    "onSyncDidFinish"
}

/// The hook run on the remote when a session starts.
pub fn session_start_hook() -> (r: &'static str)
    ensures
        r@ == "onSessionDidStart"@,
{
    "onSessionDidStart"
}

/// The local control directory, transferred ahead of the tree so hooks and
/// ignore rules are present on the remote even when excluded from the tree.
pub open spec fn spec_control_dir(c: SessionConfig) -> Seq<char> {
    c.local_root@ + "/.dirsync"@
}

/// One `--exclude=` rule per configured receive path.
pub open spec fn spec_receive_path_excludes(ps: Seq<ReceivePathRec>) -> Seq<Seq<char>> {
    ps.map(|i: int, p: ReceivePathRec| "--exclude="@ + p.path@)
}

/// The exclude rules of the tree transfer: the `.gitignore` reference only
/// when the feature is enabled and such a file exists, the dedicated exclude
/// file only when it exists, and one `--exclude=` rule per receive path.
pub open spec fn spec_exclude_args(
    c: SessionConfig,
    gitignore_exists: bool,
    exclude_file_exists: bool,
) -> Seq<Seq<char>> {
    (if c.ignore_gitignore && gitignore_exists {
        seq!["--exclude-from=.gitignore"@]
    } else {
        Seq::<Seq<char>>::empty()
    }) + (if exclude_file_exists {
        seq!["--exclude-from="@ + spec_exclude_path(c)]
    } else {
        Seq::<Seq<char>>::empty()
    }) + (match c.remote.receive_paths {
        Some(ps) => spec_receive_path_excludes(ps@),
        None => Seq::<Seq<char>>::empty(),
    })
}

/// Builds the exclude rules of the tree transfer. The two existence flags
/// report whether a `.gitignore` and the dedicated exclude file are present.
pub fn exclude_args(
    config: &SessionConfig,
    gitignore_exists: bool,
    exclude_file_exists: bool,
) -> (args: Vec<String>)
    ensures
        args.deep_view() =~= spec_exclude_args(*config, gitignore_exists, exclude_file_exists),
{
    let ghost head = (if config.ignore_gitignore && gitignore_exists {
        seq!["--exclude-from=.gitignore"@]
    } else {
        Seq::<Seq<char>>::empty()
    }) + (if exclude_file_exists {
        seq!["--exclude-from="@ + spec_exclude_path(*config)]
    } else {
        Seq::<Seq<char>>::empty()
    });
    let mut args: Vec<String> = Vec::new();
    if config.ignore_gitignore && gitignore_exists {
        let mut rule: String = String::new();
        rule.append("--exclude-from=.gitignore");
        args.push(rule);
    }
    if exclude_file_exists {
        let mut rule: String = String::new();
        rule.append("--exclude-from=");
        rule.append(config.exclude_path().as_str());
        args.push(rule);
    }
    assert(args.deep_view() =~= head);
    match &config.remote.receive_paths {
        None => {
            assert(args.deep_view() =~= spec_exclude_args(
                *config,
                gitignore_exists,
                exclude_file_exists,
            ));
        },
        Some(paths) => {
            let ghost ps = paths@;
            let mut i: usize = 0;
            while i < paths.len()
                invariant
                    i <= paths.len(),
                    paths@ == ps,
                    args.deep_view() =~= head + spec_receive_path_excludes(ps.take(i as int)),
                decreases paths.len() - i,
            {
                let mut rule: String = String::new();
                rule.append("--exclude=");
                rule.append(paths[i].path.as_str());
                assert(rule@ =~= "--exclude="@ + ps[i as int].path@);
                let ghost args_before = args.deep_view();
                args.push(rule);
                proof {
                    assert(args.deep_view() =~= args_before.push(rule@));
                    assert(ps.take(i as int + 1) =~= ps.take(i as int).push(ps[i as int]));
                    assert(spec_receive_path_excludes(ps.take(i as int + 1))
                        =~= spec_receive_path_excludes(ps.take(i as int)).push(
                        "--exclude="@ + ps[i as int].path@,
                    ));
                    assert(args.deep_view() =~= head + spec_receive_path_excludes(
                        ps.take(i as int + 1),
                    ));
                }
                i = i + 1;
            }
            proof {
                assert(ps.take(paths@.len() as int) =~= ps);
            }
        },
    }
    args
}

/// Plans one synchronization pass: the control directory is transferred
/// first, unconditionally and with no exclude rules; the full tree follows,
/// with the exclude rules of `spec_exclude_args`.
pub fn plan_sync_pass(
    config: &SessionConfig,
    gitignore_exists: bool,
    exclude_file_exists: bool,
) -> (plan: Vec<TransferInvocation>)
    ensures
        plan@.len() == 2,
        plan@[0].source@ == spec_control_dir(*config),
        plan@[0].destination@ == spec_destination(*config),
        plan@[0].args@.len() == 0,
        plan@[1].source@ == config.local_root@,
        plan@[1].destination@ == spec_destination(*config),
        plan@[1].args.deep_view() =~= spec_exclude_args(
            *config,
            gitignore_exists,
            exclude_file_exists,
        ),
{
    let mut control_dir: String = String::new();
    control_dir.append(config.local_root.as_str());
    control_dir.append("/.dirsync");
    let control = TransferInvocation {
        source: control_dir,
        destination: config.destination(),
        args: Vec::new(),
    };
    let tree = TransferInvocation {
        source: config.local_root.clone(),
        destination: config.destination(),
        args: exclude_args(config, gitignore_exists, exclude_file_exists),
    };
    let mut plan: Vec<TransferInvocation> = Vec::new();
    plan.push(control);
    plan.push(tree);
    plan
}

} // verus!
