//! The resolved command-line surface.
//!
//! Argument parsing itself is an external collaborator; these are the plain
//! values the library consumes once parsing is done.

use vstd::prelude::*;

use crate::config::RemoteConfigRecord;
use crate::reverse::spec_join_paths;

verus! {

/// Tools for working with the remote.
#[derive(Debug, Clone)]
pub enum RemoteSubcommand {
    /// Execute a one-off command on the remote and print its captured
    /// output and exit code.
    Exec { args: Vec<String> },
    /// Install the remote counterpart.
    Install,
    /// Uninstall the remote counterpart.
    Uninstall,
}

/// The resolved subcommand.
#[derive(Debug, Clone)]
pub enum SubCommand {
    /// Initialize the control directory.
    Init(RemoteConfigRecord),
    /// Delete the contents of the remote directory.
    Clean,
    /// Tools for working with the remote.
    Remote { subcommand: RemoteSubcommand },
    /// Watch a set of files and emit any events.
    Watch { root: String, roots: Vec<String> },
    /// Print the current version.
    Version,
}

/// The resolved top-level options.
#[derive(Debug, Clone)]
pub struct CliOptions {
    /// The local root directory to be synchronized.
    pub source: Option<String>,
    pub subcommand: Option<SubCommand>,
}

impl CliOptions {
    /// The local root a run works in: the given source, or the current
    /// directory.
    pub fn local_root(&self) -> (r: String)
        ensures
            match self.source {
                Some(src) => r@ == src@,
                None => r@ == "."@,
            },
    {
        match &self.source {
            Some(src) => src.clone(),
            None => {
                let mut s: String = String::new();
                s.append(".");
                s
            },
        }
    }
}

/// The words of a one-off remote command from position `i` on, joined with
/// single spaces.
fn join_args_from(args: &Vec<String>, i: usize) -> (s: String)
    requires
        i <= args@.len(),
    ensures
        s@ == spec_join_paths(args.deep_view().skip(i as int)),
    decreases args@.len() - i,
{
    let ghost model = args.deep_view();
    if i == args.len() {
        assert(model.skip(i as int) =~= Seq::<Seq<char>>::empty());
        String::new()
    } else {
        let mut s: String = String::new();
        s.append(args[i].as_str());
        assert(model.skip(i as int)[0] == args@[i as int]@);
        if i + 1 == args.len() {
            assert(model.skip(i as int).len() == 1);
            s
        } else {
            s.append(" ");
            let rest = join_args_from(args, i + 1);
            s.append(rest.as_str());
            assert(model.skip(i as int).skip(1) =~= model.skip(i as int + 1));
            assert(model.skip(i as int).len() > 1);
            s
        }
    }
}

/// The words of a one-off remote command joined into one command line.
pub fn join_args(args: &Vec<String>) -> (s: String)
    ensures
        s@ == spec_join_paths(args.deep_view()),
{
    let s = join_args_from(args, 0);
    proof {
        assert(args.deep_view().skip(0) =~= args.deep_view());
    }
    s
}

} // verus!
