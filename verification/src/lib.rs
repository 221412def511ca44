//! A library for keeping a local directory tree mirrored onto a remote host.
//!
//! Local filesystem notifications are classified and coalesced into
//! synchronization passes; each pass transfers the control directory and the
//! tree through an external transfer command and then runs a lifecycle hook on
//! the remote. A remote session model describes how commands are bound to
//! channels, executed, and their exit status collected, and a bootstrap model
//! describes the idempotent installation of the remote counterpart.

pub mod bootstrap;
pub mod cli;
pub mod config;
pub mod debounce;
pub mod decimal;
pub mod events;
pub mod init;
pub mod json;
pub mod remote;
pub mod reverse;
pub mod syncpass;

use vstd::prelude::*;

verus! {

/// The version string reported by the `version` subcommand.
pub fn version() -> (r: &'static str)
    ensures
        r@ == "0.2.0"@,
{
    "0.2.0"
}

/// Whether two string slices hold the same characters.
pub fn str_eq(a: &str, b: &str) -> (r: bool)
    ensures
        r == (a@ == b@),
{
    let a_s = String::from_str(a);
    let b_s = String::from_str(b);
    a_s == b_s
}

} // verus!
