//! The configuration record's persisted form.
//!
//! `.dirsync/config.json` holds one object with the `ignore_gitignore` flag
//! (also accepted under its `ignoreGitignore` alias, defaulting to true when
//! absent) and the `remote` coordinates. The encoder and the parser here are
//! the library's own: `lemma_config_round_trip` proves that a record encoded
//! and parsed back is recovered field for field. The same string framing also
//! carries the line-oriented records the `watch` subcommand emits.

use vstd::prelude::*;

use crate::config::Config;
use crate::config::ReceivePathRec;
use crate::config::RemoteConfigRecord;
use crate::events::FileEvent;

verus! {

/// The ghost form of the remote coordinates: plain character sequences.
pub struct RemoteModel {
    pub root: Seq<char>,
    pub host: Seq<char>,
    pub user: Seq<char>,
    pub receive_paths: Option<Seq<Seq<char>>>,
}

/// The ghost form of the persisted configuration record.
pub struct ConfigModel {
    pub ignore_gitignore: bool,
    pub remote: RemoteModel,
}

impl View for RemoteConfigRecord {
    type V = RemoteModel;

    open spec fn view(&self) -> RemoteModel {
        RemoteModel {
            root: self.root@,
            host: self.host@,
            user: self.user@,
            receive_paths: match self.receive_paths {
                Some(ps) => Some(ps@.map(|i: int, p: ReceivePathRec| p.path@)),
                None => None,
            },
        }
    }
}

impl View for Config {
    type V = ConfigModel;

    open spec fn view(&self) -> ConfigModel {
        ConfigModel { ignore_gitignore: self.ignore_gitignore, remote: self.remote@ }
    }
}

/// How one character appears inside a quoted string: quotes and backslashes
/// take an escaping backslash, everything else stands verbatim.
pub open spec fn spec_escape_char(c: char) -> Seq<char> {
    if c == '"' {
        seq!['\\', '"']
    } else if c == '\\' {
        seq!['\\', '\\']
    } else {
        seq![c]
    }
}

/// A character sequence with quotes and backslashes escaped.
pub open spec fn spec_escape(s: Seq<char>) -> Seq<char>
    decreases s.len(),
{
    if s.len() == 0 {
        Seq::empty()
    } else {
        spec_escape_char(s[0]) + spec_escape(s.skip(1))
    }
}

/// A quoted string: the escaped characters between two quote marks.
pub open spec fn spec_quote(s: Seq<char>) -> Seq<char> {
    seq!['"'] + spec_escape(s) + seq!['"']
}

/// `true` or `false`.
pub open spec fn spec_encode_bool(b: bool) -> Seq<char> {
    if b {
        "true"@
    } else {
        "false"@
    }
}

/// One receive-path object: `{"path":"<p>"}`.
pub open spec fn spec_encode_path_obj(p: Seq<char>) -> Seq<char> {
    seq!['{'] + spec_quote("path"@) + seq![':'] + spec_quote(p) + seq!['}']
}

/// Receive-path objects joined with commas.
pub open spec fn spec_encode_path_items(ps: Seq<Seq<char>>) -> Seq<char>
    decreases ps.len(),
{
    if ps.len() == 0 {
        Seq::empty()
    } else if ps.len() == 1 {
        spec_encode_path_obj(ps[0])
    } else {
        spec_encode_path_obj(ps[0]) + seq![','] + spec_encode_path_items(ps.skip(1))
    }
}

/// The receive-path list: `null` when absent, else a bracketed list.
pub open spec fn spec_encode_paths_value(ps: Option<Seq<Seq<char>>>) -> Seq<char> {
    match ps {
        None => "null"@,
        Some(items) => seq!['['] + spec_encode_path_items(items) + seq![']'],
    }
}

/// The remote coordinates as one object, members in fixed order.
pub open spec fn spec_encode_remote(r: RemoteModel) -> Seq<char> {
    seq!['{'] + spec_quote("root"@) + seq![':'] + spec_quote(r.root) + seq![','] + spec_quote(
        "host"@,
    ) + seq![':'] + spec_quote(r.host) + seq![','] + spec_quote("user"@) + seq![':'] + spec_quote(
        r.user,
    ) + seq![','] + spec_quote("receive_paths"@) + seq![':'] + spec_encode_paths_value(
        r.receive_paths,
    ) + seq!['}']
}

/// The whole configuration record as one object, members in fixed order.
pub open spec fn spec_encode_config(c: ConfigModel) -> Seq<char> {
    seq!['{'] + spec_quote("ignore_gitignore"@) + seq![':'] + spec_encode_bool(c.ignore_gitignore)
        + seq![','] + spec_quote("remote"@) + seq![':'] + spec_encode_remote(c.remote) + seq!['}']
}

/// Relies on String::push: appends exactly one character.
#[verifier::external_body]
fn push_char(s: &mut String, c: char)
    ensures
        final(s)@ == old(s)@.push(c),
{
    s.push(c);
}

/// Escaping distributes over concatenation.
proof fn lemma_escape_concat(a: Seq<char>, b: Seq<char>)
    ensures
        spec_escape(a + b) == spec_escape(a) + spec_escape(b),
    decreases a.len(),
{
    if a.len() == 0 {
        assert(a + b =~= b);
        assert(spec_escape(a) + spec_escape(b) =~= spec_escape(b));
    } else {
        assert((a + b)[0] == a[0]);
        assert((a + b).skip(1) =~= a.skip(1) + b);
        lemma_escape_concat(a.skip(1), b);
        assert(spec_escape_char(a[0]) + (spec_escape(a.skip(1)) + spec_escape(b)) =~= (
        spec_escape_char(a[0]) + spec_escape(a.skip(1))) + spec_escape(b));
    }
}

/// Appends `s` as a quoted string.
fn append_quoted(out: &mut String, s: &str)
    ensures
        final(out)@ == old(out)@ + spec_quote(s@),
{
    let n = s.unicode_len();
    out.append("\"");
    proof {
        reveal_strlit("\"");
        assert("\""@ =~= seq!['"']);
    }
    let mut i: usize = 0;
    while i < n
        invariant
            n == s@.len(),
            i <= n,
            out@ == old(out)@ + seq!['"'] + spec_escape(s@.take(i as int)),
        decreases n - i,
    {
        let c = s.get_char(i);
        if c == '"' {
            out.append("\\\"");
            proof {
                reveal_strlit("\\\"");
                assert("\\\""@ =~= seq!['\\', '"']);
            }
        } else if c == '\\' {
            out.append("\\\\");
            proof {
                reveal_strlit("\\\\");
                assert("\\\\"@ =~= seq!['\\', '\\']);
            }
        } else {
            push_char(out, c);
        }
        proof {
            reveal_with_fuel(spec_escape, 2);
            assert(s@.take(i as int + 1) =~= s@.take(i as int) + seq![s@[i as int]]);
            lemma_escape_concat(s@.take(i as int), seq![s@[i as int]]);
            assert(seq![s@[i as int]].skip(1) =~= Seq::<char>::empty());
            assert(spec_escape(seq![s@[i as int]]) =~= spec_escape_char(s@[i as int]));
            assert(out@ =~= old(out)@ + seq!['"'] + spec_escape(s@.take(i as int + 1)));
        }
        i = i + 1;
    }
    out.append("\"");
    proof {
        reveal_strlit("\"");
        assert(s@.take(n as int) =~= s@);
        assert(out@ =~= old(out)@ + spec_quote(s@));
    }
}

/// Appends `{`, `}`, `:`, `,`, `[` or `]`.
fn append_mark(out: &mut String, mark: char)
    ensures
        final(out)@ == old(out)@.push(mark),
{
    push_char(out, mark);
}

/// Appends `true` or `false`.
fn append_bool(out: &mut String, b: bool)
    ensures
        final(out)@ == old(out)@ + spec_encode_bool(b),
{
    if b {
        out.append("true");
    } else {
        out.append("false");
    }
}

/// Appends one receive-path object.
fn append_path_obj(out: &mut String, p: &str)
    ensures
        final(out)@ == old(out)@ + spec_encode_path_obj(p@),
{
    append_mark(out, '{');
    append_quoted(out, "path");
    append_mark(out, ':');
    append_quoted(out, p);
    append_mark(out, '}');
    assert(final(out)@ =~= old(out)@ + spec_encode_path_obj(p@));
}

/// Appends the receive-path objects from position `i` on, comma-separated.
fn append_path_items(out: &mut String, paths: &Vec<ReceivePathRec>, i: usize)
    requires
        i <= paths@.len(),
    ensures
        final(out)@ == old(out)@ + spec_encode_path_items(
            paths@.map(|k: int, p: ReceivePathRec| p.path@).skip(i as int),
        ),
    decreases paths@.len() - i,
{
    let ghost model = paths@.map(|k: int, p: ReceivePathRec| p.path@);
    if i == paths.len() {
        assert(model.skip(i as int) =~= Seq::<Seq<char>>::empty());
        assert(old(out)@ + spec_encode_path_items(model.skip(i as int)) =~= old(out)@);
    } else {
        append_path_obj(out, paths[i].path.as_str());
        assert(model.skip(i as int)[0] == paths@[i as int].path@);
        if i + 1 == paths.len() {
            assert(model.skip(i as int).len() == 1);
        } else {
            append_mark(out, ',');
            append_path_items(out, paths, i + 1);
            proof {
                assert(model.skip(i as int).skip(1) =~= model.skip(i as int + 1));
                assert(model.skip(i as int).len() > 1);
                assert(final(out)@ =~= old(out)@ + spec_encode_path_items(model.skip(i as int)));
            }
        }
    }
}

/// Appends the receive-path list, or `null` when none is configured.
fn append_paths_value(out: &mut String, paths: &Option<Vec<ReceivePathRec>>)
    ensures
        final(out)@ == old(out)@ + spec_encode_paths_value(
            match paths {
                Some(ps) => Some(ps@.map(|i: int, p: ReceivePathRec| p.path@)),
                None => None,
            },
        ),
{
    match paths {
        None => {
            out.append("null");
        },
        Some(ps) => {
            append_mark(out, '[');
            append_path_items(out, ps, 0);
            append_mark(out, ']');
            proof {
                let model = ps@.map(|i: int, p: ReceivePathRec| p.path@);
                assert(model.skip(0) =~= model);
                assert(final(out)@ =~= old(out)@ + spec_encode_paths_value(Some(model)));
            }
        },
    }
}

/// Appends the remote coordinates as one object.
fn append_remote(out: &mut String, r: &RemoteConfigRecord)
    ensures
        final(out)@ == old(out)@ + spec_encode_remote(r@),
{
    append_mark(out, '{');
    append_quoted(out, "root");
    append_mark(out, ':');
    append_quoted(out, r.root.as_str());
    append_mark(out, ',');
    append_quoted(out, "host");
    append_mark(out, ':');
    append_quoted(out, r.host.as_str());
    append_mark(out, ',');
    append_quoted(out, "user");
    append_mark(out, ':');
    append_quoted(out, r.user.as_str());
    append_mark(out, ',');
    append_quoted(out, "receive_paths");
    append_mark(out, ':');
    append_paths_value(out, &r.receive_paths);
    append_mark(out, '}');
    assert(final(out)@ =~= old(out)@ + spec_encode_remote(r@));
}

/// Encodes a configuration record into its persisted form.
pub fn encode_config(c: &Config) -> (s: String)
    ensures
        s@ == spec_encode_config(c@),
{
    let mut out: String = String::new();
    append_mark(&mut out, '{');
    append_quoted(&mut out, "ignore_gitignore");
    append_mark(&mut out, ':');
    append_bool(&mut out, c.ignore_gitignore);
    append_mark(&mut out, ',');
    append_quoted(&mut out, "remote");
    append_mark(&mut out, ':');
    append_remote(&mut out, &c.remote);
    append_mark(&mut out, '}');
    assert(out@ =~= spec_encode_config(c@));
    out
}

/// The whitespace accepted between tokens.
pub open spec fn spec_is_ws(c: char) -> bool {
    c == ' ' || c == '\n' || c == '\t' || c == '\r'
}

/// The first position at or after `i` holding no whitespace.
pub open spec fn spec_ws(s: Seq<char>, i: int) -> int
    decreases s.len() - i,
{
    if 0 <= i < s.len() && spec_is_ws(s[i]) {
        spec_ws(s, i + 1)
    } else {
        i
    }
}

/// Matches a literal at `i`, returning the position after it.
pub open spec fn spec_lit(s: Seq<char>, i: int, lit: Seq<char>) -> Option<int> {
    if 0 <= i && i + lit.len() <= s.len() && s.subrange(i, i + lit.len() as int) == lit {
        Some(i + lit.len() as int)
    } else {
        None
    }
}

/// The character an escape sequence stands for.
pub open spec fn spec_unescape_char(c: char) -> Option<char> {
    if c == '"' {
        Some('"')
    } else if c == '\\' {
        Some('\\')
    } else if c == '/' {
        Some('/')
    } else if c == 'n' {
        Some('\n')
    } else if c == 't' {
        Some('\t')
    } else if c == 'r' {
        Some('\r')
    } else {
        None
    }
}

/// Scans a quoted string's characters from `i` (just after the opening
/// quote) to its closing quote, decoding escapes.
pub open spec fn spec_parse_string_body(s: Seq<char>, i: int) -> Option<(Seq<char>, int)>
    decreases s.len() - i,
{
    if !(0 <= i < s.len()) {
        None
    } else if s[i] == '"' {
        Some((Seq::empty(), i + 1))
    } else if s[i] == '\\' {
        if i + 1 < s.len() {
            match spec_unescape_char(s[i + 1]) {
                Some(c) => match spec_parse_string_body(s, i + 2) {
                    Some(r) => Some((seq![c] + r.0, r.1)),
                    None => None,
                },
                None => None,
            }
        } else {
            None
        }
    } else {
        match spec_parse_string_body(s, i + 1) {
            Some(r) => Some((seq![s[i]] + r.0, r.1)),
            None => None,
        }
    }
}

/// Parses a quoted string at `i`.
pub open spec fn spec_parse_string(s: Seq<char>, i: int) -> Option<(Seq<char>, int)> {
    if 0 <= i < s.len() && s[i] == '"' {
        spec_parse_string_body(s, i + 1)
    } else {
        None
    }
}

/// Parses `true` or `false` at `i`.
pub open spec fn spec_parse_bool(s: Seq<char>, i: int) -> Option<(bool, int)> {
    match spec_lit(s, i, "true"@) {
        Some(j) => Some((true, j)),
        None => match spec_lit(s, i, "false"@) {
            Some(j) => Some((false, j)),
            None => None,
        },
    }
}

/// Parses one `{"path": "<p>"}` object at `i`.
pub open spec fn spec_parse_path_obj(s: Seq<char>, i: int) -> Option<(Seq<char>, int)> {
    if !(0 <= i < s.len() && s[i] == '{') {
        None
    } else {
        let j = spec_ws(s, i + 1);
        match spec_parse_string(s, j) {
            None => None,
            Some(kv) => if kv.0 != "path"@ {
                None
            } else {
                let j2 = spec_ws(s, kv.1);
                if !(0 <= j2 < s.len() && s[j2] == ':') {
                    None
                } else {
                    let j3 = spec_ws(s, j2 + 1);
                    match spec_parse_string(s, j3) {
                        None => None,
                        Some(v) => {
                            let j4 = spec_ws(s, v.1);
                            if 0 <= j4 < s.len() && s[j4] == '}' {
                                Some((v.0, j4 + 1))
                            } else {
                                None
                            }
                        },
                    }
                }
            },
        }
    }
}

/// Parses the comma-separated path objects of a nonempty list, up to and
/// including the closing bracket.
pub open spec fn spec_parse_path_items(s: Seq<char>, i: int, acc: Seq<Seq<char>>) -> Option<
    (Seq<Seq<char>>, int),
>
    decreases s.len() - i,
{
    match spec_parse_path_obj(s, i) {
        None => None,
        Some(pv) => {
            let k = spec_ws(s, pv.1);
            if 0 <= k < s.len() && s[k] == ',' {
                let nxt = spec_ws(s, k + 1);
                if i < nxt <= s.len() {
                    spec_parse_path_items(s, nxt, acc.push(pv.0))
                } else {
                    None
                }
            } else if 0 <= k < s.len() && s[k] == ']' {
                Some((acc.push(pv.0), k + 1))
            } else {
                None
            }
        },
    }
}

/// Parses a receive-path value: `null`, or a bracketed list of path objects.
pub open spec fn spec_parse_paths_value(s: Seq<char>, i: int) -> Option<
    (Option<Seq<Seq<char>>>, int),
> {
    match spec_lit(s, i, "null"@) {
        Some(j) => Some((None, j)),
        None => if 0 <= i < s.len() && s[i] == '[' {
            let j = spec_ws(s, i + 1);
            if 0 <= j < s.len() && s[j] == ']' {
                Some((Some(Seq::empty()), j + 1))
            } else {
                match spec_parse_path_items(s, j, Seq::empty()) {
                    Some(pv) => Some((Some(pv.0), pv.1)),
                    None => None,
                }
            }
        } else {
            None
        },
    }
}

/// Parses the members of the remote object from the start of a key, with the
/// members already seen in the slots; a repeated or unknown key rejects.
/// Ends at the closing brace, where `root`, `host` and `user` are required
/// and absent `receive_paths` means none.
pub open spec fn spec_parse_remote_members(
    s: Seq<char>,
    i: int,
    root: Option<Seq<char>>,
    host: Option<Seq<char>>,
    user: Option<Seq<char>>,
    rp: Option<Option<Seq<Seq<char>>>>,
) -> Option<(RemoteModel, int)>
    decreases s.len() - i,
{
    match spec_parse_string(s, i) {
        None => None,
        Some(kv) => {
            let j2 = spec_ws(s, kv.1);
            if !(0 <= j2 < s.len() && s[j2] == ':') {
                None
            } else {
                let j3 = spec_ws(s, j2 + 1);
                let updated: Option<
                    (
                        Option<Seq<char>>,
                        Option<Seq<char>>,
                        Option<Seq<char>>,
                        Option<Option<Seq<Seq<char>>>>,
                        int,
                    ),
                > = if kv.0 == "root"@ {
                    if root is Some {
                        None
                    } else {
                        match spec_parse_string(s, j3) {
                            Some(v) => Some((Some(v.0), host, user, rp, v.1)),
                            None => None,
                        }
                    }
                } else if kv.0 == "host"@ {
                    if host is Some {
                        None
                    } else {
                        match spec_parse_string(s, j3) {
                            Some(v) => Some((root, Some(v.0), user, rp, v.1)),
                            None => None,
                        }
                    }
                } else if kv.0 == "user"@ {
                    if user is Some {
                        None
                    } else {
                        match spec_parse_string(s, j3) {
                            Some(v) => Some((root, host, Some(v.0), rp, v.1)),
                            None => None,
                        }
                    }
                } else if kv.0 == "receive_paths"@ {
                    if rp is Some {
                        None
                    } else {
                        match spec_parse_paths_value(s, j3) {
                            Some(v) => Some((root, host, user, Some(v.0), v.1)),
                            None => None,
                        }
                    }
                } else {
                    None
                };
                match updated {
                    None => None,
                    Some(u) => {
                        let k = spec_ws(s, u.4);
                        if 0 <= k < s.len() && s[k] == ',' {
                            let nxt = spec_ws(s, k + 1);
                            if i < nxt <= s.len() {
                                spec_parse_remote_members(s, nxt, u.0, u.1, u.2, u.3)
                            } else {
                                None
                            }
                        } else if 0 <= k < s.len() && s[k] == '}' {
                            if u.0 is Some && u.1 is Some && u.2 is Some {
                                Some(
                                    (
                                        RemoteModel {
                                            root: u.0->Some_0,
                                            host: u.1->Some_0,
                                            user: u.2->Some_0,
                                            receive_paths: match u.3 {
                                                Some(x) => x,
                                                None => None,
                                            },
                                        },
                                        k + 1,
                                    ),
                                )
                            } else {
                                None
                            }
                        } else {
                            None
                        }
                    },
                }
            }
        },
    }
}

/// Parses the remote object at `i`.
pub open spec fn spec_parse_remote(s: Seq<char>, i: int) -> Option<(RemoteModel, int)> {
    if 0 <= i < s.len() && s[i] == '{' {
        spec_parse_remote_members(s, spec_ws(s, i + 1), None, None, None, None)
    } else {
        None
    }
}

/// Parses the members of the configuration object from the start of a key.
/// The flag is accepted under `ignore_gitignore` or its `ignoreGitignore`
/// alias, once; at the closing brace `remote` is required and an absent flag
/// defaults to true.
pub open spec fn spec_parse_config_members(
    s: Seq<char>,
    i: int,
    flag: Option<bool>,
    remote: Option<RemoteModel>,
) -> Option<(ConfigModel, int)>
    decreases s.len() - i,
{
    match spec_parse_string(s, i) {
        None => None,
        Some(kv) => {
            let j2 = spec_ws(s, kv.1);
            if !(0 <= j2 < s.len() && s[j2] == ':') {
                None
            } else {
                let j3 = spec_ws(s, j2 + 1);
                let updated: Option<(Option<bool>, Option<RemoteModel>, int)> = if kv.0
                    == "ignore_gitignore"@ || kv.0 == "ignoreGitignore"@ {
                    if flag is Some {
                        None
                    } else {
                        match spec_parse_bool(s, j3) {
                            Some(v) => Some((Some(v.0), remote, v.1)),
                            None => None,
                        }
                    }
                } else if kv.0 == "remote"@ {
                    if remote is Some {
                        None
                    } else {
                        match spec_parse_remote(s, j3) {
                            Some(v) => Some((flag, Some(v.0), v.1)),
                            None => None,
                        }
                    }
                } else {
                    None
                };
                match updated {
                    None => None,
                    Some(u) => {
                        let k = spec_ws(s, u.2);
                        if 0 <= k < s.len() && s[k] == ',' {
                            let nxt = spec_ws(s, k + 1);
                            if i < nxt <= s.len() {
                                spec_parse_config_members(s, nxt, u.0, u.1)
                            } else {
                                None
                            }
                        } else if 0 <= k < s.len() && s[k] == '}' {
                            match u.1 {
                                Some(rm) => Some(
                                    (
                                        ConfigModel {
                                            ignore_gitignore: match u.0 {
                                                Some(b) => b,
                                                None => true,
                                            },
                                            remote: rm,
                                        },
                                        k + 1,
                                    ),
                                ),
                                None => None,
                            }
                        } else {
                            None
                        }
                    },
                }
            }
        },
    }
}

/// Parses the configuration record: one object, nothing but whitespace
/// around it.
pub open spec fn spec_parse_config(s: Seq<char>) -> Option<ConfigModel> {
    let i = spec_ws(s, 0);
    if 0 <= i < s.len() && s[i] == '{' {
        match spec_parse_config_members(s, spec_ws(s, i + 1), None, None) {
            None => None,
            Some(r) => if spec_ws(s, r.1) == s.len() {
                Some(r.0)
            } else {
                None
            },
        }
    } else {
        None
    }
}

/// Whether a character is accepted whitespace.
fn is_ws_char(c: char) -> (b: bool)
    ensures
        b == spec_is_ws(c),
{
    c == ' ' || c == '\n' || c == '\t' || c == '\r'
}

/// Skips whitespace from `i`.
fn skip_ws(s: &str, i: usize) -> (r: usize)
    requires
        i <= s@.len(),
    ensures
        r as int == spec_ws(s@, i as int),
        i <= r <= s@.len(),
{
    let n = s.unicode_len();
    let mut j = i;
    while j < n && is_ws_char(s.get_char(j))
        invariant
            n == s@.len(),
            i <= j <= n,
            spec_ws(s@, i as int) == spec_ws(s@, j as int),
        decreases n - j,
    {
        j = j + 1;
    }
    j
}

/// Matches a literal at `i`.
fn match_lit(s: &str, i: usize, lit: &str) -> (r: Option<usize>)
    requires
        i <= s@.len(),
    ensures
        match spec_lit(s@, i as int, lit@) {
            Some(j) => r matches Some(x) && x as int == j && x <= s@.len(),
            None => r is None,
        },
{
    let n = s.unicode_len();
    let m = lit.unicode_len();
    if m <= n - i {
        let sub = s.substring_char(i, i + m);
        if crate::str_eq(sub, lit) {
            Some(i + m)
        } else {
            None
        }
    } else {
        None
    }
}

/// The character an escape sequence stands for.
fn unescape_char(c: char) -> (r: Option<char>)
    ensures
        r == spec_unescape_char(c),
{
    if c == '"' {
        Some('"')
    } else if c == '\\' {
        Some('\\')
    } else if c == '/' {
        Some('/')
    } else if c == 'n' {
        Some('\n')
    } else if c == 't' {
        Some('\t')
    } else if c == 'r' {
        Some('\r')
    } else {
        None
    }
}

/// Parses a quoted string at `i`.
fn parse_string(s: &str, i: usize) -> (r: Option<(String, usize)>)
    requires
        i <= s@.len(),
    ensures
        match spec_parse_string(s@, i as int) {
            Some(t) => r matches Some(p) && p.0@ == t.0 && p.1 as int == t.1 && p.1 <= s@.len(),
            None => r is None,
        },
{
    let n = s.unicode_len();
    if i < n && s.get_char(i) == '"' {
        let mut j = i + 1;
        let mut acc: String = String::new();
        loop
            invariant
                n == s@.len(),
                i < n,
                s@[i as int] == '"',
                i + 1 <= j <= n,
                ({
                    match spec_parse_string_body(s@, j as int) {
                        Some(t) => spec_parse_string_body(s@, i as int + 1) == Some(
                            (acc@ + t.0, t.1),
                        ),
                        None => spec_parse_string_body(s@, i as int + 1) is None,
                    }
                }),
            decreases n - j,
        {
            if j >= n {
                return None;
            }
            let c = s.get_char(j);
            if c == '"' {
                assert(acc@ + Seq::<char>::empty() =~= acc@);
                return Some((acc, j + 1));
            } else if c == '\\' {
                if j + 1 >= n {
                    return None;
                }
                let e = s.get_char(j + 1);
                match unescape_char(e) {
                    None => {
                        return None;
                    },
                    Some(ch) => {
                        proof {
                            match spec_parse_string_body(s@, j as int + 2) {
                                Some(t) => {
                                    assert(acc@.push(ch) + t.0 =~= acc@ + (seq![ch] + t.0));
                                },
                                None => {},
                            }
                        }
                        push_char(&mut acc, ch);
                        j = j + 2;
                    },
                }
            } else {
                proof {
                    match spec_parse_string_body(s@, j as int + 1) {
                        Some(t) => {
                            assert(acc@.push(c) + t.0 =~= acc@ + (seq![c] + t.0));
                        },
                        None => {},
                    }
                }
                push_char(&mut acc, c);
                j = j + 1;
            }
        }
    } else {
        None
    }
}

/// Parses `true` or `false` at `i`.
fn parse_bool(s: &str, i: usize) -> (r: Option<(bool, usize)>)
    requires
        i <= s@.len(),
    ensures
        match spec_parse_bool(s@, i as int) {
            Some(t) => r matches Some(p) && p.0 == t.0 && p.1 as int == t.1 && p.1 <= s@.len(),
            None => r is None,
        },
{
    match match_lit(s, i, "true") {
        Some(j) => Some((true, j)),
        None => match match_lit(s, i, "false") {
            Some(j) => Some((false, j)),
            None => None,
        },
    }
}

/// Parses one `{"path": "<p>"}` object at `i`.
fn parse_path_obj(s: &str, i: usize) -> (r: Option<(String, usize)>)
    requires
        i <= s@.len(),
    ensures
        match spec_parse_path_obj(s@, i as int) {
            Some(t) => r matches Some(p) && p.0@ == t.0 && p.1 as int == t.1 && p.1 <= s@.len(),
            None => r is None,
        },
{
    let n = s.unicode_len();
    if !(i < n && s.get_char(i) == '{') {
        return None;
    }
    let j = skip_ws(s, i + 1);
    match parse_string(s, j) {
        None => None,
        Some((key, j1)) => {
            if !crate::str_eq(key.as_str(), "path") {
                return None;
            }
            let j2 = skip_ws(s, j1);
            if !(j2 < n && s.get_char(j2) == ':') {
                return None;
            }
            let j3 = skip_ws(s, j2 + 1);
            match parse_string(s, j3) {
                None => None,
                Some((v, j4)) => {
                    let j5 = skip_ws(s, j4);
                    if j5 < n && s.get_char(j5) == '}' {
                        Some((v, j5 + 1))
                    } else {
                        None
                    }
                },
            }
        },
    }
}

/// Parses the comma-separated path objects of a nonempty list.
fn parse_path_items(s: &str, i: usize, acc: Vec<String>) -> (r: Option<(Vec<String>, usize)>)
    requires
        i <= s@.len(),
    ensures
        match spec_parse_path_items(s@, i as int, acc.deep_view()) {
            Some(t) => r matches Some(p) && p.0.deep_view() == t.0 && p.1 as int == t.1 && p.1
                <= s@.len(),
            None => r is None,
        },
    decreases s@.len() - i,
{
    let n = s.unicode_len();
    match parse_path_obj(s, i) {
        None => None,
        Some((p, j)) => {
            let ghost acc0 = acc.deep_view();
            let k = skip_ws(s, j);
            let ghost pv = p@;
            let mut acc = acc;
            acc.push(p);
            proof {
                assert(acc.deep_view() =~= acc0.push(pv));
            }
            if k < n && s.get_char(k) == ',' {
                let nxt = skip_ws(s, k + 1);
                if nxt > i {
                    parse_path_items(s, nxt, acc)
                } else {
                    None
                }
            } else if k < n && s.get_char(k) == ']' {
                Some((acc, k + 1))
            } else {
                None
            }
        },
    }
}

/// Parses a receive-path value: `null`, or a bracketed list of path objects.
fn parse_paths_value(s: &str, i: usize) -> (r: Option<(Option<Vec<String>>, usize)>)
    requires
        i <= s@.len(),
    ensures
        match spec_parse_paths_value(s@, i as int) {
            Some(t) => r matches Some(p) && (match t.0 {
                None => p.0 is None,
                Some(items) => p.0 matches Some(v) && v.deep_view() == items,
            }) && p.1 as int == t.1 && p.1 <= s@.len(),
            None => r is None,
        },
{
    let n = s.unicode_len();
    match match_lit(s, i, "null") {
        Some(j) => Some((None, j)),
        None => {
            if i < n && s.get_char(i) == '[' {
                let j = skip_ws(s, i + 1);
                if j < n && s.get_char(j) == ']' {
                    let empty: Vec<String> = Vec::new();
                    assert(empty.deep_view() =~= Seq::<Seq<char>>::empty());
                    Some((Some(empty), j + 1))
                } else {
                    let start: Vec<String> = Vec::new();
                    assert(start.deep_view() =~= Seq::<Seq<char>>::empty());
                    match parse_path_items(s, j, start) {
                        Some((items, k)) => Some((Some(items), k)),
                        None => None,
                    }
                }
            } else {
                None
            }
        },
    }
}

/// The receive paths as records.
fn wrap_paths(v: Vec<String>) -> (r: Vec<ReceivePathRec>)
    ensures
        r@.map(|i: int, p: ReceivePathRec| p.path@) == v.deep_view(),
{
    let mut r: Vec<ReceivePathRec> = Vec::new();
    let mut i: usize = 0;
    let ghost model = v.deep_view();
    while i < v.len()
        invariant
            i <= v@.len(),
            v.deep_view() == model,
            r@.map(|k: int, p: ReceivePathRec| p.path@) =~= model.take(i as int),
        decreases v@.len() - i,
    {
        let p = ReceivePathRec { path: v[i].clone() };
        r.push(p);
        proof {
            assert(model.take(i as int + 1) =~= model.take(i as int).push(v@[i as int]@));
            assert(r@.map(|k: int, p: ReceivePathRec| p.path@) =~= model.take(i as int + 1));
        }
        i = i + 1;
    }
    proof {
        assert(model.take(v@.len() as int) =~= model);
    }
    r
}

/// The ghost form of an optional receive-path slot.
spec fn spec_rp_slot(rp: Option<Option<Vec<String>>>) -> Option<Option<Seq<Seq<char>>>> {
    match rp {
        None => None,
        Some(None) => Some(None),
        Some(Some(v)) => Some(Some(v.deep_view())),
    }
}

/// The ghost form of an optional string slot.
spec fn spec_str_slot(v: Option<String>) -> Option<Seq<char>> {
    match v {
        None => None,
        Some(x) => Some(x@),
    }
}

/// Parses the members of the remote object from the start of a key.
fn parse_remote_members(
    s: &str,
    i: usize,
    root: Option<String>,
    host: Option<String>,
    user: Option<String>,
    rp: Option<Option<Vec<String>>>,
) -> (r: Option<(RemoteConfigRecord, usize)>)
    requires
        i <= s@.len(),
    ensures
        match spec_parse_remote_members(
            s@,
            i as int,
            spec_str_slot(root),
            spec_str_slot(host),
            spec_str_slot(user),
            spec_rp_slot(rp),
        ) {
            Some(t) => r matches Some(p) && p.0@ == t.0 && p.1 as int == t.1 && p.1 <= s@.len(),
            None => r is None,
        },
    decreases s@.len() - i,
{
    let n = s.unicode_len();
    match parse_string(s, i) {
        None => None,
        Some((key, j1)) => {
            let j2 = skip_ws(s, j1);
            if !(j2 < n && s.get_char(j2) == ':') {
                return None;
            }
            let j3 = skip_ws(s, j2 + 1);
            let stepped: Option<
                (Option<String>, Option<String>, Option<String>, Option<Option<Vec<String>>>, usize),
            > = if crate::str_eq(key.as_str(), "root") {
                if root.is_some() {
                    None
                } else {
                    match parse_string(s, j3) {
                        Some((v, j4)) => Some((Some(v), host, user, rp, j4)),
                        None => None,
                    }
                }
            } else if crate::str_eq(key.as_str(), "host") {
                if host.is_some() {
                    None
                } else {
                    match parse_string(s, j3) {
                        Some((v, j4)) => Some((root, Some(v), user, rp, j4)),
                        None => None,
                    }
                }
            } else if crate::str_eq(key.as_str(), "user") {
                if user.is_some() {
                    None
                } else {
                    match parse_string(s, j3) {
                        Some((v, j4)) => Some((root, host, Some(v), rp, j4)),
                        None => None,
                    }
                }
            } else if crate::str_eq(key.as_str(), "receive_paths") {
                if rp.is_some() {
                    None
                } else {
                    match parse_paths_value(s, j3) {
                        Some((v, j4)) => Some((root, host, user, Some(v), j4)),
                        None => None,
                    }
                }
            } else {
                None
            };
            match stepped {
                None => None,
                Some((root2, host2, user2, rp2, j4)) => {
                    let k = skip_ws(s, j4);
                    if k < n && s.get_char(k) == ',' {
                        let nxt = skip_ws(s, k + 1);
                        if nxt > i {
                            parse_remote_members(s, nxt, root2, host2, user2, rp2)
                        } else {
                            None
                        }
                    } else if k < n && s.get_char(k) == '}' {
                        match (root2, host2, user2) {
                            (Some(rv), Some(hv), Some(uv)) => {
                                let paths: Option<Vec<ReceivePathRec>> = match rp2 {
                                    Some(Some(v)) => Some(wrap_paths(v)),
                                    _ => None,
                                };
                                let rec = RemoteConfigRecord {
                                    root: rv,
                                    host: hv,
                                    user: uv,
                                    receive_paths: paths,
                                };
                                Some((rec, k + 1))
                            },
                            _ => None,
                        }
                    } else {
                        None
                    }
                },
            }
        },
    }
}

/// Parses the remote object at `i`.
fn parse_remote(s: &str, i: usize) -> (r: Option<(RemoteConfigRecord, usize)>)
    requires
        i <= s@.len(),
    ensures
        match spec_parse_remote(s@, i as int) {
            Some(t) => r matches Some(p) && p.0@ == t.0 && p.1 as int == t.1 && p.1 <= s@.len(),
            None => r is None,
        },
{
    let n = s.unicode_len();
    if i < n && s.get_char(i) == '{' {
        let j = skip_ws(s, i + 1);
        parse_remote_members(s, j, None, None, None, None)
    } else {
        None
    }
}

/// Parses the members of the configuration object from the start of a key.
fn parse_config_members(
    s: &str,
    i: usize,
    flag: Option<bool>,
    remote: Option<RemoteConfigRecord>,
) -> (r: Option<(Config, usize)>)
    requires
        i <= s@.len(),
    ensures
        match spec_parse_config_members(
            s@,
            i as int,
            flag,
            match remote {
                Some(rm) => Some(rm@),
                None => None,
            },
        ) {
            Some(t) => r matches Some(p) && p.0@ == t.0 && p.1 as int == t.1 && p.1 <= s@.len(),
            None => r is None,
        },
    decreases s@.len() - i,
{
    let n = s.unicode_len();
    match parse_string(s, i) {
        None => None,
        Some((key, j1)) => {
            let j2 = skip_ws(s, j1);
            if !(j2 < n && s.get_char(j2) == ':') {
                return None;
            }
            let j3 = skip_ws(s, j2 + 1);
            let is_flag_key = crate::str_eq(key.as_str(), "ignore_gitignore")
                || crate::str_eq(key.as_str(), "ignoreGitignore");
            let stepped: Option<(Option<bool>, Option<RemoteConfigRecord>, usize)> = if is_flag_key {
                if flag.is_some() {
                    None
                } else {
                    match parse_bool(s, j3) {
                        Some((b, j4)) => Some((Some(b), remote, j4)),
                        None => None,
                    }
                }
            } else if crate::str_eq(key.as_str(), "remote") {
                if remote.is_some() {
                    None
                } else {
                    match parse_remote(s, j3) {
                        Some((rm, j4)) => Some((flag, Some(rm), j4)),
                        None => None,
                    }
                }
            } else {
                None
            };
            match stepped {
                None => None,
                Some((flag2, remote2, j4)) => {
                    let k = skip_ws(s, j4);
                    if k < n && s.get_char(k) == ',' {
                        let nxt = skip_ws(s, k + 1);
                        if nxt > i {
                            parse_config_members(s, nxt, flag2, remote2)
                        } else {
                            None
                        }
                    } else if k < n && s.get_char(k) == '}' {
                        match remote2 {
                            Some(rm) => {
                                let b = match flag2 {
                                    Some(x) => x,
                                    None => true,
                                };
                                Some((Config { ignore_gitignore: b, remote: rm }, k + 1))
                            },
                            None => None,
                        }
                    } else {
                        None
                    }
                },
            }
        },
    }
}

/// Parses a configuration record from its persisted text: one object,
/// nothing but whitespace around it.
pub fn parse_config(s: &str) -> (r: Option<Config>)
    ensures
        match spec_parse_config(s@) {
            Some(m) => r matches Some(c) && c@ == m,
            None => r is None,
        },
{
    let n = s.unicode_len();
    let i = skip_ws(s, 0);
    if i < n && s.get_char(i) == '{' {
        let j = skip_ws(s, i + 1);
        match parse_config_members(s, j, None, None) {
            None => None,
            Some((c, k)) => {
                let e = skip_ws(s, k);
                if e == n {
                    Some(c)
                } else {
                    None
                }
            },
        }
    } else {
        None
    }
}

/// The characters of a sequence placed at `i` within `s`.
proof fn lemma_subrange_index(s: Seq<char>, i: int, t: Seq<char>)
    requires
        0 <= i,
        i + t.len() <= s.len(),
        s.subrange(i, i + t.len() as int) == t,
    ensures
        forall|k: int| 0 <= k < t.len() ==> s[i + k] == t[k],
{
    assert forall|k: int| 0 <= k < t.len() implies s[i + k] == t[k] by {
        assert(s.subrange(i, i + t.len() as int)[k] == s[i + k]);
    }
}

/// A concatenation placed at `i` places both halves.
proof fn lemma_subrange_split(s: Seq<char>, i: int, a: Seq<char>, b: Seq<char>)
    requires
        0 <= i,
        i + a.len() + b.len() <= s.len(),
        s.subrange(i, i + a.len() + b.len()) == a + b,
    ensures
        s.subrange(i, i + a.len() as int) == a,
        s.subrange(i + a.len() as int, i + a.len() + b.len()) == b,
{
    lemma_subrange_index(s, i, a + b);
    assert forall|k: int| 0 <= k < a.len() implies s.subrange(i, i + a.len() as int)[k] == a[k] by {
        assert(s[i + k] == (a + b)[k]);
    }
    assert(s.subrange(i, i + a.len() as int) =~= a);
    assert forall|k: int|
        0 <= k < b.len() implies s.subrange(i + a.len() as int, i + a.len() + b.len())[k]
        == b[k] by {
        assert(s[i + (a.len() + k)] == (a + b)[a.len() + k]);
        assert((a + b)[a.len() + k] == b[k]);
    }
    assert(s.subrange(i + a.len() as int, i + a.len() + b.len()) =~= b);
}

/// A one-character sequence placed at `i` pins the character there.
proof fn lemma_char_at(s: Seq<char>, i: int, c: char)
    requires
        0 <= i,
        i + 1 <= s.len(),
        s.subrange(i, i + 1) == seq![c],
    ensures
        s[i] == c,
{
    assert(s.subrange(i, i + 1)[0] == s[i]);
}

/// Scanning an escaped text placed just before a closing quote recovers the
/// original text exactly.
proof fn lemma_parse_string_body_round(s: Seq<char>, i: int, x: Seq<char>)
    requires
        0 <= i,
        i + spec_escape(x).len() + 1 <= s.len(),
        s.subrange(i, i + spec_escape(x).len() as int) == spec_escape(x),
        s[i + spec_escape(x).len() as int] == '"',
    ensures
        spec_parse_string_body(s, i) == Some((x, i + spec_escape(x).len() + 1)),
    decreases x.len(),
{
    let esc = spec_escape(x);
    lemma_subrange_index(s, i, esc);
    if x.len() == 0 {
        assert(s[i] == '"');
        assert(x =~= Seq::<char>::empty());
    } else {
        let c = x[0];
        let e = spec_escape_char(c);
        let rest = spec_escape(x.skip(1));
        assert(esc == e + rest);
        let el = e.len() as int;
        assert forall|k: int|
            0 <= k < rest.len() implies s.subrange(i + el, i + el + rest.len() as int)[k]
            == rest[k] by {
            assert(s[i + (el + k)] == esc[el + k]);
            assert(esc[el + k] == (e + rest)[el + k]);
        }
        assert(s.subrange(i + el, i + el + rest.len() as int) =~= rest);
        assert(esc.len() == el + rest.len());
        assert(i + el + rest.len() as int == i + esc.len() as int);
        assert(s[i + el + rest.len() as int] == '"');
        lemma_parse_string_body_round(s, i + el, x.skip(1));
        assert(s[i + 0] == esc[0]);
        assert(esc[0] == e[0]);
        if c == '"' {
            assert(s[i] == '\\');
            assert(s[i + 1] == esc[1]);
            assert(s[i + 1] == '"');
            assert(spec_unescape_char(s[i + 1]) == Some('"'));
            assert(seq![c] + x.skip(1) =~= x);
        } else if c == '\\' {
            assert(s[i] == '\\');
            assert(s[i + 1] == esc[1]);
            assert(s[i + 1] == '\\');
            assert(spec_unescape_char(s[i + 1]) == Some('\\'));
            assert(seq![c] + x.skip(1) =~= x);
        } else {
            assert(s[i] == c);
            assert(seq![c] + x.skip(1) =~= x);
        }
    }
}

/// Parsing a quoted string placed at `i` recovers the original text exactly.
proof fn lemma_parse_string_round(s: Seq<char>, i: int, x: Seq<char>)
    requires
        0 <= i,
        i + spec_quote(x).len() <= s.len(),
        s.subrange(i, i + spec_quote(x).len() as int) == spec_quote(x),
    ensures
        spec_parse_string(s, i) == Some((x, i + spec_quote(x).len())),
{
    let q = spec_quote(x);
    let esc = spec_escape(x);
    lemma_subrange_index(s, i, q);
    assert(s[i + 0] == q[0]);
    assert(q[0] == (seq!['"'] + esc)[0]);
    assert(s[i] == '"');
    assert forall|k: int|
        0 <= k < esc.len() implies s.subrange(i + 1, i + 1 + esc.len() as int)[k] == esc[k] by {
        assert(s[i + (1 + k)] == q[1 + k]);
        assert(q[1 + k] == (seq!['"'] + esc)[1 + k]);
        assert((seq!['"'] + esc)[1 + k] == esc[k]);
    }
    assert(s.subrange(i + 1, i + 1 + esc.len() as int) =~= esc);
    assert(s[i + (1 + esc.len())] == q[1 + esc.len() as int]);
    assert(s[i + 1 + esc.len() as int] == '"');
    lemma_parse_string_body_round(s, i + 1, x);
}

/// An encoded remote object starts with its opening brace.
proof fn lemma_remote_first_char(m: RemoteModel)
    ensures
        spec_encode_remote(m).len() >= 1,
        spec_encode_remote(m)[0] == '{',
{
    let a1 = seq!['{'];
    assert(spec_encode_remote(m)[0] == a1[0]);
}

/// An encoded receive-path value starts with `n` or `[`, never whitespace.
proof fn lemma_paths_value_first_char(v: Option<Seq<Seq<char>>>)
    ensures
        spec_encode_paths_value(v).len() >= 1,
        !spec_is_ws(spec_encode_paths_value(v)[0]),
{
    match v {
        None => {
            reveal_strlit("null");
            assert("null"@ =~= seq!['n', 'u', 'l', 'l']);
        },
        Some(ps) => {
            let a1 = seq!['['];
            assert(spec_encode_paths_value(v)[0] == a1[0]);
        },
    }
}

/// An encoded path object starts with its opening brace.
proof fn lemma_path_obj_first_char(p: Seq<char>)
    ensures
        spec_encode_path_obj(p).len() >= 1,
        spec_encode_path_obj(p)[0] == '{',
{
    let a1 = seq!['{'];
    let whole = spec_encode_path_obj(p);
    assert(whole[0] == a1[0]);
}

/// An encoded nonempty item list starts with an opening brace.
proof fn lemma_path_items_first_char(ps: Seq<Seq<char>>)
    requires
        ps.len() >= 1,
    ensures
        spec_encode_path_items(ps).len() >= 1,
        spec_encode_path_items(ps)[0] == '{',
{
    lemma_path_obj_first_char(ps[0]);
    if ps.len() == 1 {
    } else {
        assert(spec_encode_path_items(ps)[0] == spec_encode_path_obj(ps[0])[0]);
    }
}

/// Parsing an encoded path object placed at `i` recovers the path.
proof fn lemma_parse_path_obj_round(s: Seq<char>, i: int, p: Seq<char>)
    requires
        0 <= i,
        i + spec_encode_path_obj(p).len() <= s.len(),
        s.subrange(i, i + spec_encode_path_obj(p).len() as int) == spec_encode_path_obj(p),
    ensures
        spec_parse_path_obj(s, i) == Some((p, i + spec_encode_path_obj(p).len())),
{
    let a1 = seq!['{'];
    let a2 = spec_quote("path"@);
    let a3 = seq![':'];
    let a4 = spec_quote(p);
    let a5 = seq!['}'];
    let p1 = i + 1;
    let p2 = p1 + a2.len() as int;
    let p3 = p2 + 1;
    let p4 = p3 + a4.len() as int;
    let p5 = p4 + 1;
    lemma_subrange_split(s, i, a1 + a2 + a3 + a4, a5);
    lemma_subrange_split(s, i, a1 + a2 + a3, a4);
    lemma_subrange_split(s, i, a1 + a2, a3);
    lemma_subrange_split(s, i, a1, a2);
    lemma_char_at(s, i, '{');
    lemma_char_at(s, p2, ':');
    lemma_char_at(s, p4, '}');
    lemma_parse_string_round(s, p1, "path"@);
    lemma_parse_string_round(s, p3, p);
    lemma_subrange_index(s, p1, a2);
    assert(s[p1 + 0] == a2[0]);
    assert(a2[0] == (seq!['"'] + spec_escape("path"@))[0]);
    assert(s[p1] == '"');
    lemma_subrange_index(s, p3, a4);
    assert(s[p3 + 0] == a4[0]);
    assert(a4[0] == (seq!['"'] + spec_escape(p))[0]);
    assert(s[p3] == '"');
    assert(spec_ws(s, i + 1) == p1);
    assert(spec_ws(s, p2) == p2);
    assert(spec_ws(s, p2 + 1) == p3);
    assert(spec_ws(s, p4) == p4);
    assert(spec_parse_path_obj(s, i) == Some((p, p5)));
}

/// Parsing encoded list items placed at `i`, with the closing bracket just
/// after, appends exactly the encoded paths to the accumulator.
proof fn lemma_parse_path_items_round(s: Seq<char>, i: int, ps: Seq<Seq<char>>, acc: Seq<Seq<char>>)
    requires
        ps.len() >= 1,
        0 <= i,
        i + spec_encode_path_items(ps).len() + 1 <= s.len(),
        s.subrange(i, i + spec_encode_path_items(ps).len() as int) == spec_encode_path_items(ps),
        s[i + spec_encode_path_items(ps).len() as int] == ']',
    ensures
        spec_parse_path_items(s, i, acc) == Some(
            (acc + ps, i + spec_encode_path_items(ps).len() + 1),
        ),
    decreases ps.len(),
{
    let items = spec_encode_path_items(ps);
    let obj = spec_encode_path_obj(ps[0]);
    if ps.len() == 1 {
        lemma_parse_path_obj_round(s, i, ps[0]);
        let b = i + obj.len() as int;
        assert(spec_ws(s, b) == b);
        assert(acc.push(ps[0]) =~= acc + ps);
    } else {
        let rest = spec_encode_path_items(ps.skip(1));
        let b = i + obj.len() as int;
        lemma_subrange_split(s, i, obj + seq![','], rest);
        lemma_subrange_split(s, i, obj, seq![',']);
        lemma_char_at(s, b, ',');
        lemma_parse_path_obj_round(s, i, ps[0]);
        assert(spec_ws(s, b) == b);
        lemma_path_items_first_char(ps.skip(1));
        lemma_subrange_index(s, b + 1, rest);
        assert(s[b + 1 + 0] == rest[0]);
        assert(s[b + 1] == '{');
        assert(spec_ws(s, b + 1) == b + 1);
        lemma_parse_path_items_round(s, b + 1, ps.skip(1), acc.push(ps[0]));
        assert(acc.push(ps[0]) + ps.skip(1) =~= acc + ps);
    }
}

/// Parsing an encoded receive-path value placed at `i` recovers it.
proof fn lemma_parse_paths_value_round(s: Seq<char>, i: int, v: Option<Seq<Seq<char>>>)
    requires
        0 <= i,
        i + spec_encode_paths_value(v).len() <= s.len(),
        s.subrange(i, i + spec_encode_paths_value(v).len() as int) == spec_encode_paths_value(v),
    ensures
        spec_parse_paths_value(s, i) == Some((v, i + spec_encode_paths_value(v).len())),
{
    let enc = spec_encode_paths_value(v);
    match v {
        None => {
            assert(spec_lit(s, i, "null"@) == Some(i + "null"@.len() as int));
        },
        Some(ps) => {
            reveal_strlit("null");
            lemma_subrange_index(s, i, enc);
            assert(s[i + 0] == enc[0]);
            assert(enc[0] == (seq!['['] + spec_encode_path_items(ps))[0]);
            assert(s[i] == '[');
            assert("null"@[0] == 'n');
            if i + "null"@.len() <= s.len() {
                if s.subrange(i, i + "null"@.len() as int) == "null"@ {
                    assert(s.subrange(i, i + "null"@.len() as int)[0] == s[i]);
                    assert(false);
                }
            }
            assert(spec_lit(s, i, "null"@) is None);
            let items = spec_encode_path_items(ps);
            lemma_subrange_split(s, i, seq!['['] + items, seq![']']);
            lemma_subrange_split(s, i, seq!['['], items);
            lemma_char_at(s, i + 1 + items.len() as int, ']');
            if ps.len() == 0 {
                assert(s[i + 1] == ']');
                assert(spec_ws(s, i + 1) == i + 1);
                assert(Some(Seq::<Seq<char>>::empty()) == v);
            } else {
                lemma_path_items_first_char(ps);
                lemma_subrange_index(s, i + 1, items);
                assert(s[i + 1 + 0] == items[0]);
                assert(s[i + 1] == '{');
                assert(spec_ws(s, i + 1) == i + 1);
                lemma_parse_path_items_round(s, i + 1, ps, Seq::empty());
                assert(Seq::<Seq<char>>::empty() + ps =~= ps);
            }
        },
    }
}

/// Parsing an encoded remote object placed at `i` recovers it field for
/// field.
#[verifier::rlimit(50)]
proof fn lemma_parse_remote_round(s: Seq<char>, i: int, m: RemoteModel)
    requires
        0 <= i,
        i + spec_encode_remote(m).len() <= s.len(),
        s.subrange(i, i + spec_encode_remote(m).len() as int) == spec_encode_remote(m),
    ensures
        spec_parse_remote(s, i) == Some((m, i + spec_encode_remote(m).len())),
{
    reveal_with_fuel(spec_parse_remote_members, 5);
    reveal_strlit("root");
    reveal_strlit("host");
    reveal_strlit("user");
    reveal_strlit("receive_paths");
    assert("root"@ =~= seq!['r', 'o', 'o', 't']);
    assert("host"@ =~= seq!['h', 'o', 's', 't']);
    assert("user"@ =~= seq!['u', 's', 'e', 'r']);
    assert("host"@ != "root"@);
    assert("user"@ != "root"@);
    assert("user"@ != "host"@);
    assert("receive_paths"@.len() == 13);
    assert("receive_paths"@ != "root"@);
    assert("receive_paths"@ != "host"@);
    assert("receive_paths"@ != "user"@);
    let a1 = seq!['{'];
    let a2 = spec_quote("root"@);
    let a3 = seq![':'];
    let a4 = spec_quote(m.root);
    let a5 = seq![','];
    let a6 = spec_quote("host"@);
    let a7 = seq![':'];
    let a8 = spec_quote(m.host);
    let a9 = seq![','];
    let a10 = spec_quote("user"@);
    let a11 = seq![':'];
    let a12 = spec_quote(m.user);
    let a13 = seq![','];
    let a14 = spec_quote("receive_paths"@);
    let a15 = seq![':'];
    let a16 = spec_encode_paths_value(m.receive_paths);
    let q1 = i + 1;
    let q2 = q1 + a2.len() as int;
    let q3 = q2 + 1;
    let q4 = q3 + a4.len() as int;
    let q5 = q4 + 1;
    let q6 = q5 + a6.len() as int;
    let q7 = q6 + 1;
    let q8 = q7 + a8.len() as int;
    let q9 = q8 + 1;
    let q10 = q9 + a10.len() as int;
    let q11 = q10 + 1;
    let q12 = q11 + a12.len() as int;
    let q13 = q12 + 1;
    let q14 = q13 + a14.len() as int;
    let q15 = q14 + 1;
    let q16 = q15 + a16.len() as int;
    let pre16 = a1 + a2 + a3 + a4 + a5 + a6 + a7 + a8 + a9 + a10 + a11 + a12 + a13 + a14 + a15
        + a16;
    lemma_subrange_split(s, i, pre16, seq!['}']);
    lemma_subrange_split(s, i, a1 + a2 + a3 + a4 + a5 + a6 + a7 + a8 + a9 + a10 + a11 + a12 + a13
        + a14 + a15, a16);
    lemma_subrange_split(s, i, a1 + a2 + a3 + a4 + a5 + a6 + a7 + a8 + a9 + a10 + a11 + a12 + a13
        + a14, a15);
    lemma_subrange_split(s, i, a1 + a2 + a3 + a4 + a5 + a6 + a7 + a8 + a9 + a10 + a11 + a12 + a13,
        a14);
    lemma_subrange_split(s, i, a1 + a2 + a3 + a4 + a5 + a6 + a7 + a8 + a9 + a10 + a11 + a12, a13);
    lemma_subrange_split(s, i, a1 + a2 + a3 + a4 + a5 + a6 + a7 + a8 + a9 + a10 + a11, a12);
    lemma_subrange_split(s, i, a1 + a2 + a3 + a4 + a5 + a6 + a7 + a8 + a9 + a10, a11);
    lemma_subrange_split(s, i, a1 + a2 + a3 + a4 + a5 + a6 + a7 + a8 + a9, a10);
    lemma_subrange_split(s, i, a1 + a2 + a3 + a4 + a5 + a6 + a7 + a8, a9);
    lemma_subrange_split(s, i, a1 + a2 + a3 + a4 + a5 + a6 + a7, a8);
    lemma_subrange_split(s, i, a1 + a2 + a3 + a4 + a5 + a6, a7);
    lemma_subrange_split(s, i, a1 + a2 + a3 + a4 + a5, a6);
    lemma_subrange_split(s, i, a1 + a2 + a3 + a4, a5);
    lemma_subrange_split(s, i, a1 + a2 + a3, a4);
    lemma_subrange_split(s, i, a1 + a2, a3);
    lemma_subrange_split(s, i, a1, a2);
    lemma_char_at(s, i, '{');
    lemma_char_at(s, q2, ':');
    lemma_char_at(s, q4, ',');
    lemma_char_at(s, q6, ':');
    lemma_char_at(s, q8, ',');
    lemma_char_at(s, q10, ':');
    lemma_char_at(s, q12, ',');
    lemma_char_at(s, q14, ':');
    lemma_char_at(s, q16, '}');
    lemma_parse_string_round(s, q1, "root"@);
    lemma_parse_string_round(s, q3, m.root);
    lemma_parse_string_round(s, q5, "host"@);
    lemma_parse_string_round(s, q7, m.host);
    lemma_parse_string_round(s, q9, "user"@);
    lemma_parse_string_round(s, q11, m.user);
    lemma_parse_string_round(s, q13, "receive_paths"@);
    lemma_parse_paths_value_round(s, q15, m.receive_paths);
    lemma_subrange_index(s, q1, a2);
    assert(s[q1 + 0] == a2[0]);
    assert(a2[0] == (seq!['"'] + spec_escape("root"@))[0]);
    lemma_subrange_index(s, q3, a4);
    assert(s[q3 + 0] == a4[0]);
    assert(a4[0] == (seq!['"'] + spec_escape(m.root))[0]);
    lemma_subrange_index(s, q5, a6);
    assert(s[q5 + 0] == a6[0]);
    assert(a6[0] == (seq!['"'] + spec_escape("host"@))[0]);
    lemma_subrange_index(s, q7, a8);
    assert(s[q7 + 0] == a8[0]);
    assert(a8[0] == (seq!['"'] + spec_escape(m.host))[0]);
    lemma_subrange_index(s, q9, a10);
    assert(s[q9 + 0] == a10[0]);
    assert(a10[0] == (seq!['"'] + spec_escape("user"@))[0]);
    lemma_subrange_index(s, q11, a12);
    assert(s[q11 + 0] == a12[0]);
    assert(a12[0] == (seq!['"'] + spec_escape(m.user))[0]);
    lemma_subrange_index(s, q13, a14);
    assert(s[q13 + 0] == a14[0]);
    assert(a14[0] == (seq!['"'] + spec_escape("receive_paths"@))[0]);
    assert(s[q1] == '"');
    assert(s[q3] == '"');
    assert(s[q5] == '"');
    assert(s[q7] == '"');
    assert(s[q9] == '"');
    assert(s[q11] == '"');
    assert(s[q13] == '"');
    lemma_paths_value_first_char(m.receive_paths);
    lemma_subrange_index(s, q15, a16);
    assert(s[q15 + 0] == a16[0]);
    assert(!spec_is_ws(s[q15]));
    assert(spec_ws(s, i + 1) == q1);
    assert(spec_ws(s, q2) == q2);
    assert(spec_ws(s, q2 + 1) == q3);
    assert(spec_ws(s, q4) == q4);
    assert(spec_ws(s, q4 + 1) == q5);
    assert(spec_ws(s, q6) == q6);
    assert(spec_ws(s, q6 + 1) == q7);
    assert(spec_ws(s, q8) == q8);
    assert(spec_ws(s, q8 + 1) == q9);
    assert(spec_ws(s, q10) == q10);
    assert(spec_ws(s, q10 + 1) == q11);
    assert(spec_ws(s, q12) == q12);
    assert(spec_ws(s, q12 + 1) == q13);
    assert(spec_ws(s, q14) == q14);
    assert(spec_ws(s, q14 + 1) == q15);
    assert(spec_ws(s, q16) == q16);
    assert(spec_parse_remote_members(s, q1, None, None, None, None) == Some((m, q16 + 1)));
}

/// Parsing `true` or `false` placed at `i` recovers the flag.
proof fn lemma_parse_bool_round(s: Seq<char>, i: int, b: bool)
    requires
        0 <= i,
        i + spec_encode_bool(b).len() <= s.len(),
        s.subrange(i, i + spec_encode_bool(b).len() as int) == spec_encode_bool(b),
    ensures
        spec_parse_bool(s, i) == Some((b, i + spec_encode_bool(b).len())),
{
    reveal_strlit("true");
    reveal_strlit("false");
    assert("true"@.len() == 4);
    assert("false"@.len() == 5);
    if b {
        assert(spec_lit(s, i, "true"@) == Some(i + 4));
    } else {
        lemma_subrange_index(s, i, "false"@);
        assert(s[i + 0] == "false"@[0]);
        assert(s[i] == 'f');
        if i + 4 <= s.len() {
            if s.subrange(i, i + 4) == "true"@ {
                assert(s.subrange(i, i + 4)[0] == s[i]);
                assert("true"@[0] == 't');
                assert(false);
            }
        }
        assert(spec_lit(s, i, "true"@) is None);
        assert(spec_lit(s, i, "false"@) == Some(i + 5));
    }
}

/// Walking the members of an encoded configuration record placed at `i`
/// recovers it field for field.
#[verifier::rlimit(100)]
proof fn lemma_config_members_round(s: Seq<char>, i: int, m: ConfigModel)
    requires
        0 <= i,
        i + spec_encode_config(m).len() <= s.len(),
        s.subrange(i, i + spec_encode_config(m).len() as int) == spec_encode_config(m),
    ensures
        s[i] == '{',
        spec_ws(s, i + 1) == i + 1,
        spec_parse_config_members(s, i + 1, None, None) == Some(
            (m, i + spec_encode_config(m).len()),
        ),
{
    reveal_with_fuel(spec_parse_config_members, 3);
    reveal_strlit("ignore_gitignore");
    reveal_strlit("ignoreGitignore");
    reveal_strlit("remote");
    assert("ignore_gitignore"@.len() == 16);
    assert("ignoreGitignore"@.len() == 15);
    assert("remote"@.len() == 6);
    assert("remote"@ != "ignore_gitignore"@);
    assert("remote"@ != "ignoreGitignore"@);
    let a1 = seq!['{'];
    let a2 = spec_quote("ignore_gitignore"@);
    let a3 = seq![':'];
    let a4 = spec_encode_bool(m.ignore_gitignore);
    let a5 = seq![','];
    let a6 = spec_quote("remote"@);
    let a7 = seq![':'];
    let a8 = spec_encode_remote(m.remote);
    let q1 = i + 1;
    let q2 = q1 + a2.len() as int;
    let q3 = q2 + 1;
    let q4 = q3 + a4.len() as int;
    let q5 = q4 + 1;
    let q6 = q5 + a6.len() as int;
    let q7 = q6 + 1;
    let q8 = q7 + a8.len() as int;
    lemma_subrange_split(s, i, a1 + a2 + a3 + a4 + a5 + a6 + a7 + a8, seq!['}']);
    lemma_subrange_split(s, i, a1 + a2 + a3 + a4 + a5 + a6 + a7, a8);
    lemma_subrange_split(s, i, a1 + a2 + a3 + a4 + a5 + a6, a7);
    lemma_subrange_split(s, i, a1 + a2 + a3 + a4 + a5, a6);
    lemma_subrange_split(s, i, a1 + a2 + a3 + a4, a5);
    lemma_subrange_split(s, i, a1 + a2 + a3, a4);
    lemma_subrange_split(s, i, a1 + a2, a3);
    lemma_subrange_split(s, i, a1, a2);
    lemma_char_at(s, i, '{');
    lemma_char_at(s, q2, ':');
    lemma_char_at(s, q4, ',');
    lemma_char_at(s, q6, ':');
    lemma_char_at(s, q8, '}');
    lemma_parse_string_round(s, q1, "ignore_gitignore"@);
    lemma_parse_string_round(s, q5, "remote"@);
    lemma_parse_remote_round(s, q7, m.remote);
    lemma_parse_bool_round(s, q3, m.ignore_gitignore);
    reveal_strlit("true");
    reveal_strlit("false");
    lemma_subrange_index(s, q3, a4);
    assert(s[q3 + 0] == a4[0]);
    if m.ignore_gitignore {
        assert(a4[0] == 't');
    } else {
        assert(a4[0] == 'f');
    }
    assert(!spec_is_ws(s[q3]));
    lemma_subrange_index(s, q1, a2);
    assert(s[q1 + 0] == a2[0]);
    assert(a2[0] == (seq!['"'] + spec_escape("ignore_gitignore"@))[0]);
    assert(s[q1] == '"');
    lemma_subrange_index(s, q5, a6);
    assert(s[q5 + 0] == a6[0]);
    assert(a6[0] == (seq!['"'] + spec_escape("remote"@))[0]);
    assert(s[q5] == '"');
    lemma_remote_first_char(m.remote);
    lemma_subrange_index(s, q7, a8);
    assert(s[q7 + 0] == a8[0]);
    assert(s[q7] == '{');
    assert(spec_ws(s, i + 1) == q1);
    assert(spec_ws(s, q2) == q2);
    assert(spec_ws(s, q2 + 1) == q3);
    assert(spec_ws(s, q4) == q4);
    assert(spec_ws(s, q4 + 1) == q5);
    assert(spec_ws(s, q6) == q6);
    assert(spec_ws(s, q6 + 1) == q7);
    assert(spec_ws(s, q8) == q8);
    assert(spec_parse_config_members(s, q1, None, None) == Some((m, q8 + 1)));
}

/// Parsing an encoded configuration record recovers it field for field:
/// serializing and deserializing a configuration yields equality, member by
/// member.
pub proof fn lemma_config_round_trip(m: ConfigModel)
    ensures
        spec_parse_config(spec_encode_config(m)) == Some(m),
{
    let s = spec_encode_config(m);
    assert(s.subrange(0, s.len() as int) =~= s);
    lemma_config_members_round(s, 0, m);
    assert(spec_ws(s, 0) == 0);
    assert(spec_ws(s, s.len() as int) == s.len() as int);
}

/// A persisted record that omits the flag member altogether.
pub open spec fn spec_encode_config_without_flag(rm: RemoteModel) -> Seq<char> {
    seq!['{'] + spec_quote("remote"@) + seq![':'] + spec_encode_remote(rm) + seq!['}']
}

/// When the stored record omits `ignore_gitignore`, parsing yields the
/// default: the flag is true and the remote coordinates are recovered.
pub proof fn lemma_parse_defaults_flag(rm: RemoteModel)
    ensures
        spec_parse_config(spec_encode_config_without_flag(rm)) == Some(
            ConfigModel { ignore_gitignore: true, remote: rm },
        ),
{
    reveal_with_fuel(spec_parse_config_members, 2);
    reveal_strlit("ignore_gitignore");
    reveal_strlit("ignoreGitignore");
    reveal_strlit("remote");
    assert("ignore_gitignore"@.len() == 16);
    assert("ignoreGitignore"@.len() == 15);
    assert("remote"@.len() == 6);
    assert("remote"@ != "ignore_gitignore"@);
    assert("remote"@ != "ignoreGitignore"@);
    let s = spec_encode_config_without_flag(rm);
    let a1 = seq!['{'];
    let a2 = spec_quote("remote"@);
    let a3 = seq![':'];
    let a4 = spec_encode_remote(rm);
    let q1 = 1int;
    let q2 = q1 + a2.len() as int;
    let q3 = q2 + 1;
    let q4 = q3 + a4.len() as int;
    assert(s.subrange(0, s.len() as int) =~= s);
    lemma_subrange_split(s, 0, a1 + a2 + a3 + a4, seq!['}']);
    lemma_subrange_split(s, 0, a1 + a2 + a3, a4);
    lemma_subrange_split(s, 0, a1 + a2, a3);
    lemma_subrange_split(s, 0, a1, a2);
    lemma_char_at(s, 0, '{');
    lemma_char_at(s, q2, ':');
    lemma_char_at(s, q4, '}');
    lemma_parse_string_round(s, q1, "remote"@);
    lemma_parse_remote_round(s, q3, rm);
    lemma_subrange_index(s, q1, a2);
    assert(s[q1 + 0] == a2[0]);
    assert(a2[0] == (seq!['"'] + spec_escape("remote"@))[0]);
    assert(s[q1] == '"');
    lemma_remote_first_char(rm);
    lemma_subrange_index(s, q3, a4);
    assert(s[q3 + 0] == a4[0]);
    assert(s[q3] == '{');
    assert(spec_ws(s, 0) == 0);
    assert(spec_ws(s, 1) == q1);
    assert(spec_ws(s, q2) == q2);
    assert(spec_ws(s, q2 + 1) == q3);
    assert(spec_ws(s, q4) == q4);
    assert(spec_parse_config_members(s, q1, None, None) == Some(
        (ConfigModel { ignore_gitignore: true, remote: rm }, q4 + 1),
    ));
    assert(q4 + 1 == s.len());
    assert(spec_ws(s, s.len() as int) == s.len() as int);
}

/// The line the `watch` subcommand emits for one significant event: the
/// variant name tagging the affected path, a rename tagging both paths.
pub open spec fn spec_encode_file_event(e: FileEvent) -> Seq<char> {
    match e {
        FileEvent::Create(p) => seq!['{'] + spec_quote("Create"@) + seq![':'] + spec_quote(p@)
            + seq!['}'],
        FileEvent::Write(p) => seq!['{'] + spec_quote("Write"@) + seq![':'] + spec_quote(p@)
            + seq!['}'],
        FileEvent::Chmod(p) => seq!['{'] + spec_quote("Chmod"@) + seq![':'] + spec_quote(p@)
            + seq!['}'],
        FileEvent::Remove(p) => seq!['{'] + spec_quote("Remove"@) + seq![':'] + spec_quote(p@)
            + seq!['}'],
        FileEvent::Rename(from, to) => seq!['{'] + spec_quote("Rename"@) + seq![':'] + seq!['[']
            + spec_quote(from@) + seq![','] + spec_quote(to@) + seq![']'] + seq!['}'],
    }
}

/// Encodes one significant event as a line-delimited structured record.
pub fn encode_file_event(e: &FileEvent) -> (s: String)
    ensures
        s@ == spec_encode_file_event(*e),
{
    let mut out: String = String::new();
    append_mark(&mut out, '{');
    match e {
        FileEvent::Create(p) => {
            append_quoted(&mut out, "Create");
            append_mark(&mut out, ':');
            append_quoted(&mut out, p.as_str());
        },
        FileEvent::Write(p) => {
            append_quoted(&mut out, "Write");
            append_mark(&mut out, ':');
            append_quoted(&mut out, p.as_str());
        },
        FileEvent::Chmod(p) => {
            append_quoted(&mut out, "Chmod");
            append_mark(&mut out, ':');
            append_quoted(&mut out, p.as_str());
        },
        FileEvent::Remove(p) => {
            append_quoted(&mut out, "Remove");
            append_mark(&mut out, ':');
            append_quoted(&mut out, p.as_str());
        },
        FileEvent::Rename(from, to) => {
            append_quoted(&mut out, "Rename");
            append_mark(&mut out, ':');
            append_mark(&mut out, '[');
            append_quoted(&mut out, from.as_str());
            append_mark(&mut out, ',');
            append_quoted(&mut out, to.as_str());
            append_mark(&mut out, ']');
        },
    }
    append_mark(&mut out, '}');
    assert(out@ =~= spec_encode_file_event(*e));
    out
}

} // verus!
