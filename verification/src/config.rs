//! Server configuration consumed by the runtime: TLS material locations,
//! the user-facing API configuration with its authentication setup, the
//! admin API acceptor and the heartbeat settings.

use vstd::prelude::*;

use crate::auth::{is_basic_auth_arg, parse_http_basic_auth_arg, Auth, AuthError};
use crate::error::Error;
use crate::json::{chars_of, string_from};

verus! {

/// Locations (as text) of the TLS certificate, key and CA certificate.
#[derive(Clone)]
pub struct TlsConfig {
    pub cert: String,
    pub key: String,
    pub ca_cert: String,
}

/// User-facing API configuration. `A` is the listener type the runtime
/// accepts connections with.
pub struct UserApiConfig<A> {
    pub hrana_ws_acceptor: Option<A>,
    pub http_acceptor: Option<A>,
    pub enable_http_console: bool,
    pub self_url: Option<String>,
    pub http_auth: Option<String>,
    pub auth_jwt_key: Option<String>,
}

impl<A> UserApiConfig<A> {
    /// Derive the authentication setup: parse the legacy HTTP basic
    /// argument when present, keep the JWT key text when present, and
    /// disable authentication exactly when neither is configured.
    pub fn get_auth(&self) -> (r: Result<Auth, AuthError>)
        ensures
            match r {
                Ok(a) => {
                    &&& match self.http_auth {
                        Some(arg) => is_basic_auth_arg(arg@) && (a.http_basic matches Some(p) && p@
                            == arg@.subrange(6, arg@.len() as int)),
                        None => a.http_basic is None,
                    }
                    &&& a.jwt_key == self.auth_jwt_key
                    &&& a.disabled == (a.http_basic is None && a.jwt_key is None)
                },
                Err(e) => (self.http_auth matches Some(arg) && !is_basic_auth_arg(arg@) && e
                    matches AuthError::BasicRejected),
            },
    {
        let mut auth = Auth::default();
        match &self.http_auth {
            Some(arg) => {
                match parse_http_basic_auth_arg(arg.as_str()) {
                    Ok(Some(param)) => {
                        auth.http_basic = Some(param);
                    },
                    Ok(None) => {},
                    Err(e) => {
                        return Err(e);
                    },
                }
            },
            None => {},
        }
        match &self.auth_jwt_key {
            Some(key) => {
                auth.jwt_key = Some(key.clone());
            },
            None => {},
        }
        auth.disabled = auth.http_basic.is_none() && auth.jwt_key.is_none();
        Ok(auth)
    }
}

/// Admin API configuration: just its listener.
pub struct AdminApiConfig<A> {
    pub acceptor: A,
}

/// Heartbeat configuration: where to send the periodic `POST`, how often
/// (in seconds), and the authorization header to include, if any.
pub struct HeartbeatConfig {
    pub heartbeat_url: String,
    pub heartbeat_period: u64,
    pub heartbeat_auth: Option<String>,
}

/// One entry of the trusted extensions list: the expected SHA-256 digest
/// (as hex text) and the extension's file name.
pub struct ExtensionEntry {
    pub sha: String,
    pub fname: String,
}

/// Whitespace within a line of the extensions list.
pub open spec fn is_ext_space(c: char) -> bool {
    c == ' ' || c == '\t' || c == '\r' || c == '\u{c}'
}

/// The first index at or after `i` that is not line whitespace, or the end.
pub open spec fn spec_skip_spaces(line: Seq<char>, i: int) -> int
    decreases line.len() - i,
{
    if i < 0 || i >= line.len() {
        line.len() as int
    } else if is_ext_space(line[i]) {
        spec_skip_spaces(line, i + 1)
    } else {
        i
    }
}

/// The first index at or after `i` that is line whitespace, or the end.
pub open spec fn spec_token_end(line: Seq<char>, i: int) -> int
    decreases line.len() - i,
{
    if i < 0 || i >= line.len() {
        line.len() as int
    } else if is_ext_space(line[i]) {
        i
    } else {
        spec_token_end(line, i + 1)
    }
}

/// The index of the first newline at or after `i`, or the end.
pub open spec fn spec_line_break(s: Seq<char>, i: int) -> int
    decreases s.len() - i,
{
    if i < 0 || i >= s.len() {
        s.len() as int
    } else if s[i] == '\n' {
        i
    } else {
        spec_line_break(s, i + 1)
    }
}

/// The first newline lies at or after `i` and no later than the end.
pub proof fn lemma_line_break_bounds(s: Seq<char>, i: int)
    requires
        0 <= i <= s.len(),
    ensures
        i <= spec_line_break(s, i) <= s.len(),
    decreases s.len() - i,
{
    if i < s.len() && s[i] != '\n' {
        lemma_line_break_bounds(s, i + 1);
    }
}

#[via_fn]
proof fn spec_split_lines_from_decreases(s: Seq<char>, pos: int) {
    if 0 <= pos < s.len() {
        lemma_line_break_bounds(s, pos);
    }
}

/// The newline-separated pieces of `s` from `pos` on: `n` newlines make
/// `n + 1` pieces, so a trailing newline yields a final empty piece (which
/// the list parser skips, like every empty line).
pub open spec fn spec_split_lines_from(s: Seq<char>, pos: int) -> Seq<Seq<char>>
    decreases s.len() - pos,
    via spec_split_lines_from_decreases
{
    let brk = spec_line_break(s, pos);
    if brk >= s.len() {
        seq![s.subrange(pos, s.len() as int)]
    } else {
        seq![s.subrange(pos, brk)] + spec_split_lines_from(s, brk + 1)
    }
}

/// The newline-separated pieces of `s`.
pub open spec fn spec_split_lines(s: Seq<char>) -> Seq<Seq<char>> {
    spec_split_lines_from(s, 0)
}

/// A non-empty line lacks one of its two fields.
pub open spec fn spec_line_missing_token(line: Seq<char>) -> bool {
    let t1s = spec_skip_spaces(line, 0);
    let t1e = spec_token_end(line, t1s);
    let t2s = spec_skip_spaces(line, t1e);
    t1s >= line.len() || t2s >= line.len()
}

/// A line carries something after its two fields.
pub open spec fn spec_line_extra_token(line: Seq<char>) -> bool {
    let t1s = spec_skip_spaces(line, 0);
    let t1e = spec_token_end(line, t1s);
    let t2s = spec_skip_spaces(line, t1e);
    let t2e = spec_token_end(line, t2s);
    let t3s = spec_skip_spaces(line, t2e);
    t1s < line.len() && t2s < line.len() && t3s < line.len()
}

/// The line holds exactly a digest and a file name.
pub open spec fn spec_line_tokens_ok(line: Seq<char>) -> bool {
    !spec_line_missing_token(line) && !spec_line_extra_token(line)
}

/// The digest field of a line.
pub open spec fn spec_line_sha(line: Seq<char>) -> Seq<char> {
    let t1s = spec_skip_spaces(line, 0);
    line.subrange(t1s, spec_token_end(line, t1s))
}

/// The file-name field of a line.
pub open spec fn spec_line_fname(line: Seq<char>) -> Seq<char> {
    let t1s = spec_skip_spaces(line, 0);
    let t1e = spec_token_end(line, t1s);
    let t2s = spec_skip_spaces(line, t1e);
    line.subrange(t2s, spec_token_end(line, t2s))
}

/// The entries of the first `k` lines, in order; empty lines contribute
/// nothing.
pub open spec fn spec_line_entries(lines: Seq<Seq<char>>, k: int) -> Seq<(Seq<char>, Seq<char>)>
    decreases k,
{
    if k <= 0 {
        Seq::empty()
    } else {
        let prev = spec_line_entries(lines, k - 1);
        let line = lines[k - 1];
        if line.len() == 0 {
            prev
        } else {
            prev.push((spec_line_sha(line), spec_line_fname(line)))
        }
    }
}

/// The digest and file-name texts of the entries.
pub open spec fn entries_view(v: Seq<ExtensionEntry>) -> Seq<(Seq<char>, Seq<char>)> {
    v.map_values(|e: ExtensionEntry| (e.sha@, e.fname@))
}

/// Advance past line whitespace.
fn skip_spaces_at(line: &Vec<char>, i: usize) -> (r: usize)
    requires
        i <= line@.len(),
    ensures
        r == spec_skip_spaces(line@, i as int),
        i <= r <= line@.len(),
    decreases line@.len() - i,
{
    if i < line.len() {
        let c = line[i];
        if c == ' ' || c == '\t' || c == '\r' || c == '\u{c}' {
            return skip_spaces_at(line, i + 1);
        }
    }
    i
}

/// Advance to the end of the token starting at `i`.
fn token_end_at(line: &Vec<char>, i: usize) -> (r: usize)
    requires
        i <= line@.len(),
    ensures
        r == spec_token_end(line@, i as int),
        i <= r <= line@.len(),
    decreases line@.len() - i,
{
    if i < line.len() {
        let c = line[i];
        if !(c == ' ' || c == '\t' || c == '\r' || c == '\u{c}') {
            return token_end_at(line, i + 1);
        }
    }
    i
}

/// The index of the first newline at or after `i`, or the end.
fn line_end(s: &Vec<char>, i: usize) -> (r: usize)
    requires
        i <= s@.len(),
    ensures
        r == spec_line_break(s@, i as int),
        i <= r <= s@.len(),
    decreases s@.len() - i,
{
    if i < s.len() {
        if s[i] != '\n' {
            return line_end(s, i + 1);
        }
    }
    i
}

/// Copy a range of characters.
fn copy_range(s: &Vec<char>, a: usize, b: usize) -> (r: Vec<char>)
    requires
        a <= b <= s@.len(),
    ensures
        r@ == s@.subrange(a as int, b as int),
{
    let mut out: Vec<char> = Vec::new();
    let mut j = a;
    proof {
        assert(out@ =~= s@.subrange(a as int, a as int));
    }
    while j < b
        invariant
            a <= j <= b <= s@.len(),
            out@ == s@.subrange(a as int, j as int),
        decreases b - j,
    {
        out.push(s[j]);
        j += 1;
        proof {
            assert(out@ =~= s@.subrange(a as int, j as int));
        }
    }
    out
}

/// Split into newline-separated lines, from `pos` on.
fn split_lines_from(s: &Vec<char>, pos: usize) -> (r: Vec<Vec<char>>)
    requires
        pos <= s@.len(),
    ensures
        r.deep_view() == spec_split_lines_from(s@, pos as int),
    decreases s@.len() - pos,
{
    let brk = line_end(s, pos);
    let line = copy_range(s, pos, brk);
    if brk == s.len() {
        let mut out: Vec<Vec<char>> = Vec::new();
        out.push(line);
        proof {
            assert(out.deep_view() =~~= spec_split_lines_from(s@, pos as int));
        }
        out
    } else {
        let mut rest = split_lines_from(s, brk + 1);
        rest.insert(0, line);
        proof {
            assert(rest.deep_view() =~~= spec_split_lines_from(s@, pos as int));
        }
        rest
    }
}

/// Parse one line of the trusted extensions list: an empty line is
/// skipped; otherwise the line must hold exactly a digest and a file name,
/// separated by whitespace.
pub fn parse_extension_line(line: &Vec<char>) -> (r: Result<Option<ExtensionEntry>, Error>)
    ensures
        line@.len() == 0 ==> (r matches Ok(o) && o is None),
        (line@.len() > 0 && spec_line_tokens_ok(line@)) ==> (r matches Ok(o) && (o matches Some(e)
            && e.sha@ == spec_line_sha(line@) && e.fname@ == spec_line_fname(line@))),
        (line@.len() > 0 && spec_line_missing_token(line@)) ==> (r matches Err(e) && e
            matches Error::InvalidExtensionLine),
        (line@.len() > 0 && !spec_line_missing_token(line@) && spec_line_extra_token(line@)) ==> (r
            matches Err(e) && e matches Error::ExtensionNameWithWhitespace),
{
    if line.len() == 0 {
        return Ok(None);
    }
    let t1s = skip_spaces_at(line, 0);
    if t1s == line.len() {
        return Err(Error::InvalidExtensionLine);
    }
    let t1e = token_end_at(line, t1s);
    let t2s = skip_spaces_at(line, t1e);
    if t2s == line.len() {
        return Err(Error::InvalidExtensionLine);
    }
    let t2e = token_end_at(line, t2s);
    let t3s = skip_spaces_at(line, t2e);
    if t3s != line.len() {
        return Err(Error::ExtensionNameWithWhitespace);
    }
    let sha_chars = copy_range(line, t1s, t1e);
    let fname_chars = copy_range(line, t2s, t2e);
    Ok(
        Some(
            ExtensionEntry { sha: string_from(&sha_chars), fname: string_from(&fname_chars) },
        ),
    )
}

/// Parse the whole trusted extensions list (`trusted.lst`): one digest and
/// file name per line, empty lines skipped, anything else rejected at the
/// first offending line. Checking each file's actual digest against its
/// entry is the runtime's part.
pub fn parse_extensions_list(contents: &str) -> (r: Result<Vec<ExtensionEntry>, Error>)
    ensures
        ({
            let lines = spec_split_lines(contents@);
            match r {
                Ok(v) => {
                    &&& (forall|k: int|
                        0 <= k < lines.len() ==> ((#[trigger] lines[k]).len() == 0
                            || spec_line_tokens_ok(lines[k])))
                    &&& entries_view(v@) == spec_line_entries(lines, lines.len() as int)
                },
                Err(e) => exists|k: int|
                    {
                        &&& 0 <= k < lines.len()
                        &&& (#[trigger] lines[k]).len() > 0
                        &&& !spec_line_tokens_ok(lines[k])
                        &&& (forall|j: int|
                            0 <= j < k ==> ((#[trigger] lines[j]).len() == 0
                                || spec_line_tokens_ok(lines[j])))
                        &&& (spec_line_missing_token(lines[k]) ==> e
                            matches Error::InvalidExtensionLine)
                        &&& (!spec_line_missing_token(lines[k]) ==> e
                            matches Error::ExtensionNameWithWhitespace)
                    },
            }
        }),
{
    let chars = chars_of(contents);
    let lines = split_lines_from(&chars, 0);
    let ghost linesv = spec_split_lines(contents@);
    proof {
        assert(lines.deep_view() == linesv);
    }
    let mut entries: Vec<ExtensionEntry> = Vec::new();
    let mut k: usize = 0;
    let total = lines.len();
    proof {
        assert(entries_view(entries@) =~= spec_line_entries(linesv, 0));
    }
    while k < total
        invariant
            linesv == spec_split_lines(contents@),
            total == lines@.len(),
            lines.deep_view() == linesv,
            k <= total,
            linesv.len() == total,
            forall|j: int|
                0 <= j < k ==> ((#[trigger] linesv[j]).len() == 0 || spec_line_tokens_ok(
                    linesv[j],
                )),
            entries_view(entries@) == spec_line_entries(linesv, k as int),
        decreases total - k,
    {
        proof {
            assert(lines@[k as int].deep_view() =~= lines@[k as int]@);
            assert(lines@[k as int]@ == linesv[k as int]);
        }
        match parse_extension_line(&lines[k]) {
            Ok(Some(e)) => {
                entries.push(e);
            },
            Ok(None) => {},
            Err(e) => {
                proof {
                    let wk = k as int;
                    assert(linesv[wk].len() > 0);
                    assert(!spec_line_tokens_ok(linesv[wk]));
                    assert(spec_line_missing_token(linesv[wk]) ==> e
                        matches Error::InvalidExtensionLine);
                    assert(!spec_line_missing_token(linesv[wk]) ==> e
                        matches Error::ExtensionNameWithWhitespace);
                    assert(forall|j: int|
                        0 <= j < wk ==> ((#[trigger] linesv[j]).len() == 0 || spec_line_tokens_ok(
                            linesv[j],
                        )));
                }
                return Err(e);
            },
        }
        k += 1;
        proof {
            assert(entries_view(entries@) =~= spec_line_entries(linesv, k as int));
        }
    }
    Ok(entries)
}

/// The computed digest of an extension file matches its listed digest.
pub fn extension_digest_matches(entry: &ExtensionEntry, digest: &str) -> (r: bool)
    ensures
        r == (entry.sha@ == digest@),
{
    entry.sha == digest.to_owned()
}

/// Assemble the heartbeat configuration; there is none without a URL.
pub fn make_hearbeat_config(
    heartbeat_url: Option<String>,
    heartbeat_period_s: u64,
    heartbeat_auth: Option<String>,
) -> (r: Option<HeartbeatConfig>)
    ensures
        match heartbeat_url {
            Some(url) => (r matches Some(c) && c.heartbeat_url == url && c.heartbeat_period
                == heartbeat_period_s && c.heartbeat_auth == heartbeat_auth),
            None => r is None,
        },
{
    match heartbeat_url {
        Some(url) => Some(
            HeartbeatConfig {
                heartbeat_url: url,
                heartbeat_period: heartbeat_period_s,
                heartbeat_auth,
            },
        ),
        None => None,
    }
}

} // verus!
