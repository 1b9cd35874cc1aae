//! `diff`: the unified diff (or a one-sided message, or a JSON line)
//! between a local file and its remote blob, both normalized first.

use vstd::prelude::*;
use vstd::string::StrSliceExecFns;
use vstd::utf8::{decode_utf8, encode_utf8, valid_utf8};

use crate::args::{resolve_branch, resolve_repo};
use crate::compare::opt_string_view;
use crate::error::GitlessError;
use crate::github::find_remote;
use crate::normalize::{hex_char, is_binary, looks_binary, normalize_text, normalized};
use crate::paths::forward_slashes;
use crate::size_gate::RemoteFile;
use crate::text::{chars_eq, chars_of, push_char, push_str};

verus! {

/// Options of one `diff` run.
#[derive(Debug)]
pub struct DiffArgs {
    /// `owner/name`; falls back to the configuration.
    pub repo: Option<String>,
    /// Branch; falls back to the configuration, then `main`.
    pub branch: Option<String>,
    /// Local directory the file is read from.
    pub local: String,
    /// Keep a leading UTF-8 BOM when normalizing.
    pub keep_bom: bool,
    /// Relative path of the file.
    pub path: String,
    /// Remote path to compare against, where it differs from `path`.
    pub remote_path: Option<String>,
    /// Emit one JSON line instead of the unified text.
    pub json: bool,
}

/// What a `diff` run prints: `stdout` bytes and, when not empty, a line
/// for stderr.
#[derive(Debug, Clone, PartialEq, Eq)]
pub struct DiffOutcome {
    pub stdout: Vec<u8>,
    pub stderr_message: String,
}

/// Which sides hold the file, as the JSON `side` field names it.
#[derive(Debug, Clone, Copy, PartialEq, Eq, Structural)]
pub enum Side {
    Both,
    LocalOnly,
    RemoteOnly,
}

/// The JSON name of a side.
pub open spec fn side_text(s: Side) -> Seq<char> {
    match s {
        Side::Both => "both"@,
        Side::LocalOnly => "local_only"@,
        Side::RemoteOnly => "remote_only"@,
    }
}

/// What `String::from_utf8_lossy` makes of `b`.
pub uninterp spec fn utf8_lossy(b: Seq<u8>) -> Seq<char>;

/// `String::from_utf8_lossy`: the text of `bytes`, invalid sequences
/// replaced by U+FFFD; valid UTF-8 is decoded as it is.
#[verifier::external_body]
fn lossy_text(bytes: &[u8]) -> (r: String)
    ensures
        r@ == utf8_lossy(bytes@),
        valid_utf8(bytes@) ==> r@ == decode_utf8(bytes@),
{
    String::from_utf8_lossy(bytes).into_owned()
}

/// The unified diff `similar` renders from `old` to `new` (line based)
/// under the headers `a` and `b`.
pub uninterp spec fn unified_text(old: Seq<char>, new: Seq<char>, a: Seq<char>, b: Seq<char>) -> Seq<char>;

/// `similar::TextDiff::from_lines(old, new).unified_diff()` with the
/// headers `a` / `b`, rendered to a string. Equal texts give no hunk, and
/// the headers are written only before a first hunk, so the text is empty.
#[verifier::external_body]
fn unified_diff(old: &str, new: &str, a: &str, b: &str) -> (r: String)
    ensures
        r@ == unified_text(old@, new@, a@, b@),
        old@ == new@ ==> r@.len() == 0,
{
    let diff = similar::TextDiff::from_lines(old, new);
    let mut unified = diff.unified_diff();
    unified.header(a, b);
    unified.to_string()
}

/// How `serde_json` writes one character inside a string literal: a double
/// quote or a backslash behind a backslash; backspace, form feed, newline, carriage return
/// and tab as `\b \f \n \r \t`; any other control character below U+0020
/// as `\u00XX` with lower-case hex digits; everything else as it is.
pub open spec fn json_escape_char(c: char) -> Seq<char> {
    let u = c as u32;
    if c == '"' {
        seq!['\\', '"']
    } else if c == '\\' {
        seq!['\\', '\\']
    } else if u == 8 {
        seq!['\\', 'b']
    } else if u == 12 {
        seq!['\\', 'f']
    } else if c == '\n' {
        seq!['\\', 'n']
    } else if c == '\r' {
        seq!['\\', 'r']
    } else if c == '\t' {
        seq!['\\', 't']
    } else if u < 0x20 {
        seq!['\\', 'u', '0', '0', hex_char((u / 16) as nat), hex_char((u % 16) as nat)]
    } else {
        seq![c]
    }
}

/// The characters of `s`, each escaped as in a JSON string literal.
pub open spec fn json_escape(s: Seq<char>) -> Seq<char>
    decreases s.len(),
{
    if s.len() == 0 {
        Seq::empty()
    } else {
        json_escape(s.drop_last()) + json_escape_char(s.last())
    }
}

/// The JSON string literal `serde_json` writes for `s`: the escaped
/// characters between double quotes.
pub open spec fn json_quoted(s: Seq<char>) -> Seq<char> {
    seq!['"'] + json_escape(s) + seq!['"']
}

/// `serde_json::to_string` of a string: it cannot fail for a `str`, and it
/// writes the escaped characters between double quotes (see
/// [`json_escape_char`]; the escape table works on bytes, but every byte it
/// escapes is ASCII, so a multi-byte character passes unchanged).
#[verifier::external_body]
fn json_string(s: &str) -> (r: String)
    ensures
        r@ == json_quoted(s@),
{
    match serde_json::to_string(s) {
        Ok(t) => t,
        Err(_) => String::new(),
    }
}

/// A side whose normalized bytes are valid UTF-8 reads as those characters.
pub open spec fn decodes_plainly(raw: Seq<u8>, keep_bom: bool) -> bool {
    valid_utf8(normalized(raw, keep_bom)) ==> side_text_of(raw, keep_bom) == decode_utf8(normalized(raw, keep_bom))
}

/// The normalized text of one side, as a string.
pub open spec fn side_text_of(raw: Seq<u8>, keep_bom: bool) -> Seq<char> {
    utf8_lossy(normalized(raw, keep_bom))
}

/// The unified diff from the remote (`a/<remote key>`) to the local
/// (`b/<local key>`) normalized text.
pub open spec fn diff_text(local: Seq<u8>, remote: Seq<u8>, local_key: Seq<char>, remote_key: Seq<char>, keep_bom: bool) -> Seq<char> {
    unified_text(
        side_text_of(remote, keep_bom),
        side_text_of(local, keep_bom),
        "a/"@ + remote_key,
        "b/"@ + local_key,
    )
}

/// The outcome of a file on one side only, labelled `label`: binary
/// content prints nothing and says so on stderr; text prints its
/// normalized bytes with the label on stderr.
pub open spec fn one_sided_outcome(content: Seq<u8>, label: Seq<char>, keep_bom: bool) -> (Seq<u8>, Seq<char>) {
    if looks_binary(content) {
        (Seq::empty(), label + " (binary file, content not shown)"@)
    } else {
        (normalized(content, keep_bom), label)
    }
}

/// The outcome of a file on both sides: a binary side skips the diff;
/// otherwise the unified diff is printed.
pub open spec fn both_sides_outcome(
    local: Seq<u8>,
    remote: Seq<u8>,
    local_key: Seq<char>,
    remote_key: Seq<char>,
    keep_bom: bool,
) -> (Seq<u8>, Seq<char>) {
    if looks_binary(local) || looks_binary(remote) {
        (Seq::empty(), "binary file, diff skipped"@)
    } else {
        (encode_utf8(diff_text(local, remote, local_key, remote_key, keep_bom)), Seq::empty())
    }
}

/// A JSON `null` or string.
pub open spec fn json_opt(s: Option<Seq<char>>) -> Seq<char> {
    match s {
        Some(t) => json_quoted(t),
        None => "null"@,
    }
}

/// The JSON object `{"side":..,"unified":..,"raw":..,"binary":..}`.
pub open spec fn json_object(side: Side, unified: Option<Seq<char>>, raw: Option<Seq<char>>, binary: bool) -> Seq<char> {
    "{\"side\":\""@ + side_text(side) + "\",\"unified\":"@ + json_opt(unified) + ",\"raw\":"@ + json_opt(raw)
        + ",\"binary\":"@ + (if binary {
        "true"@
    } else {
        "false"@
    }) + "}"@
}

/// The JSON line of a file on one side only: binary content carries no
/// text, text carries its normalized content as `raw`.
pub open spec fn one_sided_json_text(content: Seq<u8>, side: Side, keep_bom: bool) -> Seq<char> {
    if looks_binary(content) {
        json_object(side, None, None, true)
    } else {
        json_object(side, None, Some(side_text_of(content, keep_bom)), false)
    }
}

/// The JSON line of a file on both sides: binary skips the diff; equal
/// normalized texts give an empty `unified`, different ones the diff.
pub open spec fn both_sides_json_text(
    local: Seq<u8>,
    remote: Seq<u8>,
    local_key: Seq<char>,
    remote_key: Seq<char>,
    keep_bom: bool,
) -> Seq<char> {
    if looks_binary(local) || looks_binary(remote) {
        json_object(Side::Both, None, None, true)
    } else if side_text_of(remote, keep_bom) == side_text_of(local, keep_bom) {
        json_object(Side::Both, Some(Seq::empty()), None, false)
    } else {
        json_object(Side::Both, Some(diff_text(local, remote, local_key, remote_key, keep_bom)), None, false)
    }
}

/// `text` as UTF-8 followed by a newline, with nothing on stderr.
pub open spec fn json_outcome(text: Seq<char>) -> (Seq<u8>, Seq<char>) {
    (encode_utf8(text).push(10u8), Seq::empty())
}

/// The outcome as plain values.
pub open spec fn outcome_view(o: DiffOutcome) -> (Seq<u8>, Seq<char>) {
    (o.stdout@, o.stderr_message@)
}

/// The bytes of `s` as UTF-8.
fn utf8_bytes(s: &String) -> (b: Vec<u8>)
    ensures
        b@ == encode_utf8(s@),
{
    s.as_str().as_bytes_vec()
}

/// Outcome of a file present on one side only (see [`one_sided_outcome`]).
pub fn one_sided(content: &[u8], label: &str, keep_bom: bool) -> (o: DiffOutcome)
    ensures
        outcome_view(o) == one_sided_outcome(content@, label@, keep_bom),
{
    if is_binary(content) {
        let mut m = String::new();
        push_str(&mut m, label);
        push_str(&mut m, " (binary file, content not shown)");
        DiffOutcome { stdout: Vec::new(), stderr_message: m }
    } else {
        let mut m = String::new();
        push_str(&mut m, label);
        DiffOutcome { stdout: normalize_text(content, keep_bom), stderr_message: m }
    }
}

/// The unified diff text of both sides (see [`diff_text`]); empty when
/// they normalize to the same bytes.
fn render_diff(local: &[u8], remote: &[u8], local_key: &str, remote_key: &str, keep_bom: bool) -> (r: String)
    ensures
        r@ == diff_text(local@, remote@, local_key@, remote_key@, keep_bom),
        normalized(local@, keep_bom) == normalized(remote@, keep_bom) ==> r@.len() == 0,
        decodes_plainly(local@, keep_bom),
        decodes_plainly(remote@, keep_bom),
{
    let old_bytes = normalize_text(remote, keep_bom);
    let new_bytes = normalize_text(local, keep_bom);
    let old_str = lossy_text(old_bytes.as_slice());
    let new_str = lossy_text(new_bytes.as_slice());
    let mut a = String::new();
    push_str(&mut a, "a/");
    push_str(&mut a, remote_key);
    let mut b = String::new();
    push_str(&mut b, "b/");
    push_str(&mut b, local_key);
    unified_diff(old_str.as_str(), new_str.as_str(), a.as_str(), b.as_str())
}

/// Outcome of a file present on both sides (see [`both_sides_outcome`]):
/// text sides that normalize to the same bytes print nothing at all.
pub fn both_sides(local: &[u8], remote: &[u8], local_key: &str, remote_key: &str, keep_bom: bool) -> (o: DiffOutcome)
    ensures
        outcome_view(o) == both_sides_outcome(local@, remote@, local_key@, remote_key@, keep_bom),
        !looks_binary(local@) && !looks_binary(remote@) && normalized(local@, keep_bom) == normalized(remote@, keep_bom)
            ==> o.stdout@.len() == 0 && o.stderr_message@.len() == 0,
        !looks_binary(local@) && !looks_binary(remote@) ==> decodes_plainly(local@, keep_bom) && decodes_plainly(
            remote@,
            keep_bom,
        ),
{
    if is_binary(local) || is_binary(remote) {
        let mut m = String::new();
        push_str(&mut m, "binary file, diff skipped");
        return DiffOutcome { stdout: Vec::new(), stderr_message: m };
    }
    let text = render_diff(local, remote, local_key, remote_key, keep_bom);
    let stdout = utf8_bytes(&text);
    proof {
        if text@.len() == 0 {
            assert(text@ =~= Seq::<char>::empty());
            assert(encode_utf8(Seq::<char>::empty()) =~= Seq::<u8>::empty());
        }
    }
    DiffOutcome { stdout, stderr_message: String::new() }
}

/// Append a JSON `null` or string.
fn push_json_opt(out: &mut String, s: Option<&str>)
    ensures
        final(out)@ == old(out)@ + json_opt(match s {
            Some(t) => Some(t@),
            None => None,
        }),
{
    match s {
        Some(t) => {
            let q = json_string(t);
            push_str(out, q.as_str());
        },
        None => push_str(out, "null"),
    }
}

/// The JSON object text (see [`json_object`]).
fn json_object_text(side: Side, unified: Option<&str>, raw: Option<&str>, binary: bool) -> (r: String)
    ensures
        r@ == json_object(
            side,
            match unified {
                Some(t) => Some(t@),
                None => None,
            },
            match raw {
                Some(t) => Some(t@),
                None => None,
            },
            binary,
        ),
{
    let mut out = String::new();
    push_str(&mut out, "{\"side\":\"");
    match side {
        Side::Both => push_str(&mut out, "both"),
        Side::LocalOnly => push_str(&mut out, "local_only"),
        Side::RemoteOnly => push_str(&mut out, "remote_only"),
    }
    push_str(&mut out, "\",\"unified\":");
    push_json_opt(&mut out, unified);
    push_str(&mut out, ",\"raw\":");
    push_json_opt(&mut out, raw);
    push_str(&mut out, ",\"binary\":");
    if binary {
        push_str(&mut out, "true");
    } else {
        push_str(&mut out, "false");
    }
    push_str(&mut out, "}");
    out
}

/// The outcome printing `text` and a newline.
fn json_line(text: &String) -> (o: DiffOutcome)
    ensures
        outcome_view(o) == json_outcome(text@),
{
    let mut stdout = utf8_bytes(text);
    stdout.push(10u8);
    DiffOutcome { stdout, stderr_message: String::new() }
}

/// JSON outcome of a file present on one side only.
pub fn one_sided_json(content: &[u8], side: Side, keep_bom: bool) -> (o: DiffOutcome)
    ensures
        outcome_view(o) == json_outcome(one_sided_json_text(content@, side, keep_bom)),
        !looks_binary(content@) ==> decodes_plainly(content@, keep_bom),
{
    if is_binary(content) {
        let t = json_object_text(side, None, None, true);
        json_line(&t)
    } else {
        let normalized_bytes = normalize_text(content, keep_bom);
        let raw = lossy_text(normalized_bytes.as_slice());
        let t = json_object_text(side, None, Some(raw.as_str()), false);
        json_line(&t)
    }
}

/// JSON outcome of a file present on both sides.
pub fn both_sides_json(local: &[u8], remote: &[u8], local_key: &str, remote_key: &str, keep_bom: bool) -> (o: DiffOutcome)
    ensures
        outcome_view(o) == json_outcome(both_sides_json_text(local@, remote@, local_key@, remote_key@, keep_bom)),
        !looks_binary(local@) && !looks_binary(remote@) ==> decodes_plainly(local@, keep_bom) && decodes_plainly(
            remote@,
            keep_bom,
        ),
{
    if is_binary(local) || is_binary(remote) {
        let t = json_object_text(Side::Both, None, None, true);
        return json_line(&t);
    }
    let old_bytes = normalize_text(remote, keep_bom);
    let new_bytes = normalize_text(local, keep_bom);
    let old_str = lossy_text(old_bytes.as_slice());
    let new_str = lossy_text(new_bytes.as_slice());
    if chars_eq(&chars_of(old_str.as_str()), &chars_of(new_str.as_str())) {
        proof {
            reveal_strlit("");
            assert(""@ =~= Seq::<char>::empty());
            assert(old_str@ == new_str@);
        }
        let t = json_object_text(Side::Both, Some(""), None, false);
        json_line(&t)
    } else {
        let d = render_diff(local, remote, local_key, remote_key, keep_bom);
        let t = json_object_text(Side::Both, Some(d.as_str()), None, false);
        json_line(&t)
    }
}

/// `s` with every backslash turned into a forward slash.
pub fn slash_path(s: &str) -> (r: String)
    ensures
        r@ == forward_slashes(s@),
{
    let cs = chars_of(s);
    let mut out = String::new();
    for i in 0..cs.len()
        invariant
            cs@ == s@,
            out@ == forward_slashes(s@.take(i as int)),
    {
        let c = if cs[i] == '\\' {
            '/'
        } else {
            cs[i]
        };
        push_char(&mut out, c);
        assert(out@ =~= forward_slashes(s@.take(i + 1)));
    }
    assert(s@.take(s@.len() as int) =~= s@);
    out
}

/// The local key (`path` with forward slashes) and the remote key
/// (`remote_path` with forward slashes, else the local key).
pub open spec fn diff_keys(args: DiffArgs) -> (Seq<char>, Seq<char>) {
    let local = forward_slashes(args.path@);
    (local, match args.remote_path {
        Some(p) => forward_slashes(p@),
        None => local,
    })
}

/// The keys of a diff (see [`diff_keys`]).
pub fn keys_of(args: &DiffArgs) -> (r: (String, String))
    ensures
        (r.0@, r.1@) == diff_keys(*args),
{
    let local = slash_path(args.path.as_str());
    let remote = match &args.remote_path {
        Some(p) => slash_path(p.as_str()),
        None => slash_path(args.path.as_str()),
    };
    (local, remote)
}

/// Repository and branch of a diff: the options, else the configuration
/// values (`Config("repo not specified")` without a repository; branch
/// `main` by default).
pub fn diff_target(args: &DiffArgs, config_repo: Option<&str>, config_branch: Option<&str>) -> (r: Result<(String, String), GitlessError>)
    ensures
        args.repo is None && config_repo is None ==> (r matches Err(GitlessError::Config(m)) && m@ == "repo not specified"@),
        args.repo matches Some(c) ==> (r matches Ok(t) && t.0@ == c@),
        args.repo is None ==> (config_repo matches Some(c) ==> (r matches Ok(t) && t.0@ == c@)),
        r matches Ok(t) ==> t.1@ == crate::args::spec_resolve_branch(
            opt_string_view(args.branch),
            crate::compare::opt_view(config_branch),
        ),
{
    let cli_repo: Option<&str> = match &args.repo {
        Some(s) => Some(s.as_str()),
        None => None,
    };
    let repo = resolve_repo(cli_repo, config_repo)?;
    let cli_branch: Option<&str> = match &args.branch {
        Some(s) => Some(s.as_str()),
        None => None,
    };
    let branch = resolve_branch(cli_branch, config_branch);
    Ok((repo, branch))
}

/// The SHA of the remote blob to fetch: that of the first tree entry whose
/// path is the remote key, if any.
pub fn remote_blob_sha(tree: &Vec<RemoteFile>, remote_key: &str) -> (r: Option<String>)
    ensures
        r matches Some(s) ==> exists|i: int|
            0 <= i < tree@.len() && tree@[i].path@ == remote_key@ && tree@[i].sha@ == s@ && forall|j: int|
                0 <= j < i ==> tree@[j].path@ != remote_key@,
        r is None ==> forall|j: int| 0 <= j < tree@.len() ==> tree@[j].path@ != remote_key@,
{
    match find_remote(tree, remote_key) {
        Some(i) => Some(tree[i].sha.clone()),
        None => None,
    }
}

/// The error when the path exists on neither side.
pub open spec fn not_found_text(local_key: Seq<char>, remote_key: Seq<char>) -> Seq<char> {
    "path not found locally or remotely: local="@ + local_key + " remote="@ + remote_key
}

/// What `diff` prints for the local bytes and the remote blob, where they
/// exist: the error when neither does; otherwise the one-sided or
/// both-sides outcome, as JSON when asked.
pub open spec fn diff_result(args: DiffArgs, local: Option<Seq<u8>>, remote: Option<Seq<u8>>) -> Result<(Seq<u8>, Seq<char>), Seq<char>> {
    let (lk, rk) = diff_keys(args);
    match (local, remote) {
        (None, None) => Err(not_found_text(lk, rk)),
        (Some(l), None) => Ok(if args.json {
            json_outcome(one_sided_json_text(l, Side::LocalOnly, args.keep_bom))
        } else {
            one_sided_outcome(l, "(local only)"@, args.keep_bom)
        }),
        (None, Some(r)) => Ok(if args.json {
            json_outcome(one_sided_json_text(r, Side::RemoteOnly, args.keep_bom))
        } else {
            one_sided_outcome(r, "(remote only)"@, args.keep_bom)
        }),
        (Some(l), Some(r)) => Ok(if args.json {
            json_outcome(both_sides_json_text(l, r, lk, rk, args.keep_bom))
        } else {
            both_sides_outcome(l, r, lk, rk, args.keep_bom)
        }),
    }
}

/// The bytes' views.
pub open spec fn bytes_view(o: Option<Vec<u8>>) -> Option<Seq<u8>> {
    match o {
        Some(v) => Some(v@),
        None => None,
    }
}

/// The diff of the local file (`None` where it does not exist) and the
/// remote blob (`None` where the tree has no such path), see
/// [`diff_result`]; the error is a `Config` error. Two text sides that
/// normalize to the same bytes print nothing, on either stream.
pub fn compute_diff(args: &DiffArgs, local: Option<Vec<u8>>, remote: Option<Vec<u8>>) -> (r: Result<DiffOutcome, GitlessError>)
    ensures
        local matches Some(l) ==> (remote is None ==> (args.json && !looks_binary(l@) ==> decodes_plainly(l@, args.keep_bom))),
        remote matches Some(m) ==> (local is None ==> (args.json && !looks_binary(m@) ==> decodes_plainly(m@, args.keep_bom))),
        local matches Some(l) ==> (remote matches Some(m) ==> (!looks_binary(l@) && !looks_binary(m@) ==> decodes_plainly(l@, args.keep_bom) && decodes_plainly(m@, args.keep_bom))),
        !args.json ==> (local matches Some(l) ==> (remote matches Some(m) ==> (!looks_binary(l@) && !looks_binary(m@)
            && normalized(l@, args.keep_bom) == normalized(m@, args.keep_bom) ==> (r matches Ok(o) && o.stdout@.len() == 0
            && o.stderr_message@.len() == 0)))),
        diff_result(*args, bytes_view(local), bytes_view(remote)) matches Ok(v) ==> (r matches Ok(o) && outcome_view(o) == v),
        diff_result(*args, bytes_view(local), bytes_view(remote)) matches Err(m) ==> (r matches Err(GitlessError::Config(t)) && t@ == m),
{
    let (lk, rk) = keys_of(args);
    match (local, remote) {
        (None, None) => {
            let mut m = String::new();
            push_str(&mut m, "path not found locally or remotely: local=");
            push_str(&mut m, lk.as_str());
            push_str(&mut m, " remote=");
            push_str(&mut m, rk.as_str());
            Err(GitlessError::Config(m))
        },
        (Some(l), None) => Ok(if args.json {
            one_sided_json(l.as_slice(), Side::LocalOnly, args.keep_bom)
        } else {
            one_sided(l.as_slice(), "(local only)", args.keep_bom)
        }),
        (None, Some(r)) => Ok(if args.json {
            one_sided_json(r.as_slice(), Side::RemoteOnly, args.keep_bom)
        } else {
            one_sided(r.as_slice(), "(remote only)", args.keep_bom)
        }),
        (Some(l), Some(r)) => Ok(if args.json {
            both_sides_json(l.as_slice(), r.as_slice(), lk.as_str(), rk.as_str(), args.keep_bom)
        } else {
            both_sides(l.as_slice(), r.as_slice(), lk.as_str(), rk.as_str(), args.keep_bom)
        }),
    }
}

/// What `diff` writes for an outcome: the stderr line (the message and a
/// newline) when the message is not empty, then the stdout bytes; an
/// error is passed on unchanged.
pub fn run_with_client(outcome: Result<DiffOutcome, GitlessError>) -> (r: Result<(Option<String>, Vec<u8>), GitlessError>)
    ensures
        outcome matches Err(e) ==> r == Err::<(Option<String>, Vec<u8>), GitlessError>(e),
        outcome matches Ok(o) ==> (r matches Ok(w) && w.1@ == o.stdout@ && (o.stderr_message@.len() == 0
            ==> w.0 is None) && (o.stderr_message@.len() > 0 ==> (w.0 matches Some(line) && line@
            == o.stderr_message@.push('\n')))),
{
    match outcome {
        Err(e) => Err(e),
        Ok(o) => {
            let line = if o.stderr_message.as_str().unicode_len() == 0 {
                None
            } else {
                let mut l = String::new();
                push_str(&mut l, o.stderr_message.as_str());
                push_char(&mut l, '\n');
                Some(l)
            };
            Ok((line, o.stdout))
        },
    }
}

} // verus!
