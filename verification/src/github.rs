//! The `gh api` calls the commands make: their argument vectors and the
//! interpretation of what comes back.

use vstd::prelude::*;
use vstd::string::StringSliceAdditionalSpecFns;

use base64::Engine;

use crate::error::{map_gh_error, maps_gh_error, GitlessError};
use crate::size_gate::RemoteFile;
use crate::text::{chars_of, push_char, push_str, str_is, string_of};
use crate::timestamp::{parse_rfc3339, rfc3339_parse, Timestamp};

verus! {

/// What one `gh` subprocess returned.
#[derive(Debug, Clone)]
pub struct GhResponse {
    pub stdout: Vec<u8>,
    pub stderr: String,
    pub exit_code: i32,
}

/// `e` is what a failed `gh` call (non-zero exit) maps to.
pub open spec fn gh_failure(resp: GhResponse, e: GitlessError) -> bool {
    maps_gh_error(resp.stderr@, e)
}

/// `Ok` when `gh` exited with 0, else the error its stderr maps to.
pub fn check_gh_response(resp: &GhResponse) -> (r: Result<(), GitlessError>)
    ensures
        resp.exit_code == 0 ==> r is Ok,
        resp.exit_code != 0 ==> (r matches Err(e) && gh_failure(*resp, e)),
{
    if resp.exit_code != 0 {
        Err(map_gh_error(resp.stderr.as_str()))
    } else {
        Ok(())
    }
}

/// The strings of `v`.
pub open spec fn arg_views(v: Seq<String>) -> Seq<Seq<char>> {
    v.map_values(|s: String| s@)
}

/// Trees API call for the recursive tree of `branch`.
pub open spec fn tree_argv(repo: Seq<char>, branch: Seq<char>) -> Seq<Seq<char>> {
    seq!["api"@, "repos/"@ + repo + "/git/trees/"@ + branch + "?recursive=1"@]
}

/// Blobs API call for the blob `sha`.
pub open spec fn blob_argv(repo: Seq<char>, sha: Seq<char>) -> Seq<Seq<char>> {
    seq!["api"@, "repos/"@ + repo + "/git/blobs/"@ + sha]
}

/// Commits API call for the last commit touching `path` on `branch`.
pub open spec fn commits_argv(repo: Seq<char>, branch: Seq<char>, path: Seq<char>) -> Seq<Seq<char>> {
    seq![
        "api"@,
        "repos/"@ + repo + "/commits"@,
        "-F"@,
        "sha="@ + branch,
        "-F"@,
        "path="@ + path,
        "-F"@,
        "per_page=1"@,
    ]
}

/// GraphQL call carrying `query`.
pub open spec fn graphql_argv(query: Seq<char>) -> Seq<Seq<char>> {
    seq!["api"@, "graphql"@, "-f"@, "query="@ + query]
}

fn cat2(a: &str, b: &str) -> (s: String)
    ensures
        s@ == a@ + b@,
{
    let mut s = String::new();
    push_str(&mut s, a);
    push_str(&mut s, b);
    s
}

/// Arguments of `gh` for the Trees API call.
pub fn tree_args(repo: &str, branch: &str) -> (v: Vec<String>)
    ensures
        arg_views(v@) == tree_argv(repo@, branch@),
{
    let mut p = String::new();
    push_str(&mut p, "repos/");
    push_str(&mut p, repo);
    push_str(&mut p, "/git/trees/");
    push_str(&mut p, branch);
    push_str(&mut p, "?recursive=1");
    let v = vec!["api".to_owned(), p];
    assert(arg_views(v@) =~= tree_argv(repo@, branch@));
    v
}

/// Arguments of `gh` for the Blobs API call.
pub fn blob_args(repo: &str, sha: &str) -> (v: Vec<String>)
    ensures
        arg_views(v@) == blob_argv(repo@, sha@),
{
    let mut p = String::new();
    push_str(&mut p, "repos/");
    push_str(&mut p, repo);
    push_str(&mut p, "/git/blobs/");
    push_str(&mut p, sha);
    let v = vec!["api".to_owned(), p];
    assert(arg_views(v@) =~= blob_argv(repo@, sha@));
    v
}

/// Arguments of `gh` for the Commits API call.
pub fn commits_args(repo: &str, branch: &str, path: &str) -> (v: Vec<String>)
    ensures
        arg_views(v@) == commits_argv(repo@, branch@, path@),
{
    let mut p = String::new();
    push_str(&mut p, "repos/");
    push_str(&mut p, repo);
    push_str(&mut p, "/commits");
    let v = vec![
        "api".to_owned(),
        p,
        "-F".to_owned(),
        cat2("sha=", branch),
        "-F".to_owned(),
        cat2("path=", path),
        "-F".to_owned(),
        "per_page=1".to_owned(),
    ];
    assert(arg_views(v@) =~= commits_argv(repo@, branch@, path@));
    v
}

/// Arguments of `gh` for a GraphQL request.
pub fn graphql_args(query: &str) -> (v: Vec<String>)
    ensures
        arg_views(v@) == graphql_argv(query@),
{
    let v = vec!["api".to_owned(), "graphql".to_owned(), "-f".to_owned(), cat2("query=", query)];
    assert(arg_views(v@) =~= graphql_argv(query@));
    v
}

/// One entry of a Trees API response.
#[derive(Debug, Clone)]
pub struct TreeEntry {
    pub path: String,
    pub mode: String,
    pub entry_type: String,
    pub sha: String,
    pub size: Option<u64>,
}

/// A decoded Trees API response.
#[derive(Debug, Clone)]
pub struct TreeListing {
    pub tree: Vec<TreeEntry>,
    pub truncated: bool,
}

/// A regular-file blob: type `blob` with mode `100644`.
pub open spec fn is_regular_blob(e: TreeEntry) -> bool {
    e.entry_type@ == "blob"@ && e.mode@ == "100644"@
}

/// `f` carries the fields of `e`.
pub open spec fn remote_of(e: TreeEntry, f: RemoteFile) -> bool {
    f.path@ == e.path@ && f.sha@ == e.sha@ && f.mode@ == e.mode@ && f.size == e.size
}

/// `files` are, in order, the regular-file blobs among `entries`.
pub open spec fn selects_blobs(entries: Seq<TreeEntry>, files: Seq<RemoteFile>) -> bool
    decreases entries.len(),
{
    if entries.len() == 0 {
        files.len() == 0
    } else if is_regular_blob(entries.last()) {
        files.len() > 0 && remote_of(entries.last(), files.last()) && selects_blobs(
            entries.drop_last(),
            files.drop_last(),
        )
    } else {
        selects_blobs(entries.drop_last(), files)
    }
}

/// Files of a Trees response: a truncated listing is refused; otherwise the
/// regular-file blobs, in order (submodules, trees, symlinks and executables
/// are skipped).
pub fn tree_files(listing: &TreeListing) -> (r: Result<Vec<RemoteFile>, GitlessError>)
    ensures
        listing.truncated ==> r == Err::<Vec<RemoteFile>, GitlessError>(GitlessError::TreesTruncated),
        !listing.truncated ==> (r matches Ok(files) && selects_blobs(listing.tree@, files@)),
{
    if listing.truncated {
        return Err(GitlessError::TreesTruncated);
    }
    let mut files: Vec<RemoteFile> = Vec::new();
    for i in 0..listing.tree.len()
        invariant
            selects_blobs(listing.tree@.take(i as int), files@),
    {
        let e = &listing.tree[i];
        let ghost before = files@;
        proof {
            assert(listing.tree@.take(i + 1).drop_last() =~= listing.tree@.take(i as int));
            assert(listing.tree@.take(i + 1).last() == *e);
        }
        if str_is(e.entry_type.as_str(), "blob") && str_is(e.mode.as_str(), "100644") {
            files.push(
                RemoteFile {
                    path: e.path.clone(),
                    sha: e.sha.clone(),
                    mode: e.mode.clone(),
                    size: e.size,
                },
            );
            assert(files@.drop_last() =~= before);
        }
    }
    assert(listing.tree@.take(listing.tree@.len() as int) =~= listing.tree@);
    Ok(files)
}

} // verus!

verus! {

/// The Unicode `White_Space` property: U+0009..U+000D, U+0020, U+0085,
/// U+00A0, U+1680, U+2000..U+200A, U+2028, U+2029, U+202F, U+205F and
/// U+3000.
pub open spec fn unicode_whitespace(c: char) -> bool {
    let u = c as u32;
    ||| 0x9 <= u <= 0xD
    ||| u == 0x20
    ||| u == 0x85
    ||| u == 0xA0
    ||| u == 0x1680
    ||| 0x2000 <= u <= 0x200A
    ||| u == 0x2028
    ||| u == 0x2029
    ||| u == 0x202F
    ||| u == 0x205F
    ||| u == 0x3000
}

/// Whether `c` has the Unicode `White_Space` property (what
/// `char::is_whitespace` tells).
pub(crate) fn is_whitespace(c: char) -> (r: bool)
    ensures
        r == unicode_whitespace(c),
{
    let u = c as u32;
    (0x9 <= u && u <= 0xD) || u == 0x20 || u == 0x85 || u == 0xA0 || u == 0x1680 || (0x2000 <= u && u
        <= 0x200A) || u == 0x2028 || u == 0x2029 || u == 0x202F || u == 0x205F || u == 0x3000
}

/// What the `base64` crate's standard engine decodes from `input`: the bytes,
/// or the text of its `DecodeError`.
pub uninterp spec fn base64_standard_decode(input: Seq<u8>) -> Result<Seq<u8>, Seq<char>>;

/// `base64::engine::general_purpose::STANDARD.decode`: the contract only
/// says that the outcome (bytes, or the error's text) is the crate's
/// decoding of `input`, not what that decoding is.
#[verifier::external_body]
pub(crate) fn base64_decode(input: &[u8]) -> (r: Result<Vec<u8>, String>)
    ensures
        r is Ok <==> base64_standard_decode(input@) is Ok,
        r matches Ok(b) ==> base64_standard_decode(input@)->Ok_0 == b@,
        r matches Err(e) ==> base64_standard_decode(input@)->Err_0 == e@,
{
    base64::engine::general_purpose::STANDARD.decode(input).map_err(|e| e.to_string())
}

/// `s` without its whitespace characters.
pub open spec fn strip_whitespace(s: Seq<char>) -> Seq<char> {
    s.filter(|c: char| !unicode_whitespace(c))
}

/// Remove every whitespace character (the API line-wraps base64 content).
pub fn without_whitespace(s: &str) -> (out: String)
    ensures
        out@ == strip_whitespace(s@),
{
    let cs = chars_of(s);
    let mut out = String::new();
    for i in 0..cs.len()
        invariant
            cs@ == s@,
            out@ == strip_whitespace(cs@.take(i as int)),
    {
        proof {
            reveal_with_fuel(Seq::<_>::filter, 1);
            assert(cs@.take(i + 1).drop_last() =~= cs@.take(i as int));
        }
        if !is_whitespace(cs[i]) {
            push_char(&mut out, cs[i]);
        }
    }
    assert(cs@.take(cs@.len() as int) =~= cs@);
    out
}

/// Map the base64 decoder's outcome: the bytes, or an `Http` error naming
/// the decoder's message.
pub fn blob_from_decoded(decoded: Result<Vec<u8>, String>) -> (r: Result<Vec<u8>, GitlessError>)
    ensures
        decoded matches Ok(b) ==> (r matches Ok(b2) && b2@ == b@),
        decoded matches Err(e) ==> (r matches Err(GitlessError::Http(m)) && m@
            == "decode blob base64: "@ + e@),
{
    match decoded {
        Ok(b) => Ok(b),
        Err(e) => {
            let mut m = String::new();
            push_str(&mut m, "decode blob base64: ");
            push_str(&mut m, e.as_str());
            Err(GitlessError::Http(m))
        },
    }
}

/// Bytes of a Blobs API response: only `base64` encoding is accepted; the
/// content is decoded after its whitespace is removed.
pub fn blob_bytes(encoding: &str, content: &str) -> (r: Result<Vec<u8>, GitlessError>)
    ensures
        encoding@ != "base64"@ ==> (r matches Err(GitlessError::Http(m)) && m@
            == "unexpected blob encoding: "@ + encoding@),
        encoding@ == "base64"@ ==> ({
            let d = base64_standard_decode(vstd::utf8::encode_utf8(strip_whitespace(content@)));
            &&& d is Ok ==> (r matches Ok(b) && b@ == d->Ok_0)
            &&& d is Err ==> (r matches Err(GitlessError::Http(m)) && m@ == "decode blob base64: "@
                + d->Err_0)
        }),
{
    if !str_is(encoding, "base64") {
        let mut m = String::new();
        push_str(&mut m, "unexpected blob encoding: ");
        push_str(&mut m, encoding);
        return Err(GitlessError::Http(m));
    }
    let stripped = without_whitespace(content);
    blob_from_decoded(base64_decode(stripped.as_str().as_bytes()))
}

/// Instant of the newest commit from a Commits API response (the
/// `commit.committer.date` of each item, in order): none is an `Http`
/// error, as is a first date `chrono` refuses.
pub fn first_commit_date(dates: &Vec<String>, path: &str) -> (r: Result<Timestamp, GitlessError>)
    ensures
        dates@.len() == 0 ==> (r matches Err(GitlessError::Http(m)) && m@
            == "no commits found for path: "@ + path@),
        dates@.len() > 0 ==> ({
            let p = rfc3339_parse(dates@[0]@);
            &&& p is Ok ==> r == Ok::<Timestamp, GitlessError>(p->Ok_0)
            &&& p is Err ==> (r matches Err(GitlessError::Http(m)) && m@ == "parse commit date: "@
                + p->Err_0)
        }),
{
    if dates.len() == 0 {
        let mut m = String::new();
        push_str(&mut m, "no commits found for path: ");
        push_str(&mut m, path);
        return Err(GitlessError::Http(m));
    }
    match parse_rfc3339(dates[0].as_str()) {
        Ok(t) => Ok(t),
        Err(e) => {
            let mut m = String::new();
            push_str(&mut m, "parse commit date: ");
            push_str(&mut m, e.as_str());
            Err(GitlessError::Http(m))
        },
    }
}

/// Position of the first remote file whose path is `key`.
pub fn find_remote(files: &Vec<RemoteFile>, key: &str) -> (r: Option<usize>)
    ensures
        r matches Some(i) ==> i < files@.len() && files@[i as int].path@ == key@ && forall|j: int|
            0 <= j < i ==> files@[j].path@ != key@,
        r is None ==> forall|j: int| 0 <= j < files@.len() ==> files@[j].path@ != key@,
{
    let k = chars_of(key);
    for i in 0..files.len()
        invariant
            k@ == key@,
            forall|j: int| 0 <= j < i ==> files@[j].path@ != key@,
    {
        if crate::text::chars_eq(&chars_of(files[i].path.as_str()), &k) {
            return Some(i);
        }
    }
    None
}

} // verus!
