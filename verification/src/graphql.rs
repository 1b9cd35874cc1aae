//! GraphQL alias batching for the last-commit lookups: query construction
//! and the decoding of one chunk's response.

use vstd::prelude::*;
use vstd::string::StrSliceExecFns;

use crate::error::{map_graphql_error, maps_graphql_error, GitlessError};
use crate::timestamp::{parse_rfc3339, rfc3339_parse, Timestamp};
use crate::text::{chars_of, decimal, push_char, push_chars, push_decimal, push_str, string_of};

verus! {

/// Number of alias entries packed into one `gh api graphql` request.
pub const GRAPHQL_BATCH_SIZE: usize = 200;

/// The escape of one character inside a GraphQL string literal.
pub open spec fn escape_char(c: char) -> Seq<char> {
    if c == '\\' {
        seq!['\\', '\\']
    } else if c == '"' {
        seq!['\\', '"']
    } else if c == '\n' {
        seq!['\\', 'n']
    } else {
        seq![c]
    }
}

/// `s` with backslash, double quote and newline escaped.
pub open spec fn escape(s: Seq<char>) -> Seq<char>
    decreases s.len(),
{
    if s.len() == 0 {
        Seq::empty()
    } else {
        escape(s.drop_last()) + escape_char(s.last())
    }
}

/// Escape `s` for embedding in a GraphQL string literal.
pub fn escape_graphql_string(s: &str) -> (out: String)
    ensures
        out@ == escape(s@),
{
    let cs = chars_of(s);
    let mut out = String::new();
    for i in 0..cs.len()
        invariant
            cs@ == s@,
            out@ == escape(cs@.take(i as int)),
    {
        let c = cs[i];
        let ghost before = out@;
        if c == '\\' {
            push_char(&mut out, '\\');
            push_char(&mut out, '\\');
        } else if c == '"' {
            push_char(&mut out, '\\');
            push_char(&mut out, '"');
        } else if c == '\n' {
            push_char(&mut out, '\\');
            push_char(&mut out, 'n');
        } else {
            push_char(&mut out, c);
        }
        assert(out@ == before + escape_char(c));
        assert(cs@.take(i + 1).drop_last() =~= cs@.take(i as int));
    }
    assert(cs@.take(cs@.len() as int) =~= cs@);
    out
}

/// Text before the per-path alias lines.
pub open spec fn query_head(owner: Seq<char>, name: Seq<char>, branch: Seq<char>) -> Seq<char> {
    "query {\n"@ + "  repository(owner: \""@ + owner + "\", name: \""@ + name + "\") {\n"@
        + "    ref(qualifiedName: \"refs/heads/"@ + branch + "\") {\n"@ + "      target {\n"@
        + "        ... on Commit {\n"@
}

/// Text after the alias lines.
pub open spec fn query_tail() -> Seq<char> {
    "        }\n"@ + "      }\n"@ + "    }\n"@ + "  }\n"@ + "}\n"@
}

/// Alias line `a{i}` asking for the last commit that touched `path`.
pub open spec fn alias_line(i: nat, path: Seq<char>) -> Seq<char> {
    "          a"@ + decimal(i) + ": history(first: 1, path: \""@ + escape(path)
        + "\") { nodes { committedDate } }\n"@
}

/// The alias lines of `paths`, `a0` first.
pub open spec fn alias_block(paths: Seq<Seq<char>>) -> Seq<char>
    decreases paths.len(),
{
    if paths.len() == 0 {
        Seq::empty()
    } else {
        alias_block(paths.drop_last()) + alias_line((paths.len() - 1) as nat, paths.last())
    }
}

/// The query for one chunk of paths.
pub open spec fn query_text(
    owner: Seq<char>,
    name: Seq<char>,
    branch: Seq<char>,
    paths: Seq<Seq<char>>,
) -> Seq<char> {
    query_head(owner, name, branch) + alias_block(paths) + query_tail()
}

/// The characters of each string.
pub open spec fn views(v: Seq<String>) -> Seq<Seq<char>> {
    v.map_values(|s: String| s@)
}

/// Build the alias-batched query for one chunk of paths (alias `a{i}`
/// stands for `paths[i]`).
pub fn build_query(owner: &str, name: &str, branch: &str, paths: &[String]) -> (q: String)
    ensures
        q@ == query_text(owner@, name@, branch@, views(paths@)),
{
    let mut q = String::new();
    push_str(&mut q, "query {\n");
    push_str(&mut q, "  repository(owner: \"");
    push_str(&mut q, owner);
    push_str(&mut q, "\", name: \"");
    push_str(&mut q, name);
    push_str(&mut q, "\") {\n");
    push_str(&mut q, "    ref(qualifiedName: \"refs/heads/");
    push_str(&mut q, branch);
    push_str(&mut q, "\") {\n");
    push_str(&mut q, "      target {\n");
    push_str(&mut q, "        ... on Commit {\n");
    let ghost head = q@;
    assert(head =~= query_head(owner@, name@, branch@));
    let ghost ps = views(paths@);
    for i in 0..paths.len()
        invariant
            ps == views(paths@),
            q@ == head + alias_block(ps.take(i as int)),
    {
        let ghost before = q@;
        let escaped = escape_graphql_string(paths[i].as_str());
        push_str(&mut q, "          a");
        push_decimal(&mut q, i);
        push_str(&mut q, ": history(first: 1, path: \"");
        push_str(&mut q, escaped.as_str());
        push_str(&mut q, "\") { nodes { committedDate } }\n");
        proof {
            assert(q@ =~= before + alias_line(i as nat, ps[i as int]));
            assert(ps.take(i + 1).drop_last() =~= ps.take(i as int));
            assert(ps.take(i + 1).last() == ps[i as int]);
        }
    }
    assert(ps.take(paths.len() as int) =~= ps);
    let ghost body = q@;
    push_str(&mut q, "        }\n");
    push_str(&mut q, "      }\n");
    push_str(&mut q, "    }\n");
    push_str(&mut q, "  }\n");
    push_str(&mut q, "}\n");
    assert(q@ =~= body + query_tail());
    q
}

} // verus!

verus! {

/// `k` is the position of the first `/` in `s`.
pub open spec fn first_slash(s: Seq<char>, k: int) -> bool {
    0 <= k < s.len() && s[k] == '/' && forall|m: int| 0 <= m < k ==> s[m] != '/'
}

/// Text of the error for a repository not in `owner/name` form.
pub open spec fn bad_repo_text(repo: Seq<char>) -> Seq<char> {
    "invalid repo format: "@ + repo + " (expected owner/name)"@
}

/// Split `owner/name` at the first `/`; a repository without `/` is a
/// configuration error.
pub fn split_repo(repo: &str) -> (r: Result<(&str, &str), GitlessError>)
    ensures
        r matches Ok((o, n)) ==> exists|k: int|
            first_slash(repo@, k) && o@ == repo@.take(k) && n@ == repo@.skip(k + 1),
        r is Err ==> (forall|m: int| 0 <= m < repo@.len() ==> repo@[m] != '/'),
        r matches Err(e) ==> (e matches GitlessError::Config(msg) && msg@ == bad_repo_text(repo@)),
{
    let cs = chars_of(repo);
    let mut k: usize = 0;
    while k < cs.len() && cs[k] != '/'
        invariant
            cs@ == repo@,
            k <= cs@.len(),
            forall|m: int| 0 <= m < k ==> cs@[m] != '/',
        decreases cs.len() - k,
    {
        k += 1;
    }
    if k == cs.len() {
        let mut msg = String::new();
        push_str(&mut msg, "invalid repo format: ");
        push_str(&mut msg, repo);
        push_str(&mut msg, " (expected owner/name)");
        return Err(GitlessError::Config(msg));
    }
    let owner = repo.substring_char(0, k);
    let name = repo.substring_char(k + 1, cs.len());
    assert(first_slash(repo@, k as int));
    assert(repo@.subrange(0, k as int) =~= repo@.take(k as int));
    assert(repo@.subrange(k + 1, cs@.len() as int) =~= repo@.skip(k + 1));
    Ok((owner, name))
}

} // verus!

verus! {

/// One entry of a GraphQL `errors[]` array: `extensions.code` (empty when
/// absent) and `message`.
#[derive(Debug, Clone)]
pub struct GraphqlErrorEntry {
    pub code: String,
    pub message: String,
}

/// One alias of `data.repository.ref.target`: its name and the
/// `committedDate` of each history node, in order.
#[derive(Debug, Clone)]
pub struct AliasHistory {
    pub alias: String,
    pub committed_dates: Vec<String>,
}

/// A decoded GraphQL response for one chunk.
#[derive(Debug, Clone)]
pub struct GraphqlChunkResponse {
    pub errors: Vec<GraphqlErrorEntry>,
    /// `None` when any of `data`, `repository`, `ref`, `target` is null or
    /// missing.
    pub target: Option<Vec<AliasHistory>>,
}

/// Alias name `a{i}`.
pub open spec fn alias_name(i: nat) -> Seq<char> {
    "a"@ + decimal(i)
}

/// `k` is the first entry of `t` named `a`.
pub open spec fn first_alias(t: Seq<AliasHistory>, a: Seq<char>, k: int) -> bool {
    0 <= k < t.len() && t[k].alias@ == a && forall|m: int| 0 <= m < k ==> t[m].alias@ != a
}

/// Some entry of `t` is named `a`.
pub open spec fn has_alias(t: Seq<AliasHistory>, a: Seq<char>) -> bool {
    exists|k: int| 0 <= k < t.len() && t[k].alias@ == a
}

/// The first entry named `a`.
pub open spec fn alias_entry(t: Seq<AliasHistory>, a: Seq<char>) -> AliasHistory {
    t[choose|k: int| first_alias(t, a, k)]
}

/// Alias `a{i}` resolves to a first node whose date `chrono` accepts.
pub open spec fn alias_good(t: Seq<AliasHistory>, i: int) -> bool {
    let i = i as nat;
    &&& has_alias(t, alias_name(i))
    &&& alias_entry(t, alias_name(i)).committed_dates@.len() > 0
    &&& rfc3339_parse(alias_entry(t, alias_name(i)).committed_dates@[0]@) is Ok
}

/// The instant alias `a{i}` resolves to (meaningful when [`alias_good`]).
pub open spec fn alias_instant(t: Seq<AliasHistory>, i: int) -> Timestamp {
    let i = i as nat;
    rfc3339_parse(alias_entry(t, alias_name(i)).committed_dates@[0]@)->Ok_0
}

/// Error text for the first alias `a{i}` (of `path`) that does not resolve:
/// a missing alias, an empty history, or a date `chrono` refuses.
pub open spec fn alias_fault_text(t: Seq<AliasHistory>, i: int, path: Seq<char>) -> Seq<char> {
    let i = i as nat;
    if !has_alias(t, alias_name(i)) {
        "graphql: missing alias "@ + alias_name(i) + " for path "@ + path
    } else if alias_entry(t, alias_name(i)).committed_dates@.len() == 0 {
        "no commits found for path: "@ + path
    } else {
        "parse graphql commit date: "@ + rfc3339_parse(
            alias_entry(t, alias_name(i)).committed_dates@[0]@,
        )->Err_0
    }
}

/// Text of the error for a response without `data.repository.ref.target`.
pub open spec fn missing_target_text(branch: Seq<char>) -> Seq<char> {
    "graphql: ref refs/heads/"@ + branch + " target missing in response"@
}

/// `v` pairs each path of the chunk with the instant of its alias.
pub open spec fn resolved_all(t: Seq<AliasHistory>, chunk: Seq<String>, v: Seq<(String, Timestamp)>) -> bool {
    &&& v.len() == chunk.len()
    &&& forall|i: int| 0 <= i < v.len() ==> #[trigger] v[i].0@ == chunk[i]@ && v[i].1 == alias_instant(t, i)
}

fn find_alias(t: &Vec<AliasHistory>, a: &Vec<char>) -> (r: Option<usize>)
    ensures
        r matches Some(k) ==> first_alias(t@, a@, k as int),
        r is None ==> !has_alias(t@, a@),
{
    for k in 0..t.len()
        invariant
            forall|m: int| 0 <= m < k ==> t@[m].alias@ != a@,
    {
        if crate::text::chars_eq(&chars_of(t[k].alias.as_str()), a) {
            return Some(k);
        }
    }
    None
}

/// Decode one chunk's response: a non-empty `errors[]` maps its first entry
/// (see [`maps_graphql_error`]); a missing target is an `Http` error naming
/// the branch; otherwise alias `a{i}` must resolve for each `chunk[i]` in
/// turn, and the first that does not gives an `Http` error (see
/// [`alias_fault_text`]). On success each path is paired with the instant of
/// the first node of its alias.
pub fn parse_chunk(resp: &GraphqlChunkResponse, chunk: &[String], branch: &str) -> (r: Result<
    Vec<(String, Timestamp)>,
    GitlessError,
>)
    ensures
        resp.errors@.len() > 0 ==> (r matches Err(e) && maps_graphql_error(
            resp.errors@[0].code@,
            resp.errors@[0].message@,
            e,
        )),
        resp.errors@.len() == 0 && resp.target is None ==> (r matches Err(GitlessError::Http(m))
            && m@ == missing_target_text(branch@)),
        resp.errors@.len() == 0 ==> (resp.target matches Some(t) ==> ((forall|i: int|
            0 <= i < chunk@.len() ==> alias_good(t@, i)) ==> (r matches Ok(v) && resolved_all(
            t@,
            chunk@,
            v@,
        )))),
        resp.errors@.len() == 0 ==> (resp.target matches Some(t) ==> (forall|k: int|
            0 <= k < chunk@.len() && !alias_good(t@, k) && (forall|i: int|
                0 <= i < k ==> alias_good(t@, i)) ==> (r matches Err(GitlessError::Http(m))
                && m@ == alias_fault_text(t@, k, chunk@[k]@)))),
{
    if resp.errors.len() > 0 {
        return Err(map_graphql_error(resp.errors[0].code.as_str(), resp.errors[0].message.as_str()));
    }
    let t = match &resp.target {
        Some(t) => t,
        None => {
            let mut m = String::new();
            push_str(&mut m, "graphql: ref refs/heads/");
            push_str(&mut m, branch);
            push_str(&mut m, " target missing in response");
            return Err(GitlessError::Http(m));
        },
    };
    let mut out: Vec<(String, Timestamp)> = Vec::new();
    let mut i: usize = 0;
    while i < chunk.len()
        invariant
            0 <= i <= chunk@.len(),
            resp.target == Some(*t),
            resp.errors@.len() == 0,
            out@.len() == i,
            forall|j: int| 0 <= j < i ==> alias_good(t@, j),
            forall|j: int|
                0 <= j < i ==> #[trigger] out@[j].0@ == chunk@[j]@ && out@[j].1 == alias_instant(t@, j),
        decreases chunk@.len() - i,
    {
        let mut a = String::new();
        push_char(&mut a, 'a');
        push_decimal(&mut a, i);
        proof {
            reveal_strlit("a");
        }
        assert(a@ =~= alias_name(i as nat));
        let av = chars_of(a.as_str());
        match find_alias(t, &av) {
            None => {
                let mut m = String::new();
                push_str(&mut m, "graphql: missing alias ");
                push_str(&mut m, a.as_str());
                push_str(&mut m, " for path ");
                push_str(&mut m, chunk[i].as_str());
                assert(!alias_good(t@, i as int));
                assert(!alias_good(resp.target->Some_0@, i as int));
                return Err(GitlessError::Http(m));
            },
            Some(k) => {
                proof {
                    assert(first_alias(t@, alias_name(i as nat), choose|k2: int|
                        first_alias(t@, alias_name(i as nat), k2)));
                    let k2 = choose|k2: int| first_alias(t@, alias_name(i as nat), k2);
                    if k2 < k {
                    } else if k < k2 {
                    }
                    assert(k2 == k);
                    assert(has_alias(t@, alias_name(i as nat)));
                    assert(alias_entry(t@, alias_name(i as nat)) == t@[k as int]);
                }
                let entry = &t[k];
                if entry.committed_dates.len() == 0 {
                    let mut m = String::new();
                    assert(!alias_good(t@, i as int));
                    push_str(&mut m, "no commits found for path: ");
                    push_str(&mut m, chunk[i].as_str());
                    return Err(GitlessError::Http(m));
                }
                match parse_rfc3339(entry.committed_dates[0].as_str()) {
                    Ok(ts) => {
                        assert(alias_good(t@, i as int));
                        assert(ts == alias_instant(t@, i as int));
                        let p = chunk[i].clone();
                        let ghost before = out@;
                        out.push((p, ts));
                        assert(forall|j: int| 0 <= j < i ==> out@[j] == before[j]);
                        assert(out@[i as int].0@ == chunk@[i as int]@);
                        assert(out@[i as int].1 == alias_instant(t@, i as int));
                        i += 1;
                    },
                    Err(e) => {
                        assert(!alias_good(t@, i as int));
                        let mut m = String::new();
                        push_str(&mut m, "parse graphql commit date: ");
                        push_str(&mut m, e.as_str());
                        return Err(GitlessError::Http(m));
                    },
                }
            },
        }
    }
    assert(resolved_all(t@, chunk@, out@));
    Ok(out)
}

} // verus!

verus! {

/// One `gh api graphql` request: the paths `start..end` and their query.
#[derive(Debug, Clone)]
pub struct QueryBatch {
    pub start: usize,
    pub end: usize,
    pub query: String,
}

/// Number of requests for `n` paths: `n` divided by the batch size, rounded
/// up (none for no path).
pub open spec fn batch_count(n: nat) -> nat {
    ((n + GRAPHQL_BATCH_SIZE - 1) / (GRAPHQL_BATCH_SIZE as int)) as nat
}

/// The requests of an alias-batched last-commit lookup of `paths`:
/// consecutive chunks of [`GRAPHQL_BATCH_SIZE`] paths (the last one possibly
/// shorter), each with its alias-batched query.
pub fn batch_plan(owner: &str, name: &str, branch: &str, paths: &[String]) -> (v: Vec<QueryBatch>)
    ensures
        v@.len() == batch_count(paths@.len()),
        forall|k: int|
            0 <= k < v@.len() ==> {
                let b = #[trigger] v@[k];
                &&& b.start == k * GRAPHQL_BATCH_SIZE
                &&& b.end == if (k + 1) * GRAPHQL_BATCH_SIZE <= paths@.len() {
                    (k + 1) * GRAPHQL_BATCH_SIZE
                } else {
                    paths@.len() as int
                }
                &&& b.query@ == query_text(
                    owner@,
                    name@,
                    branch@,
                    views(paths@.subrange(b.start as int, b.end as int)),
                )
            },
{
    let n = paths.len();
    let mut v: Vec<QueryBatch> = Vec::new();
    let mut start: usize = 0;
    while start < n
        invariant
            n == paths@.len(),
            start <= n,
            start < n ==> start == v@.len() * GRAPHQL_BATCH_SIZE,
            start < n ==> v@.len() < batch_count(n as nat),
            start == n ==> v@.len() == batch_count(n as nat),
            forall|k: int|
                0 <= k < v@.len() ==> {
                    let b = #[trigger] v@[k];
                    &&& b.start == k * GRAPHQL_BATCH_SIZE
                    &&& b.end == if (k + 1) * GRAPHQL_BATCH_SIZE <= n {
                        (k + 1) * GRAPHQL_BATCH_SIZE
                    } else {
                        n as int
                    }
                    &&& b.query@ == query_text(
                        owner@,
                        name@,
                        branch@,
                        views(paths@.subrange(b.start as int, b.end as int)),
                    )
                },
        decreases n - start,
    {
        let end = if n - start >= GRAPHQL_BATCH_SIZE {
            start + GRAPHQL_BATCH_SIZE
        } else {
            n
        };
        let query = build_query(owner, name, branch, &paths[start..end]);
        let ghost c = v@.len();
        v.push(QueryBatch { start, end, query });
        proof {
            lemma_batch_step(n as nat, c as nat, end as nat);
        }
        start = end;
    }
    v
}

proof fn lemma_batch_step(n: nat, c: nat, end: nat)
    requires
        c * GRAPHQL_BATCH_SIZE < n,
        end == if n - c * GRAPHQL_BATCH_SIZE >= GRAPHQL_BATCH_SIZE {
            c * GRAPHQL_BATCH_SIZE + GRAPHQL_BATCH_SIZE
        } else {
            n as int
        },
    ensures
        end <= n,
        end < n ==> end == (c + 1) * GRAPHQL_BATCH_SIZE && c + 1 < batch_count(n),
        end == n ==> c + 1 == batch_count(n),
        end == if (c + 1) * GRAPHQL_BATCH_SIZE <= n {
            (c + 1) * GRAPHQL_BATCH_SIZE
        } else {
            n as int
        },
{
    assert((c + 1) * GRAPHQL_BATCH_SIZE == c * GRAPHQL_BATCH_SIZE + GRAPHQL_BATCH_SIZE) by (nonlinear_arith);
    if end < n {
        assert(((n + GRAPHQL_BATCH_SIZE - 1) / (GRAPHQL_BATCH_SIZE as int)) > c + 1) by (nonlinear_arith)
            requires
                (c + 1) * 200 < n,
        ;
    } else {
        assert(((n + GRAPHQL_BATCH_SIZE - 1) / (GRAPHQL_BATCH_SIZE as int)) == c + 1) by (nonlinear_arith)
            requires
                c * 200 < n,
                n <= (c + 1) * 200,
        ;
    }
}

/// The GraphQL requests of a last-commit lookup: none for no path (the
/// repository is not even looked at); otherwise `repo` must be
/// `owner/name` (see [`split_repo`]) and the requests are the
/// [`batch_plan`] of the paths: the `j`-th covers the paths
/// `j * GRAPHQL_BATCH_SIZE` up to the next multiple (or the end).
pub fn commit_batches(repo: &str, branch: &str, paths: &[String]) -> (r: Result<Vec<QueryBatch>, GitlessError>)
    ensures
        paths@.len() == 0 ==> (r matches Ok(v) && v@.len() == 0),
        paths@.len() > 0 ==> ((exists|k: int| first_slash(repo@, k)) <==> r is Ok),
        paths@.len() > 0 && !(exists|k: int| first_slash(repo@, k)) ==> (r matches Err(GitlessError::Config(m)) && m@ == bad_repo_text(repo@)),
        paths@.len() > 0 ==> (r matches Ok(v) ==> ({
            let k = choose|k: int| first_slash(repo@, k);
            &&& v@.len() == batch_count(paths@.len())
            &&& forall|j: int|
                0 <= j < v@.len() ==> {
                    &&& (#[trigger] v@[j]).start == j * GRAPHQL_BATCH_SIZE
                    &&& v@[j].end == if (j + 1) * GRAPHQL_BATCH_SIZE <= paths@.len() {
                        (j + 1) * GRAPHQL_BATCH_SIZE
                    } else {
                        paths@.len() as int
                    }
                }
            &&& forall|j: int|
                0 <= j < v@.len() ==> (#[trigger] v@[j]).query@ == query_text(
                    repo@.take(k),
                    repo@.skip(k + 1),
                    branch@,
                    views(paths@.subrange(v@[j].start as int, v@[j].end as int)),
                )
        })),
{
    if paths.len() == 0 {
        return Ok(Vec::new());
    }
    let (owner, name) = split_repo(repo)?;
    let v = batch_plan(owner, name, branch, paths);
    proof {
        let k0 = choose|k: int| first_slash(repo@, k) && owner@ == repo@.take(k) && name@ == repo@.skip(k + 1);
        let k = choose|k: int| first_slash(repo@, k);
        assert(k == k0) by {
            if k < k0 {
                assert(repo@[k] != '/');
            } else if k > k0 {
                assert(repo@[k0] != '/');
            }
        }
    }
    Ok(v)
}

} // verus!

