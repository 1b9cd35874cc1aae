//! Properties of the library as a whole, stated over the specifications
//! the functions' contracts use, and proved.

use vstd::prelude::*;

use crate::compare::{spec_classify, spec_compare, FileEntry, Presence, Status};
use crate::diff::{diff_result, DiffArgs};
use crate::error::{spec_exit_code, GitlessError};
use crate::gitattributes::{class_of, first_unlisted, whitelisted, AttributeMatch};
use crate::github::{blob_argv, commits_argv, graphql_argv, tree_argv};
use crate::graphql::{alias_block, alias_line, escape, escape_char, query_head, query_tail, query_text};
use crate::pipeline::{count_status, finalized, summarizes, PreEntry, PreState, Summary};
use crate::report::{failed_rows, is_failed};
use crate::timestamp::Timestamp;
use crate::args::{filtered, selected_by, status_selector};
use crate::collisions::case_selector;
use crate::normalize::crlf_to_lf;
use crate::size_gate::spec_size_gate;
use crate::text::{contains_seq, decimal, has_string, occurs_at};

verus! {

/// A path held on both sides is identical exactly when its diff is not
/// meaningful, whatever the timestamps.
pub proof fn law_identical_iff_diff_not_meaningful(
    local_sha: Seq<char>,
    remote_sha: Seq<char>,
    local_mtime: Option<Timestamp>,
    remote_last_commit_at: Option<Timestamp>,
    normalize_equal: Option<bool>,
)
    ensures
        (spec_classify(Some(local_sha), Some(remote_sha), local_mtime, remote_last_commit_at, normalize_equal)
            == Status::Identical) <==> (spec_compare(Some(local_sha), Some(remote_sha), normalize_equal).1
            == Some(false)),
{
}

/// Equal SHAs make a path identical, whatever the timestamps and the
/// normalize hint.
pub proof fn law_identical_ignores_timestamps(
    sha: Seq<char>,
    local_mtime: Option<Timestamp>,
    remote_last_commit_at: Option<Timestamp>,
    normalize_equal: Option<bool>,
)
    ensures
        spec_classify(Some(sha), Some(sha), local_mtime, remote_last_commit_at, normalize_equal)
            == Status::Identical,
        spec_compare(Some(sha), Some(sha), normalize_equal) == (Presence::Both, Some(false)),
{
}

/// A path held on one side only is changed on that side, and its presence
/// names that side, whatever the timestamps.
pub proof fn law_one_sided_status_matches_presence(
    sha: Seq<char>,
    local_mtime: Option<Timestamp>,
    remote_last_commit_at: Option<Timestamp>,
    normalize_equal: Option<bool>,
)
    ensures
        spec_classify(Some(sha), None, local_mtime, remote_last_commit_at, normalize_equal)
            == Status::LocalOnlyChanged,
        spec_compare(Some(sha), None, normalize_equal) == (Presence::LocalOnly, None::<bool>),
        spec_classify(None, Some(sha), local_mtime, remote_last_commit_at, normalize_equal)
            == Status::RemoteOnlyChanged,
        spec_compare(None, Some(sha), normalize_equal) == (Presence::RemoteOnly, None::<bool>),
{
}

/// The five counts of a summary add up to the number of entries.
pub proof fn law_summary_counts_add_up(sum: Summary, entries: Seq<FileEntry>)
    requires
        summarizes(sum, entries),
    ensures
        sum.identical + sum.local_only_changed + sum.remote_only_changed + sum.drift + sum.failed
            == entries.len(),
    decreases entries.len(),
{
    lemma_counts_add_up(entries);
}

/// The per-status counts of a sequence of entries add up to its length.
proof fn lemma_counts_add_up(es: Seq<FileEntry>)
    ensures
        count_status(es, Status::Identical) + count_status(es, Status::LocalOnlyChanged) + count_status(
            es,
            Status::RemoteOnlyChanged,
        ) + count_status(es, Status::Drift) + count_status(es, Status::Failed) == es.len(),
    decreases es.len(),
{
    if es.len() > 0 {
        lemma_counts_add_up(es.drop_last());
    }
}

/// The `--summary-only` report lists one row per failed entry: as many rows
/// as the summary counts failures.
pub proof fn law_summary_rows_match_failed_count(sum: Summary, entries: Seq<FileEntry>)
    requires
        summarizes(sum, entries),
    ensures
        failed_rows(entries).len() == sum.failed,
    decreases entries.len(),
{
    lemma_failed_filter_len(entries);
}

/// The failed entries of `es` are as many as its failed count.
proof fn lemma_failed_filter_len(es: Seq<FileEntry>)
    ensures
        es.filter(is_failed()).len() == count_status(es, Status::Failed),
    decreases es.len(),
{
    reveal_with_fuel(Seq::<_>::filter, 1);
    if es.len() > 0 {
        lemma_failed_filter_len(es.drop_last());
    }
}

/// An escaped GraphQL string holds no raw newline, and every double quote
/// in it comes right after a backslash.
pub proof fn law_escape_is_literal_safe(s: Seq<char>)
    ensures
        forall|i: int| 0 <= i < escape(s).len() ==> escape(s)[i] != '\n',
        forall|i: int| 0 <= i < escape(s).len() && #[trigger] escape(s)[i] == '"' ==> i > 0 && escape(s)[i - 1] == '\\',
    decreases s.len(),
{
    if s.len() > 0 {
        law_escape_is_literal_safe(s.drop_last());
        let a = escape(s.drop_last());
        let b = escape_char(s.last());
        assert(escape(s) == a + b);
        assert forall|i: int| 0 <= i < escape(s).len() implies escape(s)[i] != '\n' by {
            if i >= a.len() {
                assert(escape(s)[i] == b[i - a.len()]);
            } else {
                assert(escape(s)[i] == a[i]);
            }
        }
        assert forall|i: int| 0 <= i < escape(s).len() && #[trigger] escape(s)[i] == '"' implies i > 0 && escape(s)[i
            - 1] == '\\' by {
            if i >= a.len() {
                assert(escape(s)[i] == b[i - a.len()]);
                if i - a.len() == 1 {
                    assert(escape(s)[i - 1] == b[0]);
                }
            } else {
                assert(escape(s)[i] == a[i]);
                assert(escape(s)[i - 1] == a[i - 1]);
            }
        }
    }
}

/// With `--json`, `diff` writes nothing to stderr, whatever the sides hold.
pub proof fn law_diff_json_is_silent_on_stderr(args: DiffArgs, local: Option<Seq<u8>>, remote: Option<Seq<u8>>)
    requires
        args.json,
    ensures
        diff_result(args, local, remote) matches Ok(v) ==> v.1.len() == 0,
{
}

/// A written report with failed entries ends the run with exit code 4.
pub proof fn law_partial_failure_exit_code(failed_count: usize)
    requires
        failed_count > 0,
    ensures
        spec_exit_code(GitlessError::PartialFailure { failed_count }) == 4,
{
}

/// The `--status` filter keeps only entries whose status one of the
/// filters selects, and every such entry.
pub proof fn law_status_filter_keeps_selected(
    entries: Seq<FileEntry>,
    filters: Seq<crate::args::StatusFilter>,
)
    ensures
        forall|i: int| 0 <= i < filtered(entries, filters).len() ==> selected_by(filters, #[trigger] filtered(entries, filters)[i].status),
        forall|i: int| 0 <= i < entries.len() && selected_by(filters, entries[i].status) ==> filtered(entries, filters).contains(#[trigger] entries[i]),
{
    let f = status_selector(filters);
    assert forall|i: int| 0 <= i < filtered(entries, filters).len() implies selected_by(filters, #[trigger] filtered(entries, filters)[i].status) by {
        entries.lemma_filter_pred(f, i);
    }
    assert forall|i: int| 0 <= i < entries.len() && selected_by(filters, entries[i].status) implies filtered(entries, filters).contains(#[trigger] entries[i]) by {
        entries.lemma_filter_contains(f, i);
    }
}

/// The size gate is monotone in the byte count: any larger size of a size
/// over the memory limit is over it too, and any larger size of a size
/// over the upload limit is over that limit too.
pub proof fn law_size_gate_monotonic(a: u64, b: u64)
    requires
        a <= b,
    ensures
        spec_size_gate(a) is Some ==> spec_size_gate(b) is Some,
        spec_size_gate(a) == Some((crate::compare::FailedReason::FileTooLarge, a)) ==> spec_size_gate(b) == Some((crate::compare::FailedReason::FileTooLarge, b)),
{
}

/// Text with LF line endings written with a CR before every LF.
pub open spec fn with_crlf(b: Seq<u8>) -> Seq<u8>
    decreases b.len(),
{
    if b.len() == 0 {
        Seq::empty()
    } else {
        (if b[0] == 10 {
            seq![13u8, 10u8]
        } else {
            seq![b[0]]
        }) + with_crlf(b.skip(1))
    }
}

/// A text without CR bytes and its CRLF form turn into the same bytes
/// under line-ending normalization: the text itself.
pub proof fn law_crlf_variant_normalizes_to_lf(b: Seq<u8>)
    requires
        forall|i: int| 0 <= i < b.len() ==> b[i] != 13,
    ensures
        crlf_to_lf(with_crlf(b)) == b,
        crlf_to_lf(b) == b,
    decreases b.len(),
{
    if b.len() > 0 {
        let rest = b.skip(1);
        assert forall|i: int| 0 <= i < rest.len() implies rest[i] != 13 by {
            assert(rest[i] == b[i + 1]);
        }
        law_crlf_variant_normalizes_to_lf(rest);
        let w = with_crlf(b);
        if b[0] == 10 {
            assert(w == seq![13u8, 10u8] + with_crlf(rest));
            assert(w.skip(2) =~= with_crlf(rest));
            assert(w[0] == 13 && w[1] == 10);
            assert(crlf_to_lf(w) == seq![10u8] + crlf_to_lf(w.skip(2)));
        } else {
            assert(w == seq![b[0]] + with_crlf(rest));
            assert(w.skip(1) =~= with_crlf(rest));
            assert(w[0] == b[0]);
            assert(crlf_to_lf(w) == seq![w[0]] + crlf_to_lf(w.skip(1)));
        }
        assert(b =~= seq![b[0]] + rest);
        assert(crlf_to_lf(b) == seq![b[0]] + crlf_to_lf(b.skip(1)));
    }
}

/// A path held on both sides is left out of the case collisions of any
/// path list.
pub proof fn law_case_collisions_skip_matched_paths(all: Seq<String>, local: Seq<String>, remote: Seq<String>, p: String)
    requires
        has_string(local, p@),
        has_string(remote, p@),
    ensures
        !all.filter(case_selector(local, remote)).contains(p),
{
    if all.filter(case_selector(local, remote)).contains(p) {
        let k = choose|k: int| 0 <= k < all.filter(case_selector(local, remote)).len() && all.filter(case_selector(local, remote))[k] == p;
        all.lemma_filter_pred(case_selector(local, remote), k);
    }
}

/// A report row is failed only when its pre-entry failed, and then keeps
/// the pre-entry's reason: a pre-entry that fails with a reason gives a
/// failed row with that reason.
pub proof fn law_failed_rows_keep_their_reason(
    pre: PreEntry,
    e: FileEntry,
    commits: Seq<(String, Timestamp)>,
    norm: Seq<(String, bool)>,
)
    requires
        finalized(pre, e, commits, norm),
        pre.state matches PreState::Failed { failed_reason, .. } ==> failed_reason is Some,
    ensures
        e.status == Status::Failed <==> pre.state is Failed,
        e.status == Status::Failed ==> e.failed_reason is Some,
{
}

/// When every failed entry carries a reason, so does every row of the
/// `--summary-only` report.
pub proof fn law_summary_rows_carry_reasons(entries: Seq<FileEntry>)
    requires
        forall|i: int| 0 <= i < entries.len() && entries[i].status == Status::Failed ==> (#[trigger] entries[i]).failed_reason is Some,
    ensures
        forall|k: int| 0 <= k < failed_rows(entries).len() ==> (#[trigger] failed_rows(entries)[k]).2 is Some,
{
    assert forall|k: int| 0 <= k < failed_rows(entries).len() implies (#[trigger] failed_rows(entries)[k]).2 is Some by {
        let f = entries.filter(is_failed());
        entries.lemma_filter_pred(is_failed(), k);
        assert(f.contains(f[k]));
        entries.lemma_filter_contains_rev(is_failed(), f[k]);
    }
}

/// Reading a GraphQL string literal's body back: `\` followed by `n` is a
/// newline, `\` followed by any other character is that character, and any
/// other character stands for itself.
pub open spec fn unescape(s: Seq<char>) -> Seq<char>
    decreases s.len(),
{
    if s.len() == 0 {
        Seq::empty()
    } else if s[0] == '\\' && s.len() >= 2 {
        seq![if s[1] == 'n' { '\n' } else { s[1] }] + unescape(s.skip(2))
    } else {
        seq![s[0]] + unescape(s.skip(1))
    }
}

/// The escape of a non-empty string starts with the escape of its first
/// character.
proof fn lemma_escape_first(s: Seq<char>)
    requires
        s.len() > 0,
    ensures
        escape(s) == escape_char(s[0]) + escape(s.skip(1)),
    decreases s.len(),
{
    if s.len() == 1 {
        assert(s.drop_last() =~= Seq::<char>::empty());
        assert(s.skip(1) =~= Seq::<char>::empty());
        assert(escape(s) =~= escape_char(s[0]) + escape(s.skip(1)));
    } else {
        lemma_escape_first(s.drop_last());
        assert(s.drop_last()[0] == s[0]);
        assert(s.skip(1).drop_last() =~= s.drop_last().skip(1));
        assert(s.skip(1).last() == s.last());
        assert(escape(s.skip(1)) == escape(s.skip(1).drop_last()) + escape_char(s.skip(1).last()));
        assert(escape(s) =~= escape_char(s[0]) + escape(s.skip(1)));
    }
}

/// Unescaping the escape of one character followed by more text gives the
/// character followed by the unescaped rest.
proof fn lemma_unescape_char(c: char, rest: Seq<char>)
    ensures
        unescape(escape_char(c) + rest) == seq![c] + unescape(rest),
{
    let t = escape_char(c) + rest;
    if c == '\\' || c == '"' || c == '\n' {
        assert(t[0] == '\\' && t.len() >= 2);
        assert(t.skip(2) =~= rest);
    } else {
        assert(t[0] == c);
        assert(t.skip(1) =~= rest);
    }
}

/// Escaping a string for a GraphQL literal loses nothing: reading the
/// literal back gives the string; and a string without backslash, double
/// quote or newline is written unchanged.
pub proof fn law_escape_round_trips(s: Seq<char>)
    ensures
        unescape(escape(s)) == s,
        (forall|i: int| 0 <= i < s.len() ==> s[i] != '\\' && s[i] != '"' && s[i] != '\n') ==> escape(s) == s,
    decreases s.len(),
{
    if s.len() > 0 {
        lemma_escape_first(s);
        law_escape_round_trips(s.skip(1));
        lemma_unescape_char(s[0], escape(s.skip(1)));
        assert(s =~= seq![s[0]] + s.skip(1));
        if forall|i: int| 0 <= i < s.len() ==> s[i] != '\\' && s[i] != '"' && s[i] != '\n' {
            assert forall|i: int| 0 <= i < s.skip(1).len() implies s.skip(1)[i] != '\\' && s.skip(1)[i] != '"'
                && s.skip(1)[i] != '\n' by {
                assert(s.skip(1)[i] == s[i + 1]);
            }
        }
    } else {
        assert(escape(s) =~= Seq::<char>::empty());
    }
}


/// The attributes the comparison understands are exactly those it
/// documents: `text`, `-text`, `binary`, `eol=lf`, `eol=crlf`, `diff`,
/// `-diff`, `merge`, `-merge`, `filter=lfs`, `diff=lfs` and `merge=lfs`.
pub proof fn law_documented_attributes_whitelisted(a: Seq<char>)
    ensures
        whitelisted(a) <==> (a == "text"@ || a == "-text"@ || a == "binary"@ || a == "eol=lf"@ || a
            == "eol=crlf"@ || a == "diff"@ || a == "-diff"@ || a == "merge"@ || a == "-merge"@ || a
            == "filter=lfs"@ || a == "diff=lfs"@ || a == "merge=lfs"@),
{
}

/// A path whose attributes all come from the documented list is never
/// unsupported; and where they hold `text`, `eol=lf` or `eol=crlf` but not
/// `filter=lfs`, `binary` or `-text`, the path is text.
pub proof fn law_documented_attributes_classify(attrs: Seq<Seq<char>>, c: AttributeMatch)
    requires
        forall|k: int|
            0 <= k < attrs.len() ==> (#[trigger] attrs[k] == "text"@ || attrs[k] == "-text"@ || attrs[k]
                == "binary"@ || attrs[k] == "eol=lf"@ || attrs[k] == "eol=crlf"@ || attrs[k] == "diff"@
                || attrs[k] == "-diff"@ || attrs[k] == "merge"@ || attrs[k] == "-merge"@ || attrs[k]
                == "filter=lfs"@ || attrs[k] == "diff=lfs"@ || attrs[k] == "merge=lfs"@),
        class_of(attrs, c),
    ensures
        !(c is Unsupported),
        (attrs.contains("text"@) || attrs.contains("eol=lf"@) || attrs.contains("eol=crlf"@))
            && !attrs.contains("filter=lfs"@) && !attrs.contains("binary"@) && !attrs.contains("-text"@)
            ==> c == AttributeMatch::Text,
{
    assert forall|k: int| 0 <= k < attrs.len() implies whitelisted(#[trigger] attrs[k]) by {
        law_documented_attributes_whitelisted(attrs[k]);
    }
    assert(!exists|k: int| first_unlisted(attrs, k));
}

/// The class of a path goes by precedence: `filter=lfs` makes it an LFS
/// pointer whatever else it has; else `binary` or `-text` makes it binary;
/// else the first attribute outside the documented list makes it
/// unsupported, under that attribute's name.
pub proof fn law_attribute_precedence(attrs: Seq<Seq<char>>, c: AttributeMatch, k: int)
    requires
        class_of(attrs, c),
    ensures
        attrs.contains("filter=lfs"@) ==> c == AttributeMatch::LfsPointer,
        !attrs.contains("filter=lfs"@) && (attrs.contains("binary"@) || attrs.contains("-text"@)) ==> c
            == AttributeMatch::Binary,
        !attrs.contains("filter=lfs"@) && !attrs.contains("binary"@) && !attrs.contains("-text"@) && 0 <= k
            < attrs.len() && !(attrs[k] == "text"@ || attrs[k] == "eol=lf"@ || attrs[k] == "eol=crlf"@
            || attrs[k] == "diff"@ || attrs[k] == "-diff"@ || attrs[k] == "merge"@ || attrs[k] == "-merge"@
            || attrs[k] == "diff=lfs"@ || attrs[k] == "merge=lfs"@) && (forall|m: int|
            0 <= m < k ==> whitelisted(#[trigger] attrs[m])) ==> (c matches AttributeMatch::Unsupported {
            attribute,
        } && attribute@ == attrs[k]),
{
    if !attrs.contains("filter=lfs"@) && !attrs.contains("binary"@) && !attrs.contains("-text"@) && 0 <= k
        < attrs.len() && !(attrs[k] == "text"@ || attrs[k] == "eol=lf"@ || attrs[k] == "eol=crlf"@
        || attrs[k] == "diff"@ || attrs[k] == "-diff"@ || attrs[k] == "merge"@ || attrs[k] == "-merge"@
        || attrs[k] == "diff=lfs"@ || attrs[k] == "merge=lfs"@) && (forall|m: int|
        0 <= m < k ==> whitelisted(#[trigger] attrs[m])) {
        assert(attrs[k] != "-text"@ && attrs[k] != "binary"@ && attrs[k] != "filter=lfs"@);
        law_documented_attributes_whitelisted(attrs[k]);
        assert(first_unlisted(attrs, k));
        let j = choose|j: int| first_unlisted(attrs, j);
        if j < k {
        } else if j > k {
        }
        assert(j == k);
    }
}

/// The blob of `sha` is fetched from the Blobs endpoint of `repo`.
pub proof fn law_blob_args_name_blobs_endpoint(repo: Seq<char>, sha: Seq<char>)
    ensures
        blob_argv(repo, sha) == seq!["api"@, "repos/"@ + repo + "/git/blobs/"@ + sha],
{
}

/// The tree of `branch` is listed, recursively, from the Trees endpoint of
/// `repo`.
pub proof fn law_tree_args_name_trees_endpoint(repo: Seq<char>, branch: Seq<char>)
    ensures
        tree_argv(repo, branch) == seq!["api"@, "repos/"@ + repo + "/git/trees/"@ + branch + "?recursive=1"@],
{
}

/// The last commit touching `path` on `branch` is asked of the Commits
/// endpoint, one result per page; a GraphQL query goes to the `graphql`
/// endpoint as the `query` field.
pub proof fn law_commit_and_graphql_args(repo: Seq<char>, branch: Seq<char>, path: Seq<char>, query: Seq<char>)
    ensures
        commits_argv(repo, branch, path) == seq![
            "api"@,
            "repos/"@ + repo + "/commits"@,
            "-F"@,
            "sha="@ + branch,
            "-F"@,
            "path="@ + path,
            "-F"@,
            "per_page=1"@,
        ],
        graphql_argv(query) == seq!["api"@, "graphql"@, "-f"@, "query="@ + query],
{
}

/// A blob request never asks for a tree: whatever the SHA and the branch,
/// the two endpoints differ.
pub proof fn law_blob_and_tree_requests_differ(repo: Seq<char>, sha: Seq<char>, branch: Seq<char>)
    ensures
        blob_argv(repo, sha)[1] != tree_argv(repo, branch)[1],
{
    reveal_strlit("repos/");
    reveal_strlit("/git/blobs/");
    reveal_strlit("/git/trees/");
    let k: int = repo.len() as int + 11;
    assert(blob_argv(repo, sha)[1][k] == 'b');
    assert(tree_argv(repo, branch)[1][k] == 't');
}

/// An occurrence inside the middle part of a text is an occurrence in the
/// whole text, shifted by the length of what comes before.
proof fn lemma_occurs_in_concat(pre: Seq<char>, mid: Seq<char>, post: Seq<char>, needle: Seq<char>, j: int)
    requires
        occurs_at(mid, needle, j),
    ensures
        occurs_at(pre + mid + post, needle, pre.len() + j),
{
    let h = pre + mid + post;
    assert(h.subrange(pre.len() + j, pre.len() + j + needle.len()) =~= needle) by {
        assert forall|m: int| 0 <= m < needle.len() implies h[pre.len() + j + m] == needle[m] by {
            assert(mid.subrange(j, j + needle.len())[m] == mid[j + m]);
        }
    }
}

/// Occurrence is transitive: an occurrence of `needle` in `mid`, itself
/// occurring in `hay`, occurs in `hay`.
proof fn lemma_occurs_trans(hay: Seq<char>, mid: Seq<char>, needle: Seq<char>, a: int, b: int)
    requires
        occurs_at(hay, mid, a),
        occurs_at(mid, needle, b),
    ensures
        occurs_at(hay, needle, a + b),
{
    assert(hay.subrange(a + b, a + b + needle.len()) =~= needle) by {
        assert forall|m: int| 0 <= m < needle.len() implies hay[a + b + m] == needle[m] by {
            assert(hay.subrange(a, a + mid.len())[b + m] == hay[a + b + m]);
            assert(mid.subrange(b, b + needle.len())[m] == mid[b + m]);
        }
    }
}

/// The alias line of `paths[i]` stands in the alias block of `paths`.
proof fn lemma_block_has_line(paths: Seq<Seq<char>>, i: int)
    requires
        0 <= i < paths.len(),
    ensures
        contains_seq(alias_block(paths), alias_line(i as nat, paths[i])),
    decreases paths.len(),
{
    let front = alias_block(paths.drop_last());
    let line = alias_line((paths.len() - 1) as nat, paths.last());
    if i == paths.len() - 1 {
        assert(line.subrange(0, line.len() as int) =~= line);
        lemma_occurs_in_concat(front, line, Seq::empty(), line, 0);
        assert(front + line + Seq::<char>::empty() =~= alias_block(paths));
    } else {
        lemma_block_has_line(paths.drop_last(), i);
        assert(paths.drop_last()[i] == paths[i]);
        let j = choose|j: int| #[trigger] occurs_at(front, alias_line(i as nat, paths[i]), j);
        lemma_occurs_in_concat(Seq::empty(), front, line, alias_line(i as nat, paths[i]), j);
        assert(Seq::<char>::empty() + front + line =~= alias_block(paths));
    }
}

/// Each alias line asks, under its alias, for the `committedDate` of the
/// last commit that touched its (escaped) path.
proof fn lemma_line_asks_committed_date(i: nat, path: Seq<char>)
    ensures
        occurs_at(
            alias_line(i, path),
            "a"@ + decimal(i) + ": history(first: 1, path: \""@ + escape(path) + "\") { nodes { committedDate } }"@,
            10,
        ),
{
    reveal_strlit("          a");
    reveal_strlit("a");
    reveal_strlit("\") { nodes { committedDate } }\n");
    reveal_strlit("\") { nodes { committedDate } }");
    let mid = decimal(i) + ": history(first: 1, path: \""@ + escape(path);
    let line = alias_line(i, path);
    let needle = "a"@ + decimal(i) + ": history(first: 1, path: \""@ + escape(path) + "\") { nodes { committedDate } }"@;
    assert(line =~= "          "@ + ("a"@ + mid + "\") { nodes { committedDate } }"@) + "\n"@) by {
        reveal_strlit("          ");
        reveal_strlit("\n");
    }
    assert(needle =~= "a"@ + mid + "\") { nodes { committedDate } }"@);
    assert(needle.subrange(0, needle.len() as int) =~= needle);
    lemma_occurs_in_concat("          "@, needle, "\n"@, needle, 0);
    reveal_strlit("          ");
}

/// Every path of a chunk is asked for: the query holds, for each `paths[i]`,
/// the alias `a{i}` requesting `history(first: 1, path: ...)` of that path,
/// escaped, with `nodes { committedDate }`, the field the response is read
/// by.
pub proof fn law_query_asks_committed_date_of_each_path(
    owner: Seq<char>,
    name: Seq<char>,
    branch: Seq<char>,
    paths: Seq<Seq<char>>,
    i: int,
)
    requires
        0 <= i < paths.len(),
    ensures
        contains_seq(
            query_text(owner, name, branch, paths),
            "a"@ + decimal(i as nat) + ": history(first: 1, path: \""@ + escape(paths[i])
                + "\") { nodes { committedDate } }"@,
        ),
{
    let needle = "a"@ + decimal(i as nat) + ": history(first: 1, path: \""@ + escape(paths[i])
        + "\") { nodes { committedDate } }"@;
    let line = alias_line(i as nat, paths[i]);
    let block = alias_block(paths);
    let head = query_head(owner, name, branch);
    lemma_block_has_line(paths, i);
    let j = choose|j: int| #[trigger] occurs_at(block, line, j);
    lemma_occurs_in_concat(head, block, query_tail(), line, j);
    lemma_line_asks_committed_date(i as nat, paths[i]);
    lemma_occurs_trans(head + block + query_tail(), line, needle, head.len() + j, 10);
    assert(occurs_at(query_text(owner, name, branch, paths), needle, head.len() + j + 10));
}

/// A chunk's query reads the repository `owner/name` at the head of
/// `branch`, with the alias lines, in path order, inside the commit's
/// selection.
pub proof fn law_query_frame(owner: Seq<char>, name: Seq<char>, branch: Seq<char>, paths: Seq<Seq<char>>)
    ensures
        query_text(owner, name, branch, paths) == "query {\n  repository(owner: \""@ + owner + "\", name: \""@ + name
            + "\") {\n    ref(qualifiedName: \"refs/heads/"@ + branch
            + "\") {\n      target {\n        ... on Commit {\n"@ + alias_block(paths)
            + "        }\n      }\n    }\n  }\n}\n"@,
{
    reveal_strlit("query {\n");
    reveal_strlit("  repository(owner: \"");
    reveal_strlit("\", name: \"");
    reveal_strlit("\") {\n");
    reveal_strlit("    ref(qualifiedName: \"refs/heads/");
    reveal_strlit("      target {\n");
    reveal_strlit("        ... on Commit {\n");
    reveal_strlit("        }\n");
    reveal_strlit("      }\n");
    reveal_strlit("    }\n");
    reveal_strlit("  }\n");
    reveal_strlit("}\n");
    reveal_strlit("query {\n  repository(owner: \"");
    reveal_strlit("\") {\n    ref(qualifiedName: \"refs/heads/");
    reveal_strlit("\") {\n      target {\n        ... on Commit {\n");
    reveal_strlit("        }\n      }\n    }\n  }\n}\n");
    assert(query_head(owner, name, branch) =~= "query {\n  repository(owner: \""@ + owner + "\", name: \""@ + name
        + "\") {\n    ref(qualifiedName: \"refs/heads/"@ + branch + "\") {\n      target {\n        ... on Commit {\n"@);
    assert(query_tail() =~= "        }\n      }\n    }\n  }\n}\n"@);
}

} // verus!
