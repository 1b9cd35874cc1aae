//! Rename / move hints between paths changed only locally and paths changed
//! only remotely.
//!
//! Entries of each side are grouped by their SHA (ascending, paths of a
//! group ascending). A remote group whose SHA is also a local group's SHA
//! pairs every local path with every remote path (`raw_equal`). The other
//! remote groups, unless there are more of them than
//! [`CASE_B_UNMATCHED_CAP`], are compared once more after fetching the
//! remote bytes of their first path and hashing them as a local file would
//! be hashed; a match pairs them with `raw_equal` false. Nothing is changed
//! on either side: the pairs are facts for the caller.

use vstd::prelude::*;
use vstd::relations::{sorted_by, total_ordering};
use vstd::seq_lib::lemma_sorted_unique;

use crate::compare::{opt_string_view, FileEntry, Status};
use crate::gitattributes::AttributeMatch;
use crate::graphql::views;
use crate::normalize::{blob_hash, git_blob_id, prepare_for_hash, prepared};
use crate::paths::{lemma_lex_irreflexive, lemma_lex_total, lemma_lex_transitive, lex_less, lex_lt};
use crate::text::{chars_of, str_is};

verus! {

broadcast use vstd::seq_lib::group_to_multiset_ensures;

/// Above this many unmatched remote groups the second comparison is skipped.
pub const CASE_B_UNMATCHED_CAP: usize = 256;

/// One rename / move hint: `from` (local) and `to` (remote) share `sha`;
/// `raw_equal` tells whether the raw SHAs matched or only the normalized
/// content did.
#[derive(Debug, Clone, PartialEq, Eq)]
pub struct RenamePair {
    pub from: String,
    pub to: String,
    pub sha: String,
    pub raw_equal: bool,
}

/// A pair as plain values.
pub open spec fn pair_view(p: RenamePair) -> (Seq<char>, Seq<char>, Seq<char>, bool) {
    (p.from@, p.to@, p.sha@, p.raw_equal)
}

/// Each pair as plain values.
pub open spec fn pair_views(v: Seq<RenamePair>) -> Seq<(Seq<char>, Seq<char>, Seq<char>, bool)> {
    v.map_values(|p: RenamePair| pair_view(p))
}

/// `a` sorts no later than `b`.
pub open spec fn lex_le() -> spec_fn(Seq<char>, Seq<char>) -> bool {
    |a: Seq<char>, b: Seq<char>| !lex_lt(b, a)
}

/// The path order is a total order.
pub proof fn lemma_lex_le_total()
    ensures
        total_ordering(lex_le()),
{
    assert forall|x: Seq<char>| #[trigger] lex_le()(x, x) by {
        lemma_lex_irreflexive(x);
    }
    assert forall|x: Seq<char>, y: Seq<char>| #[trigger] lex_le()(x, y) && #[trigger] lex_le()(y, x)
        implies x == y by {
        lemma_lex_total(x, y);
    }
    assert forall|x: Seq<char>, y: Seq<char>, z: Seq<char>|
        #[trigger] lex_le()(x, y) && #[trigger] lex_le()(y, z) implies lex_le()(x, z) by {
        lemma_lex_total(x, y);
        lemma_lex_total(y, z);
        lemma_lex_total(x, z);
        if x != y && y != z {
            lemma_lex_transitive(x, y, z);
        }
    }
    assert forall|x: Seq<char>, y: Seq<char>| #[trigger] lex_le()(x, y) || #[trigger] lex_le()(y, x) by {
        lemma_lex_total(x, y);
        lemma_lex_irreflexive(x);
    }
}

/// `s` in ascending order.
pub open spec fn sorted_paths(s: Seq<Seq<char>>) -> Seq<Seq<char>> {
    s.sort_by(lex_le())
}

/// A sorted sequence with each run of equal items kept once.
pub open spec fn dedup_sorted(s: Seq<Seq<char>>) -> Seq<Seq<char>>
    decreases s.len(),
{
    if s.len() == 0 {
        s
    } else {
        let d = dedup_sorted(s.drop_last());
        if d.len() > 0 && d.last() == s.last() {
            d
        } else {
            d.push(s.last())
        }
    }
}

/// Every item of `dedup_sorted(s)` is an item of `s`.
proof fn lemma_dedup_contains(s: Seq<Seq<char>>, k: Seq<char>)
    ensures
        dedup_sorted(s).contains(k) ==> s.contains(k),
    decreases s.len(),
{
    if s.len() > 0 {
        lemma_dedup_contains(s.drop_last(), k);
        if dedup_sorted(s.drop_last()).contains(k) {
            let j = choose|j: int| 0 <= j < s.drop_last().len() && s.drop_last()[j] == k;
            assert(s[j] == k);
        }
        if dedup_sorted(s).contains(k) && !dedup_sorted(s.drop_last()).contains(k) {
            assert(s[s.len() - 1] == k);
        }
    }
}

/// Every item of `sorted_paths(s)` is an item of `s`, and as many.
proof fn lemma_sorted_paths(s: Seq<Seq<char>>)
    ensures
        sorted_paths(s).to_multiset() == s.to_multiset(),
        sorted_paths(s).len() == s.len(),
        sorted_by(sorted_paths(s), lex_le()),
        forall|k: Seq<char>| sorted_paths(s).contains(k) ==> s.contains(k),
{
    lemma_lex_le_total();
    s.lemma_sort_by_ensures(lex_le());
    assert(sorted_paths(s).len() == sorted_paths(s).to_multiset().len());
    assert forall|k: Seq<char>| sorted_paths(s).contains(k) implies s.contains(k) by {
        assert(sorted_paths(s).to_multiset().contains(k));
    }
}

/// Whether `a` sorts strictly before `b`.
fn str_lt(a: &str, b: &str) -> (r: bool)
    ensures
        r == lex_lt(a@, b@),
{
    lex_less(&chars_of(a), &chars_of(b))
}

/// `v` in ascending order (insertion sort).
pub fn sort_strings(v: &Vec<String>) -> (r: Vec<String>)
    ensures
        views(r@) == sorted_paths(views(v@)),
{
    proof {
        lemma_lex_le_total();
    }
    let mut out: Vec<String> = Vec::new();
    for i in 0..v.len()
        invariant
            total_ordering(lex_le()),
            sorted_by(views(out@), lex_le()),
            views(out@).to_multiset() == views(v@).take(i as int).to_multiset(),
    {
        let x = v[i].clone();
        let mut p: usize = 0;
        while p < out.len() && !str_lt(x.as_str(), out[p].as_str())
            invariant
                p <= out@.len(),
                forall|q: int| 0 <= q < p ==> lex_le()(#[trigger] out@[q]@, x@),
            decreases out@.len() - p,
        {
            p += 1;
        }
        let ghost before = out@;
        proof {
            assert forall|q: int| p <= q < before.len() implies lex_le()(x@, #[trigger] before[q]@) by {
                lemma_lex_total(x@, before[p as int]@);
                assert(lex_le()(x@, before[p as int]@));
                if q > p {
                    assert(lex_le()(views(before)[p as int], views(before)[q]));
                }
            }
        }
        out.insert(p, x);
        proof {
            assert(views(out@) =~= views(before).insert(p as int, x@));
            assert(views(v@).take(i + 1) =~= views(v@).take(i as int).push(v@[i as int]@));
            assert forall|a: int, b: int| 0 <= a < b < out@.len() implies #[trigger] lex_le()(
                views(out@)[a],
                views(out@)[b],
            ) by {
                if b < p {
                    assert(lex_le()(views(before)[a], views(before)[b]));
                } else if b == p {
                } else if a > p {
                    assert(lex_le()(views(before)[a - 1], views(before)[b - 1]));
                } else if a == p {
                } else {
                    assert(lex_le()(before[a]@, x@));
                    assert(lex_le()(x@, before[b - 1]@));
                }
            }
        }
    }
    proof {
        assert(views(v@).take(v@.len() as int) =~= views(v@));
        lemma_sorted_paths(views(v@));
        lemma_sorted_unique(views(out@), sorted_paths(views(v@)), lex_le());
    }
    out
}

/// A sorted `v` with each run of equal strings kept once.
pub fn dedup_strings(v: &Vec<String>) -> (r: Vec<String>)
    ensures
        views(r@) == dedup_sorted(views(v@)),
{
    let mut out: Vec<String> = Vec::new();
    for i in 0..v.len()
        invariant
            views(out@) == dedup_sorted(views(v@).take(i as int)),
    {
        let ghost t = views(v@).take(i + 1);
        proof {
            assert(t.drop_last() =~= views(v@).take(i as int));
            assert(t.last() == v@[i as int]@);
        }
        let n = out.len();
        if n == 0 || !str_is(out[n - 1].as_str(), v[i].as_str()) {
            out.push(v[i].clone());
            proof {
                assert(views(out@) =~= dedup_sorted(views(v@).take(i as int)).push(v@[i as int]@));
            }
        }
    }
    proof {
        assert(views(v@).take(v@.len() as int) =~= views(v@));
    }
    out
}

/// The status of the entries grouped on one side.
pub open spec fn side_status(local: bool) -> Status {
    if local {
        Status::LocalOnlyChanged
    } else {
        Status::RemoteOnlyChanged
    }
}

/// The SHA of `e` on one side.
pub open spec fn side_sha(e: FileEntry, local: bool) -> Option<Seq<char>> {
    if local {
        opt_string_view(e.local_sha)
    } else {
        opt_string_view(e.remote_sha)
    }
}

/// `e` belongs to a group of that side.
pub open spec fn grouped(e: FileEntry, local: bool) -> bool {
    e.status == side_status(local) && side_sha(e, local) is Some
}

/// The SHAs of the grouped entries of one side, in entry order.
pub open spec fn side_shas(es: Seq<FileEntry>, local: bool) -> Seq<Seq<char>>
    decreases es.len(),
{
    if es.len() == 0 {
        Seq::empty()
    } else {
        let e = es.last();
        side_shas(es.drop_last(), local) + if grouped(e, local) {
            seq![side_sha(e, local)->0]
        } else {
            Seq::empty()
        }
    }
}

/// The paths of the group with SHA `k` on one side, in entry order.
pub open spec fn bucket(es: Seq<FileEntry>, local: bool, k: Seq<char>) -> Seq<Seq<char>>
    decreases es.len(),
{
    if es.len() == 0 {
        Seq::empty()
    } else {
        let e = es.last();
        bucket(es.drop_last(), local, k) + if grouped(e, local) && side_sha(e, local) == Some(k) {
            seq![e.path@]
        } else {
            Seq::empty()
        }
    }
}

/// A SHA of a grouped entry has a non-empty group.
proof fn lemma_shas_have_buckets(es: Seq<FileEntry>, local: bool, k: Seq<char>)
    requires
        side_shas(es, local).contains(k),
    ensures
        bucket(es, local, k).len() > 0,
    decreases es.len(),
{
    let e = es.last();
    if side_shas(es.drop_last(), local).contains(k) {
        lemma_shas_have_buckets(es.drop_last(), local, k);
    } else {
        let j = choose|j: int| 0 <= j < side_shas(es, local).len() && side_shas(es, local)[j] == k;
        assert(j >= side_shas(es.drop_last(), local).len()) by {
            if j < side_shas(es.drop_last(), local).len() {
                assert(side_shas(es.drop_last(), local)[j] == k);
            }
        }
    }
}

/// The group keys of one side: its SHAs ascending, each once.
pub open spec fn sha_keys(es: Seq<FileEntry>, local: bool) -> Seq<Seq<char>> {
    dedup_sorted(sorted_paths(side_shas(es, local)))
}

/// A group key has a non-empty group.
proof fn lemma_keys_have_buckets(es: Seq<FileEntry>, local: bool, k: Seq<char>)
    requires
        sha_keys(es, local).contains(k),
    ensures
        bucket(es, local, k).len() > 0,
{
    lemma_dedup_contains(sorted_paths(side_shas(es, local)), k);
    lemma_sorted_paths(side_shas(es, local));
    lemma_shas_have_buckets(es, local, k);
}

/// `side_shas` computed.
fn side_shas_of(entries: &Vec<FileEntry>, local: bool) -> (r: Vec<String>)
    ensures
        views(r@) == side_shas(entries@, local),
{
    let mut out: Vec<String> = Vec::new();
    for i in 0..entries.len()
        invariant
            views(out@) == side_shas(entries@.take(i as int), local),
    {
        let e = &entries[i];
        proof {
            assert(entries@.take(i + 1).drop_last() =~= entries@.take(i as int));
        }
        let want = if local {
            Status::LocalOnlyChanged
        } else {
            Status::RemoteOnlyChanged
        };
        let sha = if local {
            &e.local_sha
        } else {
            &e.remote_sha
        };
        if e.status == want {
            match sha {
                Some(s) => {
                    out.push(s.clone());
                    proof {
                        assert(views(out@) =~= side_shas(entries@.take(i + 1), local));
                    }
                },
                None => {
                    assert(views(out@) =~= side_shas(entries@.take(i + 1), local));
                },
            }
        } else {
            assert(views(out@) =~= side_shas(entries@.take(i + 1), local));
        }
    }
    assert(entries@.take(entries@.len() as int) =~= entries@);
    out
}

/// `bucket` computed.
fn bucket_of(entries: &Vec<FileEntry>, local: bool, k: &str) -> (r: Vec<String>)
    ensures
        views(r@) == bucket(entries@, local, k@),
{
    let mut out: Vec<String> = Vec::new();
    for i in 0..entries.len()
        invariant
            views(out@) == bucket(entries@.take(i as int), local, k@),
    {
        let e = &entries[i];
        proof {
            assert(entries@.take(i + 1).drop_last() =~= entries@.take(i as int));
        }
        let want = if local {
            Status::LocalOnlyChanged
        } else {
            Status::RemoteOnlyChanged
        };
        let sha = if local {
            &e.local_sha
        } else {
            &e.remote_sha
        };
        if e.status == want {
            match sha {
                Some(s) => {
                    if str_is(s.as_str(), k) {
                        out.push(e.path.clone());
                    }
                    proof {
                        assert(views(out@) =~= bucket(entries@.take(i + 1), local, k@));
                    }
                },
                None => {
                    assert(views(out@) =~= bucket(entries@.take(i + 1), local, k@));
                },
            }
        } else {
            assert(views(out@) =~= bucket(entries@.take(i + 1), local, k@));
        }
    }
    assert(entries@.take(entries@.len() as int) =~= entries@);
    out
}

/// Every `from` paired with every `to` under `sha`, `from` major.
pub open spec fn cross(
    from: Seq<Seq<char>>,
    to: Seq<Seq<char>>,
    sha: Seq<char>,
    raw_equal: bool,
) -> Seq<(Seq<char>, Seq<char>, Seq<char>, bool)>
    decreases from.len(),
{
    if from.len() == 0 {
        Seq::empty()
    } else {
        cross(from.drop_last(), to, sha, raw_equal) + to.map_values(
            |t: Seq<char>| (from.last(), t, sha, raw_equal),
        )
    }
}

/// Append `cross(from, to, sha, raw_equal)` to `pairs`.
fn emit_pairs(pairs: &mut Vec<RenamePair>, from: &Vec<String>, to: &Vec<String>, sha: &str, raw_equal: bool)
    ensures
        pair_views(final(pairs)@) == pair_views(old(pairs)@) + cross(views(from@), views(to@), sha@, raw_equal),
{
    let ghost start = pair_views(pairs@);
    for i in 0..from.len()
        invariant
            pair_views(pairs@) == start + cross(views(from@).take(i as int), views(to@), sha@, raw_equal),
    {
        let ghost mid = pair_views(pairs@);
        for j in 0..to.len()
            invariant
                i < from@.len(),
                pair_views(pairs@) == mid + views(to@).take(j as int).map_values(
                    |t: Seq<char>| (from@[i as int]@, t, sha@, raw_equal),
                ),
        {
            let ghost before = pairs@;
            let item = RenamePair { from: from[i].clone(), to: to[j].clone(), sha: sha.to_string(), raw_equal };
            assert(item.sha@ == sha@);
            assert(item.from@ == from@[i as int]@);
            assert(item.to@ == views(to@)[j as int]);
            pairs.push(item);
            proof {
                assert(pairs@ =~= before.push(item));
                assert(pair_views(pairs@) =~= pair_views(before).push(pair_view(item)));
                assert(pair_views(pairs@) =~= mid + views(to@).take(j + 1).map_values(
                    |t: Seq<char>| (from@[i as int]@, t, sha@, raw_equal),
                ));
            }
        }
        proof {
            assert(views(to@).take(to@.len() as int) =~= views(to@));
            assert(views(from@).take(i + 1).drop_last() =~= views(from@).take(i as int));
            assert(views(from@).take(i + 1).last() == from@[i as int]@);
            assert(pair_views(pairs@) =~= start + cross(views(from@).take(i + 1), views(to@), sha@, raw_equal));
        }
    }
    proof {
        assert(views(from@).take(from@.len() as int) =~= views(from@));
    }
}

/// The pairs of the remote groups `ks` whose SHA is also a local group's.
pub open spec fn case_a(es: Seq<FileEntry>, ks: Seq<Seq<char>>) -> Seq<(Seq<char>, Seq<char>, Seq<char>, bool)>
    decreases ks.len(),
{
    if ks.len() == 0 {
        Seq::empty()
    } else {
        let k = ks.last();
        case_a(es, ks.drop_last()) + if bucket(es, true, k).len() > 0 {
            cross(sorted_paths(bucket(es, true, k)), sorted_paths(bucket(es, false, k)), k, true)
        } else {
            Seq::empty()
        }
    }
}

/// The keys of `ks` without a local group, in order.
pub open spec fn unmatched_of(es: Seq<FileEntry>, ks: Seq<Seq<char>>) -> Seq<Seq<char>>
    decreases ks.len(),
{
    if ks.len() == 0 {
        Seq::empty()
    } else {
        unmatched_of(es, ks.drop_last()) + if bucket(es, true, ks.last()).len() == 0 {
            seq![ks.last()]
        } else {
            Seq::empty()
        }
    }
}

/// The remote group keys without a local group of the same SHA.
pub open spec fn unmatched(es: Seq<FileEntry>) -> Seq<Seq<char>> {
    unmatched_of(es, sha_keys(es, false))
}

/// Both sides have at least one group.
pub open spec fn both_sides_grouped(es: Seq<FileEntry>) -> bool {
    side_shas(es, true).len() > 0 && side_shas(es, false).len() > 0
}

/// The second comparison runs: both sides grouped, and no more unmatched
/// remote groups than the cap.
pub open spec fn case_b_runs(es: Seq<FileEntry>) -> bool {
    both_sides_grouped(es) && unmatched(es).len() <= CASE_B_UNMATCHED_CAP
}

/// The remote blobs to fetch for the second comparison: each unmatched
/// remote group's SHA with its first (smallest) path, ascending by SHA;
/// none where that comparison does not run.
pub open spec fn candidates(es: Seq<FileEntry>) -> Seq<(Seq<char>, Seq<char>)> {
    if case_b_runs(es) {
        unmatched(es).map_values(|k: Seq<char>| (k, sorted_paths(bucket(es, false, k))[0]))
    } else {
        Seq::empty()
    }
}

/// What was fetched for one candidate: its bytes (`None` where the fetch
/// failed) and the `.gitattributes` class of its first path.
#[derive(Debug, Clone)]
pub struct FetchedBlob {
    pub bytes: Option<Vec<u8>>,
    pub class: AttributeMatch,
}

/// The normalized blob id of candidate `i`, where it was fetched.
pub open spec fn fetched_id(f: Seq<FetchedBlob>, i: int, keep_bom: bool) -> Option<Seq<char>> {
    if 0 <= i < f.len() && f[i].bytes is Some {
        Some(git_blob_id(prepared(f[i].bytes->0@, keep_bom, f[i].class).0))
    } else {
        None
    }
}

/// The pairs of the second comparison over the unmatched keys `us`, the
/// `i`-th fetched as `f[i]`.
pub open spec fn case_b(
    es: Seq<FileEntry>,
    us: Seq<Seq<char>>,
    f: Seq<FetchedBlob>,
    keep_bom: bool,
) -> Seq<(Seq<char>, Seq<char>, Seq<char>, bool)>
    decreases us.len(),
{
    if us.len() == 0 {
        Seq::empty()
    } else {
        case_b(es, us.drop_last(), f, keep_bom) + match fetched_id(f, us.len() - 1, keep_bom) {
            Some(h) => if bucket(es, true, h).len() > 0 {
                cross(sorted_paths(bucket(es, true, h)), sorted_paths(bucket(es, false, us.last())), h, false)
            } else {
                Seq::empty()
            },
            None => Seq::empty(),
        }
    }
}

/// All rename hints: none unless both sides are grouped; else the
/// same-SHA pairs, then (unless skipped by the cap) the normalized ones.
pub open spec fn renames_of(
    es: Seq<FileEntry>,
    f: Seq<FetchedBlob>,
    keep_bom: bool,
) -> Seq<(Seq<char>, Seq<char>, Seq<char>, bool)> {
    if !both_sides_grouped(es) {
        Seq::empty()
    } else {
        case_a(es, sha_keys(es, false)) + if case_b_runs(es) {
            case_b(es, unmatched(es), f, keep_bom)
        } else {
            Seq::empty()
        }
    }
}

/// The remote group keys ascending.
fn remote_keys(entries: &Vec<FileEntry>) -> (r: Vec<String>)
    ensures
        views(r@) == sha_keys(entries@, false),
{
    let shas = side_shas_of(entries, false);
    let sorted = sort_strings(&shas);
    dedup_strings(&sorted)
}

/// `unmatched` computed from the remote keys.
fn unmatched_keys(entries: &Vec<FileEntry>, keys: &Vec<String>) -> (r: Vec<String>)
    ensures
        views(r@) == unmatched_of(entries@, views(keys@)),
{
    let mut out: Vec<String> = Vec::new();
    for i in 0..keys.len()
        invariant
            views(out@) == unmatched_of(entries@, views(keys@).take(i as int)),
    {
        proof {
            assert(views(keys@).take(i + 1).drop_last() =~= views(keys@).take(i as int));
            assert(views(keys@).take(i + 1).last() == keys@[i as int]@);
        }
        let lb = bucket_of(entries, true, keys[i].as_str());
        if lb.len() == 0 {
            out.push(keys[i].clone());
        }
        proof {
            assert(views(out@) =~= unmatched_of(entries@, views(keys@).take(i + 1)));
        }
    }
    proof {
        assert(views(keys@).take(keys@.len() as int) =~= views(keys@));
    }
    out
}

/// The keys of `unmatched_of(es, ks)` are keys of `ks`.
proof fn lemma_unmatched_within(es: Seq<FileEntry>, ks: Seq<Seq<char>>, k: Seq<char>)
    ensures
        unmatched_of(es, ks).contains(k) ==> ks.contains(k),
    decreases ks.len(),
{
    if ks.len() > 0 {
        lemma_unmatched_within(es, ks.drop_last(), k);
        if unmatched_of(es, ks.drop_last()).contains(k) {
            let j = choose|j: int| 0 <= j < ks.drop_last().len() && ks.drop_last()[j] == k;
            assert(ks[j] == k);
        } else if unmatched_of(es, ks).contains(k) {
            let j = choose|j: int| 0 <= j < unmatched_of(es, ks).len() && unmatched_of(es, ks)[j] == k;
            assert(j == unmatched_of(es, ks.drop_last()).len()) by {
                if j < unmatched_of(es, ks.drop_last()).len() {
                    assert(unmatched_of(es, ks.drop_last())[j] == k);
                }
            }
            assert(ks[ks.len() - 1] == k);
        }
    }
}

/// The remote blobs to fetch before [`detect_renames`]: `(sha, path)` of
/// each unmatched remote group, see [`candidates`].
pub fn rename_candidates(entries: &Vec<FileEntry>) -> (r: Vec<(String, String)>)
    ensures
        r@.map_values(|c: (String, String)| (c.0@, c.1@)) == candidates(entries@),
{
    let lshas = side_shas_of(entries, true);
    let rshas = side_shas_of(entries, false);
    let mut out: Vec<(String, String)> = Vec::new();
    if lshas.len() == 0 || rshas.len() == 0 {
        assert(out@.map_values(|c: (String, String)| (c.0@, c.1@)) =~= candidates(entries@));
        return out;
    }
    let keys = remote_keys(entries);
    let um = unmatched_keys(entries, &keys);
    if um.len() > CASE_B_UNMATCHED_CAP {
        assert(out@.map_values(|c: (String, String)| (c.0@, c.1@)) =~= candidates(entries@));
        return out;
    }
    for i in 0..um.len()
        invariant
            views(um@) == unmatched(entries@),
            case_b_runs(entries@),
            out@.map_values(|c: (String, String)| (c.0@, c.1@)) == unmatched(entries@).take(i as int).map_values(
                |k: Seq<char>| (k, sorted_paths(bucket(entries@, false, k))[0]),
            ),
    {
        let rb = sort_strings(&bucket_of(entries, false, um[i].as_str()));
        proof {
            let k = um@[i as int]@;
            assert(unmatched(entries@)[i as int] == k);
            assert(unmatched(entries@).contains(k));
            lemma_unmatched_within(entries@, sha_keys(entries@, false), k);
            lemma_keys_have_buckets(entries@, false, k);
            lemma_sorted_paths(bucket(entries@, false, k));
        }
        let ghost before = out@;
        let item = (um[i].clone(), rb[0].clone());
        assert(item.0@ == unmatched(entries@)[i as int]);
        assert(item.1@ == sorted_paths(bucket(entries@, false, unmatched(entries@)[i as int]))[0]) by {
            assert(views(rb@)[0] == rb@[0]@);
        }
        out.push(item);
        proof {
            assert(out@ =~= before.push(item));
            assert(unmatched(entries@).take(i + 1) =~= unmatched(entries@).take(i as int).push(unmatched(entries@)[i as int]));
            let lhs = out@.map_values(|c: (String, String)| (c.0@, c.1@));
            let rhs = unmatched(entries@).take(i + 1).map_values(
                |k: Seq<char>| (k, sorted_paths(bucket(entries@, false, k))[0]),
            );
            let lhs0 = before.map_values(|c: (String, String)| (c.0@, c.1@));
            let rhs0 = unmatched(entries@).take(i as int).map_values(
                |k: Seq<char>| (k, sorted_paths(bucket(entries@, false, k))[0]),
            );
            assert(lhs0 == rhs0);
            assert(lhs0.len() == before.len());
            assert(rhs0.len() == i);
            assert(lhs.len() == out@.len());
            assert(out@.len() == before.len() + 1);
            assert(rhs.len() == i + 1);
            assert forall|k: int| 0 <= k < i + 1 implies lhs[k] == rhs[k] by {
                if k < i {
                    assert(lhs[k] == lhs0[k]);
                    assert(rhs[k] == rhs0[k]);
                }
            }
            assert(lhs =~= rhs);
        }
    }
    proof {
        assert(unmatched(entries@).take(um@.len() as int) =~= unmatched(entries@));
    }
    out
}

/// The rename hints of `entries` (see [`renames_of`]); `fetched[i]` is
/// what was fetched for the `i`-th of [`rename_candidates`] (a missing
/// item counts as a failed fetch).
pub fn detect_renames(entries: &Vec<FileEntry>, fetched: &Vec<FetchedBlob>, keep_bom: bool) -> (r: Vec<RenamePair>)
    ensures
        pair_views(r@) == renames_of(entries@, fetched@, keep_bom),
{
    let mut pairs: Vec<RenamePair> = Vec::new();
    let lshas = side_shas_of(entries, true);
    let rshas = side_shas_of(entries, false);
    if lshas.len() == 0 || rshas.len() == 0 {
        assert(pair_views(pairs@) =~= renames_of(entries@, fetched@, keep_bom));
        return pairs;
    }
    let keys = remote_keys(entries);
    for i in 0..keys.len()
        invariant
            views(keys@) == sha_keys(entries@, false),
            pair_views(pairs@) == case_a(entries@, views(keys@).take(i as int)),
    {
        proof {
            assert(views(keys@).take(i + 1).drop_last() =~= views(keys@).take(i as int));
            assert(views(keys@).take(i + 1).last() == keys@[i as int]@);
        }
        let lb = bucket_of(entries, true, keys[i].as_str());
        if lb.len() > 0 {
            let ls = sort_strings(&lb);
            let rs = sort_strings(&bucket_of(entries, false, keys[i].as_str()));
            emit_pairs(&mut pairs, &ls, &rs, keys[i].as_str(), true);
        }
        proof {
            assert(pair_views(pairs@) =~= case_a(entries@, views(keys@).take(i + 1)));
        }
    }
    proof {
        assert(views(keys@).take(keys@.len() as int) =~= views(keys@));
    }
    let ghost after_a = pair_views(pairs@);
    let um = unmatched_keys(entries, &keys);
    if um.len() > CASE_B_UNMATCHED_CAP {
        assert(pair_views(pairs@) =~= renames_of(entries@, fetched@, keep_bom));
        return pairs;
    }
    for i in 0..um.len()
        invariant
            views(um@) == unmatched(entries@),
            pair_views(pairs@) == after_a + case_b(entries@, views(um@).take(i as int), fetched@, keep_bom),
    {
        proof {
            assert(views(um@).take(i + 1).drop_last() =~= views(um@).take(i as int));
            assert(views(um@).take(i + 1).last() == um@[i as int]@);
        }
        if i < fetched.len() {
            match &fetched[i].bytes {
                Some(b) => {
                    let (prep, _bin) = prepare_for_hash(b.as_slice(), keep_bom, &fetched[i].class);
                    let h = blob_hash(prep.as_slice());
                    let lb = bucket_of(entries, true, h.as_str());
                    if lb.len() > 0 {
                        let ls = sort_strings(&lb);
                        let rs = sort_strings(&bucket_of(entries, false, um[i].as_str()));
                        emit_pairs(&mut pairs, &ls, &rs, h.as_str(), false);
                    }
                },
                None => {},
            }
        }
        proof {
            assert(pair_views(pairs@) =~= after_a + case_b(entries@, views(um@).take(i + 1), fetched@, keep_bom));
        }
    }
    proof {
        assert(views(um@).take(um@.len() as int) =~= views(um@));
        assert(pair_views(pairs@) =~= renames_of(entries@, fetched@, keep_bom));
    }
    pairs
}

/// `p` joins a locally changed path that has SHA `p.2` with a remotely
/// changed path; when `p.3` (raw equality), the remote path has SHA `p.2`
/// too.
pub open spec fn joins(es: Seq<FileEntry>, p: (Seq<char>, Seq<char>, Seq<char>, bool)) -> bool {
    &&& exists|i: int|
        0 <= i < es.len() && #[trigger] es[i].path@ == p.0 && es[i].status == Status::LocalOnlyChanged
            && opt_string_view(es[i].local_sha) == Some(p.2)
    &&& exists|j: int|
        0 <= j < es.len() && #[trigger] es[j].path@ == p.1 && es[j].status == Status::RemoteOnlyChanged
            && es[j].remote_sha is Some && (p.3 ==> opt_string_view(es[j].remote_sha) == Some(p.2))
}

/// The entry behind a path of a group.
proof fn lemma_bucket_member(es: Seq<FileEntry>, local: bool, k: Seq<char>, x: Seq<char>)
    requires
        bucket(es, local, k).contains(x),
    ensures
        exists|i: int|
            0 <= i < es.len() && #[trigger] es[i].path@ == x && grouped(es[i], local) && side_sha(es[i], local)
                == Some(k),
    decreases es.len(),
{
    let b0 = bucket(es.drop_last(), local, k);
    if b0.contains(x) {
        lemma_bucket_member(es.drop_last(), local, k, x);
        let i = choose|i: int|
            0 <= i < es.drop_last().len() && #[trigger] es.drop_last()[i].path@ == x && grouped(
                es.drop_last()[i],
                local,
            ) && side_sha(es.drop_last()[i], local) == Some(k);
        assert(es[i] == es.drop_last()[i]);
    } else {
        let j = choose|j: int| 0 <= j < bucket(es, local, k).len() && bucket(es, local, k)[j] == x;
        assert(j >= b0.len()) by {
            if j < b0.len() {
                assert(b0[j] == x);
            }
        }
        let n = es.len() - 1;
        assert(es[n].path@ == x);
    }
}

/// The entry behind a path of the sorted group.
proof fn lemma_sorted_bucket_member(es: Seq<FileEntry>, local: bool, k: Seq<char>, x: Seq<char>)
    requires
        sorted_paths(bucket(es, local, k)).contains(x),
    ensures
        exists|i: int|
            0 <= i < es.len() && #[trigger] es[i].path@ == x && grouped(es[i], local) && side_sha(es[i], local)
                == Some(k),
{
    lemma_sorted_paths(bucket(es, local, k));
    lemma_bucket_member(es, local, k, x);
}

/// Each pair of `cross(from, to, sha, raw_equal)` takes its `from` from
/// `from` and its `to` from `to`.
proof fn lemma_cross_member(from: Seq<Seq<char>>, to: Seq<Seq<char>>, sha: Seq<char>, raw_equal: bool, n: int)
    requires
        0 <= n < cross(from, to, sha, raw_equal).len(),
    ensures
        from.contains(cross(from, to, sha, raw_equal)[n].0),
        to.contains(cross(from, to, sha, raw_equal)[n].1),
        cross(from, to, sha, raw_equal)[n].2 == sha,
        cross(from, to, sha, raw_equal)[n].3 == raw_equal,
    decreases from.len(),
{
    let c0 = cross(from.drop_last(), to, sha, raw_equal);
    let tail = to.map_values(|t: Seq<char>| (from.last(), t, sha, raw_equal));
    assert(cross(from, to, sha, raw_equal) == c0 + tail);
    if n < c0.len() {
        lemma_cross_member(from.drop_last(), to, sha, raw_equal, n);
        assert(cross(from, to, sha, raw_equal)[n] == c0[n]);
        let x = c0[n].0;
        let i = choose|i: int| 0 <= i < from.drop_last().len() && from.drop_last()[i] == x;
        assert(from[i] == x);
    } else {
        assert(cross(from, to, sha, raw_equal)[n] == tail[n - c0.len()]);
        assert(from[from.len() - 1] == from.last());
        assert(to[n - c0.len()] == tail[n - c0.len()].1);
    }
}

/// A group pair built from the local group of `lk` and the remote group of
/// `rk` joins matching entries.
proof fn lemma_group_cross_joins(es: Seq<FileEntry>, lk: Seq<char>, rk: Seq<char>, raw_equal: bool, n: int)
    requires
        0 <= n < cross(sorted_paths(bucket(es, true, lk)), sorted_paths(bucket(es, false, rk)), lk, raw_equal).len(),
        raw_equal ==> rk == lk,
    ensures
        joins(es, cross(sorted_paths(bucket(es, true, lk)), sorted_paths(bucket(es, false, rk)), lk, raw_equal)[n]),
{
    let p = cross(sorted_paths(bucket(es, true, lk)), sorted_paths(bucket(es, false, rk)), lk, raw_equal)[n];
    lemma_cross_member(sorted_paths(bucket(es, true, lk)), sorted_paths(bucket(es, false, rk)), lk, raw_equal, n);
    lemma_sorted_bucket_member(es, true, lk, p.0);
    lemma_sorted_bucket_member(es, false, rk, p.1);
    let i = choose|i: int|
        0 <= i < es.len() && #[trigger] es[i].path@ == p.0 && grouped(es[i], true) && side_sha(es[i], true)
            == Some(lk);
    let j = choose|j: int|
        0 <= j < es.len() && #[trigger] es[j].path@ == p.1 && grouped(es[j], false) && side_sha(es[j], false)
            == Some(rk);
    assert(es[i].path@ == p.0);
    assert(es[j].path@ == p.1);
}

/// Every same-SHA pair joins matching entries.
proof fn lemma_case_a_joins(es: Seq<FileEntry>, ks: Seq<Seq<char>>, n: int)
    requires
        0 <= n < case_a(es, ks).len(),
    ensures
        joins(es, case_a(es, ks)[n]),
    decreases ks.len(),
{
    let c0 = case_a(es, ks.drop_last());
    let k = ks.last();
    let tail = if bucket(es, true, k).len() > 0 {
        cross(sorted_paths(bucket(es, true, k)), sorted_paths(bucket(es, false, k)), k, true)
    } else {
        Seq::empty()
    };
    assert(case_a(es, ks) == c0 + tail);
    if n < c0.len() {
        lemma_case_a_joins(es, ks.drop_last(), n);
        assert(case_a(es, ks)[n] == c0[n]);
    } else {
        assert(case_a(es, ks)[n] == tail[n - c0.len()]);
        lemma_group_cross_joins(es, k, k, true, n - c0.len());
    }
}

/// Every normalized pair joins matching entries.
proof fn lemma_case_b_joins(es: Seq<FileEntry>, us: Seq<Seq<char>>, f: Seq<FetchedBlob>, keep_bom: bool, n: int)
    requires
        0 <= n < case_b(es, us, f, keep_bom).len(),
    ensures
        joins(es, case_b(es, us, f, keep_bom)[n]),
    decreases us.len(),
{
    let c0 = case_b(es, us.drop_last(), f, keep_bom);
    let tail = match fetched_id(f, us.len() - 1, keep_bom) {
        Some(h) => if bucket(es, true, h).len() > 0 {
            cross(sorted_paths(bucket(es, true, h)), sorted_paths(bucket(es, false, us.last())), h, false)
        } else {
            Seq::empty()
        },
        None => Seq::empty(),
    };
    assert(case_b(es, us, f, keep_bom) == c0 + tail);
    if n < c0.len() {
        lemma_case_b_joins(es, us.drop_last(), f, keep_bom, n);
        assert(case_b(es, us, f, keep_bom)[n] == c0[n]);
    } else {
        assert(case_b(es, us, f, keep_bom)[n] == tail[n - c0.len()]);
        let h = fetched_id(f, us.len() - 1, keep_bom)->0;
        lemma_group_cross_joins(es, h, us.last(), false, n - c0.len());
    }
}

/// Every rename hint joins a locally changed path carrying the hint's SHA
/// with a remotely changed path, which carries that SHA too when the hint
/// says the raw contents are equal.
pub proof fn law_rename_pairs_join_changed_paths(es: Seq<FileEntry>, f: Seq<FetchedBlob>, keep_bom: bool)
    ensures
        forall|n: int| 0 <= n < renames_of(es, f, keep_bom).len() ==> joins(es, #[trigger] renames_of(es, f, keep_bom)[n]),
{
    assert forall|n: int| 0 <= n < renames_of(es, f, keep_bom).len() implies joins(es, #[trigger] renames_of(es, f, keep_bom)[n]) by {
        if both_sides_grouped(es) {
            let a = case_a(es, sha_keys(es, false));
            let b = if case_b_runs(es) {
                case_b(es, unmatched(es), f, keep_bom)
            } else {
                Seq::empty()
            };
            assert(renames_of(es, f, keep_bom) == a + b);
            if n < a.len() {
                lemma_case_a_joins(es, sha_keys(es, false), n);
                assert(renames_of(es, f, keep_bom)[n] == a[n]);
            } else {
                assert(renames_of(es, f, keep_bom)[n] == b[n - a.len()]);
                lemma_case_b_joins(es, unmatched(es), f, keep_bom, n - a.len());
            }
        }
    }
}

} // verus!
