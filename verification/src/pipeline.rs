//! The per-path passes of a scan: the failure cascade that short-circuits
//! a path before hashing, the pre-entries built from the hash outcome, and
//! their classification into report rows with the summary counts.

use vstd::prelude::*;
use vstd::string::StringSliceAdditionalSpecFns;

use crate::compare::{
    classify, compare, opt_string_view, spec_classify, spec_compare, FailedReason, FileEntry,
    LfsPointer, Presence, Status,
};
use crate::gitattributes::AttributeMatch;
use crate::lfs::placeholder_pointer_for;
use crate::long_path::{invalid_path, is_invalid};
use crate::size_gate::{spec_size_gate, try_remote_size_gate, RemoteFile};
use crate::text::{chars_of, contains_string, has_string, str_is};
use crate::timestamp::Timestamp;

verus! {

/// One file found by the local walk.
#[derive(Debug, Clone)]
pub struct LocalFile {
    /// Comparison key: relative, forward-slash, NFC-normalized.
    pub relative_path: String,
    /// Where the walk found the file, as the file system names it (its
    /// name may be stored in another normalization form than the key).
    pub absolute_path: String,
    pub mtime: Timestamp,
    /// The entry is a symbolic link (not followed).
    pub is_symlink: bool,
}

/// Pre-computed collision sets the cascade consults.
#[derive(Debug, Clone)]
pub struct ClassifyContext {
    pub case_collisions: Vec<String>,
    pub nfd_collisions: Vec<String>,
}

/// Mode a failed entry reports when no canonical mode applies: the remote
/// tree mode, or `100644` for a local-only path.
pub open spec fn default_mode(remote: Option<RemoteFile>) -> Seq<char> {
    match remote {
        Some(r) => r.mode@,
        None => "100644"@,
    }
}

/// The failure cascade, highest priority first: NFD collision, case
/// collision, long path / reserved name, submodule (`160000`), symlink
/// (`120000` remote mode or a local link), LFS pointer, unsupported
/// `.gitattributes`. `None` when the path goes on to hashing.
pub open spec fn spec_short_circuit(
    path: Seq<char>,
    path_bytes: Seq<u8>,
    local: Option<LocalFile>,
    remote: Option<RemoteFile>,
    cctx: ClassifyContext,
    class: AttributeMatch,
) -> Option<(Seq<char>, FailedReason)> {
    if has_string(cctx.nfd_collisions@, path) {
        Some((default_mode(remote), FailedReason::NfdCollision))
    } else if has_string(cctx.case_collisions@, path) {
        Some((default_mode(remote), FailedReason::CaseCollision))
    } else if invalid_path(path_bytes) {
        Some((default_mode(remote), FailedReason::LongPath))
    } else if remote matches Some(r) && r.mode@ == "160000"@ {
        Some(("160000"@, FailedReason::Submodule))
    } else if (remote matches Some(r) && r.mode@ == "120000"@) || (local matches Some(l)
        && l.is_symlink) {
        Some(("120000"@, FailedReason::Symlink))
    } else if class is LfsPointer {
        Some((default_mode(remote), FailedReason::LfsPointer))
    } else if class is Unsupported {
        Some((default_mode(remote), FailedReason::GitattributesUnsupported))
    } else {
        None
    }
}

/// The view of an optional mode / reason pair.
pub open spec fn short_view(r: Option<(String, FailedReason)>) -> Option<(Seq<char>, FailedReason)> {
    match r {
        Some((m, f)) => Some((m@, f)),
        None => None,
    }
}

fn mode_of(remote: Option<&RemoteFile>) -> (m: String)
    ensures
        m@ == default_mode(match remote {
            Some(r) => Some(*r),
            None => None,
        }),
{
    match remote {
        Some(r) => r.mode.clone(),
        None => "100644".to_owned(),
    }
}

/// Cascade dispatch (see [`spec_short_circuit`]).
pub fn try_short_circuit_failed(
    path: &str,
    local: Option<&LocalFile>,
    remote: Option<&RemoteFile>,
    cctx: &ClassifyContext,
    class: &AttributeMatch,
) -> (r: Option<(String, FailedReason)>)
    ensures
        short_view(r) == spec_short_circuit(
            path@,
            path.spec_bytes(),
            match local {
                Some(l) => Some(*l),
                None => None,
            },
            match remote {
                Some(f) => Some(*f),
                None => None,
            },
            *cctx,
            *class,
        ),
{
    let pc = chars_of(path);
    if contains_string(&cctx.nfd_collisions, &pc) {
        Some((mode_of(remote), FailedReason::NfdCollision))
    } else if contains_string(&cctx.case_collisions, &pc) {
        Some((mode_of(remote), FailedReason::CaseCollision))
    } else if is_invalid(path) {
        Some((mode_of(remote), FailedReason::LongPath))
    } else if match remote {
        Some(r) => str_is(r.mode.as_str(), "160000"),
        None => false,
    } {
        Some(("160000".to_owned(), FailedReason::Submodule))
    } else if match remote {
        Some(r) => str_is(r.mode.as_str(), "120000"),
        None => false,
    } || match local {
        Some(l) => l.is_symlink,
        None => false,
    } {
        Some(("120000".to_owned(), FailedReason::Symlink))
    } else {
        match class {
            AttributeMatch::LfsPointer => Some((mode_of(remote), FailedReason::LfsPointer)),
            AttributeMatch::Unsupported { .. } => Some(
                (mode_of(remote), FailedReason::GitattributesUnsupported),
            ),
            _ => None,
        }
    }
}

/// Which sides hold a path (at least one does).
pub fn presence_of(local: bool, remote: bool) -> (p: Presence)
    requires
        local || remote,
    ensures
        local && remote ==> p == Presence::Both,
        local && !remote ==> p == Presence::LocalOnly,
        !local && remote ==> p == Presence::RemoteOnly,
{
    if local && remote {
        Presence::Both
    } else if local {
        Presence::LocalOnly
    } else {
        Presence::RemoteOnly
    }
}

} // verus!

verus! {

/// Per-path intermediate state: short-circuited (no hash) or hashed.
#[derive(Debug, Clone)]
pub enum PreState {
    Failed {
        remote_sha: Option<String>,
        local_mtime: Option<Timestamp>,
        failed_reason: Option<FailedReason>,
        is_binary: bool,
        size_bytes: Option<u64>,
    },
    Hashed {
        local_sha: Option<String>,
        remote_sha: Option<String>,
        local_mtime: Option<Timestamp>,
        is_binary: bool,
    },
}

/// A path with its mode, presence and intermediate state.
#[derive(Debug, Clone)]
pub struct PreEntry {
    pub path: String,
    pub mode: String,
    pub presence: Presence,
    pub state: PreState,
}

/// What hashing the local file gave.
#[derive(Debug, Clone)]
pub enum LocalHash {
    /// The git blob id of the prepared bytes, and the binary flag.
    Hashed { sha: String, is_binary: bool },
    /// Size or encoding failure found while hashing.
    Failed { reason: FailedReason, is_binary: bool, size_bytes: Option<u64> },
    /// The file could not be read.
    IoError,
}

/// Outcome of the checks that need no local read.
#[derive(Debug, Clone)]
pub enum PreStep {
    /// The entry is decided.
    Done(PreEntry),
    /// The local file must be hashed (see [`finish_pre_entry`]).
    NeedsLocalHash,
}

/// The remote SHA of an optional remote file.
pub open spec fn remote_sha_of(remote: Option<RemoteFile>) -> Option<Seq<char>> {
    match remote {
        Some(r) => Some(r.sha@),
        None => None,
    }
}

/// The mtime of an optional local file.
pub open spec fn mtime_of(local: Option<LocalFile>) -> Option<Timestamp> {
    match local {
        Some(l) => Some(l.mtime),
        None => None,
    }
}

/// The presence of a path from which sides hold it.
pub open spec fn spec_presence(local: bool, remote: bool) -> Presence {
    if local && remote {
        Presence::Both
    } else if local {
        Presence::LocalOnly
    } else {
        Presence::RemoteOnly
    }
}

/// `pre` is a failed entry of `path` with these facts.
pub open spec fn failed_pre(
    pre: PreEntry,
    path: Seq<char>,
    mode: Seq<char>,
    presence: Presence,
    remote_sha: Option<Seq<char>>,
    local_mtime: Option<Timestamp>,
    reason: FailedReason,
    is_binary: bool,
    size_bytes: Option<u64>,
) -> bool {
    &&& pre.path@ == path
    &&& pre.mode@ == mode
    &&& pre.presence == presence
    &&& pre.state matches PreState::Failed {
        remote_sha: rs,
        local_mtime: lm,
        failed_reason: fr,
        is_binary: b,
        size_bytes: sb,
    }
    &&& opt_string_view(rs) == remote_sha && lm == local_mtime && fr == Some(reason) && b
        == is_binary && sb == size_bytes
}

/// `pre` is a hashed entry of `path` with these facts.
pub open spec fn hashed_pre(
    pre: PreEntry,
    path: Seq<char>,
    mode: Seq<char>,
    presence: Presence,
    local_sha: Option<Seq<char>>,
    remote_sha: Option<Seq<char>>,
    local_mtime: Option<Timestamp>,
    is_binary: bool,
) -> bool {
    &&& pre.path@ == path
    &&& pre.mode@ == mode
    &&& pre.presence == presence
    &&& pre.state matches PreState::Hashed {
        local_sha: ls,
        remote_sha: rs,
        local_mtime: lm,
        is_binary: b,
    }
    &&& opt_string_view(ls) == local_sha && opt_string_view(rs) == remote_sha && lm == local_mtime
        && b == is_binary
}

/// Optional reference to optional value.
pub open spec fn deref_opt<T>(o: Option<&T>) -> Option<T> {
    match o {
        Some(x) => Some(*x),
        None => None,
    }
}

fn remote_sha_clone(remote: Option<&RemoteFile>) -> (r: Option<String>)
    ensures
        opt_string_view(r) == remote_sha_of(deref_opt(remote)),
{
    match remote {
        Some(f) => Some(f.sha.clone()),
        None => None,
    }
}

fn mtime_clone(local: Option<&LocalFile>) -> (r: Option<Timestamp>)
    ensures
        r == mtime_of(deref_opt(local)),
{
    match local {
        Some(l) => Some(l.mtime),
        None => None,
    }
}

/// `r` is the decision for `path` before any local read, in order: the
/// failure cascade (mode as the cascade gives it, no binary measurement),
/// then the remote size gate (remote mode), then a remote-only path is
/// hashed with no local SHA; otherwise the local file must be hashed.
pub open spec fn decided_step(
    path: Seq<char>,
    l: Option<LocalFile>,
    f: Option<RemoteFile>,
    cctx: ClassifyContext,
    class: AttributeMatch,
    r: PreStep,
) -> bool {
    let presence = spec_presence(l is Some, f is Some);
    let sc = spec_short_circuit(path, vstd::utf8::encode_utf8(path), l, f, cctx, class);
    let n = (f->0).size->0;
    if sc is Some {
        r matches PreStep::Done(pre) && failed_pre(
            pre,
            path,
            (sc->0).0,
            presence,
            remote_sha_of(f),
            mtime_of(l),
            (sc->0).1,
            false,
            None,
        )
    } else if f is Some && (f->0).size is Some && spec_size_gate(n) is Some {
        r matches PreStep::Done(pre) && failed_pre(
            pre,
            path,
            default_mode(f),
            presence,
            remote_sha_of(f),
            mtime_of(l),
            (spec_size_gate(n)->0).0,
            false,
            Some(n),
        )
    } else if l is None {
        r matches PreStep::Done(pre) && hashed_pre(
            pre,
            path,
            default_mode(f),
            presence,
            None,
            remote_sha_of(f),
            None,
            false,
        )
    } else {
        r is NeedsLocalHash
    }
}

/// The checks before any local read (see [`decided_step`]). At least one
/// side holds the path.
pub fn build_one_pre_entry(
    path: &str,
    local: Option<&LocalFile>,
    remote: Option<&RemoteFile>,
    cctx: &ClassifyContext,
    class: &AttributeMatch,
) -> (r: PreStep)
    requires
        local is Some || remote is Some,
    ensures
        decided_step(path@, deref_opt(local), deref_opt(remote), *cctx, *class, r),
{
    let presence = presence_of(local.is_some(), remote.is_some());
    if let Some((mode, reason)) = try_short_circuit_failed(path, local, remote, cctx, class) {
        let state = PreState::Failed {
            remote_sha: remote_sha_clone(remote),
            local_mtime: mtime_clone(local),
            failed_reason: Some(reason),
            is_binary: false,
            size_bytes: None,
        };
        return PreStep::Done(PreEntry { path: path.to_owned(), mode, presence, state });
    }
    let mode = mode_of(remote);
    if let Some((reason, n)) = try_remote_size_gate(remote) {
        let state = PreState::Failed {
            remote_sha: remote_sha_clone(remote),
            local_mtime: mtime_clone(local),
            failed_reason: Some(reason),
            is_binary: false,
            size_bytes: Some(n),
        };
        return PreStep::Done(PreEntry { path: path.to_owned(), mode, presence, state });
    }
    match local {
        None => {
            let state = PreState::Hashed {
                local_sha: None,
                remote_sha: remote_sha_clone(remote),
                local_mtime: None,
                is_binary: false,
            };
            PreStep::Done(PreEntry { path: path.to_owned(), mode, presence, state })
        },
        Some(_) => PreStep::NeedsLocalHash,
    }
}

/// `pre` is the entry of `path` whose local file `local` was hashed with
/// `outcome`: a size or encoding failure keeps its reason, binary flag and
/// size; a read error is a `HashIo` failure; otherwise the entry is hashed
/// with the local SHA. The mode is the remote tree mode (`100644` for a
/// local-only path).
pub open spec fn finished(path: Seq<char>, local: LocalFile, f: Option<RemoteFile>, outcome: LocalHash, pre: PreEntry) -> bool {
    let presence = spec_presence(true, f is Some);
    match outcome {
        LocalHash::Failed { reason, is_binary, size_bytes } => failed_pre(
            pre,
            path,
            default_mode(f),
            presence,
            remote_sha_of(f),
            Some(local.mtime),
            reason,
            is_binary,
            size_bytes,
        ),
        LocalHash::IoError => failed_pre(
            pre,
            path,
            default_mode(f),
            presence,
            remote_sha_of(f),
            Some(local.mtime),
            FailedReason::HashIo,
            false,
            None,
        ),
        LocalHash::Hashed { sha, is_binary } => hashed_pre(
            pre,
            path,
            default_mode(f),
            presence,
            Some(sha@),
            remote_sha_of(f),
            Some(local.mtime),
            is_binary,
        ),
    }
}

/// The entry of a path whose local file was hashed (see [`finished`]).
pub fn finish_pre_entry(path: &str, local: &LocalFile, remote: Option<&RemoteFile>, outcome: LocalHash) -> (pre: PreEntry)
    ensures
        finished(path@, *local, deref_opt(remote), outcome, pre),
{
    let presence = presence_of(true, remote.is_some());
    let mode = mode_of(remote);
    let state = match outcome {
        LocalHash::Failed { reason, is_binary, size_bytes } => PreState::Failed {
            remote_sha: remote_sha_clone(remote),
            local_mtime: Some(local.mtime),
            failed_reason: Some(reason),
            is_binary,
            size_bytes,
        },
        LocalHash::IoError => PreState::Failed {
            remote_sha: remote_sha_clone(remote),
            local_mtime: Some(local.mtime),
            failed_reason: Some(FailedReason::HashIo),
            is_binary: false,
            size_bytes: None,
        },
        LocalHash::Hashed { sha, is_binary } => PreState::Hashed {
            local_sha: Some(sha),
            remote_sha: remote_sha_clone(remote),
            local_mtime: Some(local.mtime),
            is_binary,
        },
    };
    PreEntry { path: path.to_owned(), mode, presence, state }
}

} // verus!

verus! {

/// `b` starts with a UTF-16 byte order mark (`FF FE` or `FE FF`).
pub open spec fn has_utf16_bom(b: Seq<u8>) -> bool {
    b.len() >= 2 && ((b[0] == 0xFF && b[1] == 0xFE) || (b[0] == 0xFE && b[1] == 0xFF))
}

/// The local size pre-flight: a file over 50 MB fails before any read,
/// with no binary measurement and its size.
pub fn local_hash_from_size(size: u64) -> (r: Option<LocalHash>)
    ensures
        spec_size_gate(size) is None ==> r is None,
        spec_size_gate(size) matches Some((reason, n)) ==> (r matches Some(LocalHash::Failed {
            reason: r2,
            is_binary,
            size_bytes,
        }) && r2 == reason && !is_binary && size_bytes == Some(n)),
{
    match crate::size_gate::try_size_gate(size) {
        Some((reason, n)) => Some(LocalHash::Failed { reason, is_binary: false, size_bytes: Some(n) }),
        None => None,
    }
}

/// Hash the bytes of a local file: a UTF-16 byte order mark is an
/// `Encoding` failure (binary flag from the raw bytes); otherwise the git
/// blob id of the prepared bytes (see [`prepared`](crate::normalize::prepared)).
pub fn local_hash_from_bytes(raw: &[u8], keep_bom: bool, class: &AttributeMatch) -> (r: LocalHash)
    ensures
        has_utf16_bom(raw@) ==> (r matches LocalHash::Failed { reason, is_binary, size_bytes }
            && reason == FailedReason::Encoding && is_binary == crate::normalize::looks_binary(raw@)
            && size_bytes is None),
        !has_utf16_bom(raw@) ==> (r matches LocalHash::Hashed { sha, is_binary } && sha@
            == crate::normalize::git_blob_id(crate::normalize::prepared(raw@, keep_bom, *class).0)
            && is_binary == crate::normalize::prepared(raw@, keep_bom, *class).1),
{
    if raw.len() >= 2 && ((raw[0] == 0xFF && raw[1] == 0xFE) || (raw[0] == 0xFE && raw[1] == 0xFF)) {
        return LocalHash::Failed {
            reason: FailedReason::Encoding,
            is_binary: crate::normalize::is_binary(raw),
            size_bytes: None,
        };
    }
    let (prepared, bin) = crate::normalize::prepare_for_hash(raw, keep_bom, class);
    LocalHash::Hashed { sha: crate::normalize::blob_hash(prepared.as_slice()), is_binary: bin }
}

/// The entry needs a last-commit lookup: hashed, both SHAs present and
/// different.
pub open spec fn needs_commit(pre: PreEntry) -> bool {
    pre.state matches PreState::Hashed { local_sha: Some(l), remote_sha: Some(r), .. } && l@ != r@
}

/// The predicate [`needs_commit`].
pub open spec fn commit_selector() -> spec_fn(PreEntry) -> bool {
    |p: PreEntry| needs_commit(p)
}

fn differing_shas(state: &PreState) -> (r: bool)
    ensures
        r == (*state matches PreState::Hashed { local_sha: Some(l), remote_sha: Some(r), .. } && l@
            != r@),
{
    match state {
        PreState::Hashed { local_sha: Some(l), remote_sha: Some(r), .. } => !crate::text::chars_eq(
            &chars_of(l.as_str()),
            &chars_of(r.as_str()),
        ),
        _ => false,
    }
}

/// Paths, in order, that need a last-commit lookup (hashed, both SHAs
/// present and different); identical, one-sided and failed entries do not.
pub fn extract_commit_paths(pending: &Vec<PreEntry>) -> (r: Vec<String>)
    ensures
        r@.len() == pending@.filter(commit_selector()).len(),
        forall|i: int| 0 <= i < r@.len() ==> r@[i]@ == pending@.filter(commit_selector())[i].path@,
{
    let ghost pred = commit_selector();
    let mut out: Vec<String> = Vec::new();
    for i in 0..pending.len()
        invariant
            pred == commit_selector(),
            out@.len() == pending@.take(i as int).filter(pred).len(),
            forall|j: int| 0 <= j < out@.len() ==> out@[j]@ == pending@.take(i as int).filter(pred)[j].path@,
    {
        proof {
            reveal_with_fuel(Seq::<_>::filter, 1);
            assert(pending@.take(i + 1).drop_last() =~= pending@.take(i as int));
            assert(pending@.take(i + 1).last() == pending@[i as int]);
        }
        if differing_shas(&pending[i].state) {
            out.push(pending[i].path.clone());
        }
    }
    assert(pending@.take(pending@.len() as int) =~= pending@);
    out
}

} // verus!

verus! {

/// Value of the first pair keyed by `p`.
pub open spec fn lookup<V>(m: Seq<(String, V)>, p: Seq<char>) -> Option<V>
    decreases m.len(),
{
    if m.len() == 0 {
        None
    } else {
        match lookup(m.drop_last(), p) {
            Some(v) => Some(v),
            None => if m.last().0@ == p {
                Some(m.last().1)
            } else {
                None
            },
        }
    }
}

/// Value of the first pair keyed by `p`.
pub fn find_value<V: Copy>(m: &Vec<(String, V)>, p: &str) -> (r: Option<V>)
    ensures
        r == lookup(m@, p@),
{
    let pc = chars_of(p);
    let mut found: Option<V> = None;
    for i in 0..m.len()
        invariant
            pc@ == p@,
            found == lookup(m@.take(i as int), p@),
    {
        proof {
            assert(m@.take(i + 1).drop_last() =~= m@.take(i as int));
            assert(m@.take(i + 1).last() == m@[i as int]);
        }
        if found.is_none() && crate::text::chars_eq(&chars_of(m[i].0.as_str()), &pc) {
            found = Some(m[i].1);
        }
    }
    assert(m@.take(m@.len() as int) =~= m@);
    found
}

/// Counts of each status in the report.
#[derive(Debug, Clone, Copy, PartialEq, Eq, Structural)]
pub struct Summary {
    pub identical: usize,
    pub local_only_changed: usize,
    pub remote_only_changed: usize,
    pub drift: usize,
    pub failed: usize,
}

/// Number of entries with status `s`.
pub open spec fn count_status(es: Seq<FileEntry>, s: Status) -> nat
    decreases es.len(),
{
    if es.len() == 0 {
        0
    } else {
        count_status(es.drop_last(), s) + if es.last().status == s {
            1nat
        } else {
            0nat
        }
    }
}

/// A status count never exceeds the number of entries.
pub proof fn lemma_count_le_len(es: Seq<FileEntry>, s: Status)
    ensures
        count_status(es, s) <= es.len(),
    decreases es.len(),
{
    if es.len() > 0 {
        lemma_count_le_len(es.drop_last(), s);
    }
}

/// `sum` counts, per status, the entries of `es`.
pub open spec fn summarizes(sum: Summary, es: Seq<FileEntry>) -> bool {
    &&& sum.identical == count_status(es, Status::Identical)
    &&& sum.local_only_changed == count_status(es, Status::LocalOnlyChanged)
    &&& sum.remote_only_changed == count_status(es, Status::RemoteOnlyChanged)
    &&& sum.drift == count_status(es, Status::Drift)
    &&& sum.failed == count_status(es, Status::Failed)
}

/// A hashed pre-entry holds the path on at least one side.
pub open spec fn wf_pre(p: PreEntry) -> bool {
    p.state matches PreState::Hashed { local_sha, remote_sha, .. } ==> (local_sha is Some
        || remote_sha is Some)
}

/// `e` is the report row of `pre`, given the last-commit and normalize-equal
/// lookups. A failed pre-entry keeps its facts, has no local SHA, commit
/// time or `diff_meaningful`, and carries the LFS placeholder exactly for
/// the LFS reason; a hashed one is classified and compared with the
/// looked-up commit time and normalize hint.
pub open spec fn finalized(
    pre: PreEntry,
    e: FileEntry,
    commits: Seq<(String, Timestamp)>,
    norm: Seq<(String, bool)>,
) -> bool {
    &&& e.path@ == pre.path@
    &&& e.mode@ == pre.mode@
    &&& e.presence == pre.presence
    &&& match pre.state {
        PreState::Failed { remote_sha, local_mtime, failed_reason, is_binary, size_bytes } => {
            &&& e.status == Status::Failed
            &&& e.local_sha is None
            &&& opt_string_view(e.remote_sha) == opt_string_view(remote_sha)
            &&& e.local_mtime == local_mtime
            &&& e.remote_last_commit_at is None
            &&& e.is_binary == is_binary
            &&& e.diff_meaningful is None
            &&& e.failed_reason == failed_reason
            &&& (failed_reason == Some(FailedReason::LfsPointer) ==> (e.lfs_pointer matches Some(
                lp,
            ) && lp.oid@ == "?"@ && lp.size == 0))
            &&& (failed_reason != Some(FailedReason::LfsPointer) ==> e.lfs_pointer is None)
            &&& e.size_bytes == size_bytes
        },
        PreState::Hashed { local_sha, remote_sha, local_mtime, is_binary } => {
            let commit = lookup(commits, pre.path@);
            let ne = lookup(norm, pre.path@);
            &&& e.status == spec_classify(
                opt_string_view(local_sha),
                opt_string_view(remote_sha),
                local_mtime,
                commit,
                ne,
            )
            &&& e.diff_meaningful == spec_compare(
                opt_string_view(local_sha),
                opt_string_view(remote_sha),
                ne,
            ).1
            &&& opt_string_view(e.local_sha) == opt_string_view(local_sha)
            &&& opt_string_view(e.remote_sha) == opt_string_view(remote_sha)
            &&& e.local_mtime == local_mtime
            &&& e.remote_last_commit_at == commit
            &&& e.is_binary == is_binary
            &&& e.failed_reason is None
            &&& e.lfs_pointer is None
            &&& e.size_bytes is None
        },
    }
}

fn opt_as_str(o: &Option<String>) -> (r: Option<&str>)
    ensures
        crate::compare::opt_view(r) == opt_string_view(*o),
{
    match o {
        Some(s) => Some(s.as_str()),
        None => None,
    }
}

/// Report row of one pre-entry (see [`finalized`]).
pub fn pre_entry_to_file(
    pre: PreEntry,
    commits: &Vec<(String, Timestamp)>,
    norm: &Vec<(String, bool)>,
) -> (e: FileEntry)
    requires
        wf_pre(pre),
    ensures
        finalized(pre, e, commits@, norm@),
{
    let ghost g = pre;
    let PreEntry { path, mode, presence, state } = pre;
    match state {
        PreState::Failed { remote_sha, local_mtime, failed_reason, is_binary, size_bytes } => {
            FileEntry {
                path,
                status: Status::Failed,
                presence,
                local_sha: None,
                remote_sha,
                local_mtime,
                remote_last_commit_at: None,
                is_binary,
                mode,
                diff_meaningful: None,
                failed_reason,
                lfs_pointer: placeholder_pointer_for(failed_reason),
                size_bytes,
            }
        },
        PreState::Hashed { local_sha, remote_sha, local_mtime, is_binary } => {
            let commit = find_value(commits, path.as_str());
            let ne = find_value(norm, path.as_str());
            let status = classify(
                opt_as_str(&local_sha),
                opt_as_str(&remote_sha),
                local_mtime,
                commit,
                ne,
            );
            let (_, dm) = compare(opt_as_str(&local_sha), opt_as_str(&remote_sha), ne);
            FileEntry {
                path,
                status,
                presence,
                local_sha,
                remote_sha,
                local_mtime,
                remote_last_commit_at: commit,
                is_binary,
                mode,
                diff_meaningful: dm,
                failed_reason: None,
                lfs_pointer: None,
                size_bytes: None,
            }
        },
    }
}

impl Summary {
    /// All counts zero.
    pub fn new() -> (s: Summary)
        ensures
            s == (Summary {
                identical: 0,
                local_only_changed: 0,
                remote_only_changed: 0,
                drift: 0,
                failed: 0,
            }),
    {
        Summary { identical: 0, local_only_changed: 0, remote_only_changed: 0, drift: 0, failed: 0 }
    }
}

/// Classify every pre-entry, in order, and count the statuses. The third
/// value is the number of failed entries.
pub fn finalize_entries(
    pending: Vec<PreEntry>,
    commits: &Vec<(String, Timestamp)>,
    norm: &Vec<(String, bool)>,
) -> (r: (Vec<FileEntry>, Summary, usize))
    requires
        forall|i: int| 0 <= i < pending@.len() ==> wf_pre(#[trigger] pending@[i]),
    ensures
        r.0@.len() == pending@.len(),
        forall|i: int|
            0 <= i < pending@.len() ==> finalized(pending@[i], #[trigger] r.0@[i], commits@, norm@),
        summarizes(r.1, r.0@),
        r.2 == r.1.failed,
{
    let ghost all = pending@;
    let n = pending.len();
    assert(all.len() == n);
    let mut entries: Vec<FileEntry> = Vec::new();
    let mut sum = Summary::new();
    for pre in it: pending
        invariant
            it.seq() == all,
            all.len() <= usize::MAX,
            forall|i: int| 0 <= i < all.len() ==> wf_pre(#[trigger] all[i]),
            entries@.len() == it.index(),
            it.index() <= all.len(),
            forall|i: int|
                0 <= i < entries@.len() ==> finalized(all[i], #[trigger] entries@[i], commits@, norm@),
            summarizes(sum, entries@),
    {
        let ghost i = it.index() as int;
        assert(pre == all[i]);
        let e = pre_entry_to_file(pre, commits, norm);
        let ghost before = entries@;
        proof {
            lemma_count_le_len(before, e.status);
        }
        match e.status {
            Status::Identical => {
                sum.identical = sum.identical + 1;
            },
            Status::LocalOnlyChanged => {
                sum.local_only_changed = sum.local_only_changed + 1;
            },
            Status::RemoteOnlyChanged => {
                sum.remote_only_changed = sum.remote_only_changed + 1;
            },
            Status::Drift => {
                sum.drift = sum.drift + 1;
            },
            Status::Failed => {
                sum.failed = sum.failed + 1;
            },
        }
        entries.push(e);
        proof {
            assert(entries@.drop_last() =~= before);
        }
    }
    (entries, sum, sum.failed)
}

} // verus!

verus! {

/// A hashed entry whose SHAs differ: its remote blob is fetched to check
/// whether the difference is cosmetic.
#[derive(Debug, Clone)]
pub struct NormalizeTarget {
    pub path: String,
    pub local_sha: String,
    pub remote_sha: String,
}

/// The predicate "needs a normalize-equal check", the same entries as
/// [`needs_commit`].
pub open spec fn target_of(pre: PreEntry, t: NormalizeTarget) -> bool {
    &&& t.path@ == pre.path@
    &&& pre.state matches PreState::Hashed { local_sha: Some(l), remote_sha: Some(r), .. }
    &&& t.local_sha@ == l@
    &&& t.remote_sha@ == r@
}

/// The entries, in order, whose differing SHAs call for a remote blob fetch
/// and a normalize-equal check.
pub fn normalize_targets(pending: &Vec<PreEntry>) -> (r: Vec<NormalizeTarget>)
    ensures
        r@.len() == pending@.filter(commit_selector()).len(),
        forall|i: int| 0 <= i < r@.len() ==> target_of(pending@.filter(commit_selector())[i], #[trigger] r@[i]),
{
    let ghost pred = commit_selector();
    let mut out: Vec<NormalizeTarget> = Vec::new();
    for i in 0..pending.len()
        invariant
            pred == commit_selector(),
            out@.len() == pending@.take(i as int).filter(pred).len(),
            forall|j: int| 0 <= j < out@.len() ==> target_of(pending@.take(i as int).filter(pred)[j], #[trigger] out@[j]),
    {
        proof {
            reveal_with_fuel(Seq::<_>::filter, 1);
            assert(pending@.take(i + 1).drop_last() =~= pending@.take(i as int));
            assert(pending@.take(i + 1).last() == pending@[i as int]);
        }
        let pre = &pending[i];
        if differing_shas(&pre.state) {
            match &pre.state {
                PreState::Hashed { local_sha: Some(l), remote_sha: Some(r), .. } => {
                    out.push(NormalizeTarget { path: pre.path.clone(), local_sha: l.clone(), remote_sha: r.clone() });
                },
                _ => {},
            }
        }
    }
    assert(pending@.take(pending@.len() as int) =~= pending@);
    out
}

/// Whether the fetched remote bytes, prepared like the local side, hash to
/// the local SHA (a BOM / line-ending-only difference).
pub fn normalize_equal(local_sha: &str, remote_raw: &[u8], keep_bom: bool, class: &AttributeMatch) -> (r: bool)
    ensures
        r == (crate::normalize::git_blob_id(crate::normalize::prepared(remote_raw@, keep_bom, *class).0)
            == local_sha@),
{
    let (prepared, _) = crate::normalize::prepare_for_hash(remote_raw, keep_bom, class);
    let h = crate::normalize::blob_hash(prepared.as_slice());
    crate::text::chars_eq(&chars_of(h.as_str()), &chars_of(local_sha))
}

} // verus!
