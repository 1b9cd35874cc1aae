//! The scan report: its `files[]` projection for `--summary-only`, the
//! `--status` filter, and the outcome of a run once the report is written.

use vstd::prelude::*;

use crate::args::{filtered, retain_by_status, ScanArgs};
use crate::compare::{FailedReason, FileEntry, Presence, Status};
use crate::error::GitlessError;
use crate::pipeline::Summary;
use crate::renames::RenamePair;
use crate::timestamp::Timestamp;

verus! {

/// Version of the report's JSON shape.
pub const SCHEMA_VERSION: &'static str = "1.2";

/// A failed row of the `--summary-only` report: the path, which sides hold
/// it, and why it failed (`HashIo` for a file that could not be read).
#[derive(Debug, Clone)]
pub struct SummaryFailedEntry {
    pub path: String,
    pub presence: Presence,
    pub failed_reason: Option<FailedReason>,
}

/// The `files[]` array: every entry, or only the failed rows.
#[derive(Debug, Clone)]
pub enum FilesView {
    Full(Vec<FileEntry>),
    SummaryFailed(Vec<SummaryFailedEntry>),
}

/// The scan report.
#[derive(Debug, Clone)]
pub struct ScanReport {
    pub schema_version: String,
    pub scanned_at: Timestamp,
    pub repo: String,
    pub branch: String,
    pub local_root: String,
    pub summary: Summary,
    pub files: Option<FilesView>,
    pub renames: Option<Vec<RenamePair>>,
}

/// A failed row as plain values.
pub open spec fn row_view(r: SummaryFailedEntry) -> (Seq<char>, Presence, Option<FailedReason>) {
    (r.path@, r.presence, r.failed_reason)
}

/// The failed row of an entry.
pub open spec fn failed_row(e: FileEntry) -> (Seq<char>, Presence, Option<FailedReason>) {
    (e.path@, e.presence, e.failed_reason)
}

/// The entry is failed.
pub open spec fn is_failed() -> spec_fn(FileEntry) -> bool {
    |e: FileEntry| e.status == Status::Failed
}

/// The failed rows of `es`, in order.
pub open spec fn failed_rows(es: Seq<FileEntry>) -> Seq<(Seq<char>, Presence, Option<FailedReason>)> {
    es.filter(is_failed()).map_values(|e: FileEntry| failed_row(e))
}

/// `files` is the `files[]` projection of `entries`: all of them unless
/// `summary_only`; with `summary_only`, nothing when no entry failed and
/// the failed rows otherwise.
pub open spec fn projects(
    summary_only: bool,
    entries: Seq<FileEntry>,
    failed_count: usize,
    files: Option<FilesView>,
) -> bool {
    if !summary_only {
        files matches Some(FilesView::Full(v)) && v@ == entries
    } else if failed_count == 0 {
        files is None
    } else {
        files matches Some(FilesView::SummaryFailed(rows)) && rows@.map_values(
            |r: SummaryFailedEntry| row_view(r),
        ) == failed_rows(entries)
    }
}

/// Project the entries for `ScanReport.files` (see [`projects`]).
pub fn project_files(summary_only: bool, entries: Vec<FileEntry>, failed_count: usize) -> (r: Option<FilesView>)
    ensures
        projects(summary_only, entries@, failed_count, r),
{
    if !summary_only {
        return Some(FilesView::Full(entries));
    }
    if failed_count == 0 {
        return None;
    }
    let ghost all = entries@;
    let ghost rowv = |r: SummaryFailedEntry| row_view(r);
    let ghost entv = |e: FileEntry| failed_row(e);
    let mut rows: Vec<SummaryFailedEntry> = Vec::new();
    for e in it: entries
        invariant
            it.seq() == all,
            rowv == (|r: SummaryFailedEntry| row_view(r)),
            entv == (|e: FileEntry| failed_row(e)),
            rows@.map_values(rowv) == all.take(it.index() as int).filter(is_failed()).map_values(entv),
    {
        let ghost i = it.index() as int;
        let ghost before = rows@;
        proof {
            reveal_with_fuel(Seq::<_>::filter, 1);
            assert(all.take(i + 1).drop_last() =~= all.take(i));
            assert(all.take(i + 1).last() == e);
        }
        if e.status == Status::Failed {
            let row = SummaryFailedEntry { path: e.path, presence: e.presence, failed_reason: e.failed_reason };
            rows.push(row);
            proof {
                assert(all.take(i + 1).filter(is_failed()) == all.take(i).filter(is_failed()).push(e));
                assert(rows@ =~= before.push(row));
                assert(rows@.map_values(rowv) =~= before.map_values(rowv).push(row_view(row)));
                assert(all.take(i + 1).filter(is_failed()).map_values(entv) =~= all.take(i).filter(
                    is_failed(),
                ).map_values(entv).push(failed_row(e)));
            }
        } else {
            proof {
                assert(all.take(i + 1).filter(is_failed()) == all.take(i).filter(is_failed()));
            }
        }
    }
    proof {
        assert(all.take(all.len() as int) =~= all);
    }
    Some(FilesView::SummaryFailed(rows))
}

/// The entries the report keeps before projection: with a `--status`
/// filter and without `--summary-only`, those whose status it selects;
/// all of them otherwise.
pub open spec fn kept_entries(args: ScanArgs, entries: Seq<FileEntry>) -> Seq<FileEntry> {
    if !args.summary_only && args.status is Some {
        filtered(entries, args.status->0@)
    } else {
        entries
    }
}

/// Put the report together from the pipeline's results: the status filter
/// applies unless `--summary-only`, the files are projected (see
/// [`project_files`]), and the rename hints are present unless
/// `--summary-only`.
pub fn assemble_report(
    args: &ScanArgs,
    repo: String,
    branch: String,
    entries: Vec<FileEntry>,
    summary: Summary,
    failed_count: usize,
    renames: Vec<RenamePair>,
    scanned_at: Timestamp,
) -> (r: ScanReport)
    ensures
        r.schema_version@ == SCHEMA_VERSION@,
        r.scanned_at == scanned_at,
        r.repo@ == repo@,
        r.branch@ == branch@,
        r.local_root@ == args.local@,
        r.summary == summary,
        projects(args.summary_only, kept_entries(*args, entries@), failed_count, r.files),
        args.summary_only ==> r.renames is None,
        !args.summary_only ==> (r.renames matches Some(v) && v@ == renames@),
{
    let kept = if !args.summary_only {
        match &args.status {
            Some(filters) => retain_by_status(entries, filters),
            None => entries,
        }
    } else {
        entries
    };
    let files = project_files(args.summary_only, kept, failed_count);
    let renames = if args.summary_only {
        None
    } else {
        Some(renames)
    };
    ScanReport {
        schema_version: SCHEMA_VERSION.to_string(),
        scanned_at,
        repo,
        branch,
        local_root: args.local.clone(),
        summary,
        files,
        renames,
    }
}

/// The error of a report that could not be serialized.
pub fn serialize_failure(detail: &str) -> (e: GitlessError)
    ensures
        e matches GitlessError::Config(m) && m@ == "ScanReport JSON serialization failed: "@ + detail@,
{
    let mut m = String::new();
    m.append("ScanReport JSON serialization failed: ");
    m.append(detail);
    GitlessError::Config(m)
}

/// The error of a failed write to stdout or stderr: a closed pipe is
/// [`GitlessError::BrokenPipe`], anything else an I/O error with its text.
pub fn write_failure(broken_pipe: bool, message: String) -> (e: GitlessError)
    ensures
        broken_pipe ==> e == GitlessError::BrokenPipe,
        !broken_pipe ==> e == GitlessError::Io(message),
{
    if broken_pipe {
        GitlessError::BrokenPipe
    } else {
        GitlessError::Io(message)
    }
}

/// The outcome of `scan` once the report is built and its JSON line
/// written (`written`): a failed write is the outcome; otherwise a
/// report with failed entries is a partial failure, and one without is
/// success.
pub fn run_with_client(failed_count: usize, written: Result<(), GitlessError>) -> (r: Result<(), GitlessError>)
    ensures
        written is Err ==> r == written,
        written is Ok && failed_count > 0 ==> r == Err::<(), GitlessError>(
            GitlessError::PartialFailure { failed_count },
        ),
        written is Ok && failed_count == 0 ==> r is Ok,
{
    match written {
        Err(e) => Err(e),
        Ok(()) => {
            if failed_count > 0 {
                Err(GitlessError::PartialFailure { failed_count })
            } else {
                Ok(())
            }
        },
    }
}

} // verus!
