//! Argument types of the `scan` command and the option resolution shared
//! with `diff`.

use vstd::prelude::*;

use crate::compare::{opt_view, FileEntry, Status};
use crate::error::GitlessError;

verus! {

/// Backend used for the last-commit lookups.
#[derive(Debug, Clone, Copy, PartialEq, Eq, Structural)]
pub enum Backend {
    Rest,
    Graphql,
}

/// CLI companion of [`Status`] for the `--status` filter.
#[derive(Debug, Clone, Copy, PartialEq, Eq, Structural)]
pub enum StatusFilter {
    Identical,
    LocalOnlyChanged,
    RemoteOnlyChanged,
    Drift,
    Failed,
}

/// Options of one `scan` run.
#[derive(Debug)]
pub struct ScanArgs {
    pub repo: Option<String>,
    pub branch: Option<String>,
    pub local: String,
    pub ignore: Vec<String>,
    pub keep_bom: bool,
    pub pretty: bool,
    pub summary_only: bool,
    pub status: Option<Vec<StatusFilter>>,
    pub backend: Backend,
    pub verbose: u8,
}

/// `None` when no `--status` value was given, the values otherwise.
pub fn collect_status_filter(filters: Vec<StatusFilter>) -> (r: Option<Vec<StatusFilter>>)
    ensures
        filters@.len() == 0 ==> r is None,
        filters@.len() != 0 ==> (r matches Some(v) && v@ == filters@),
{
    if filters.len() == 0 {
        None
    } else {
        Some(filters)
    }
}

/// The domain status a filter value selects.
pub open spec fn spec_to_status(f: StatusFilter) -> Status {
    match f {
        StatusFilter::Identical => Status::Identical,
        StatusFilter::LocalOnlyChanged => Status::LocalOnlyChanged,
        StatusFilter::RemoteOnlyChanged => Status::RemoteOnlyChanged,
        StatusFilter::Drift => Status::Drift,
        StatusFilter::Failed => Status::Failed,
    }
}

/// Convert a CLI filter value to the domain status it selects.
pub fn to_status(filter: StatusFilter) -> (s: Status)
    ensures
        s == spec_to_status(filter),
{
    match filter {
        StatusFilter::Identical => Status::Identical,
        StatusFilter::LocalOnlyChanged => Status::LocalOnlyChanged,
        StatusFilter::RemoteOnlyChanged => Status::RemoteOnlyChanged,
        StatusFilter::Drift => Status::Drift,
        StatusFilter::Failed => Status::Failed,
    }
}

/// Some filter value selects `status`.
pub open spec fn selected_by(filters: Seq<StatusFilter>, status: Status) -> bool {
    exists|i: int| 0 <= i < filters.len() && spec_to_status(filters[i]) == status
}

/// Whether some filter value selects `status`.
pub fn is_selected(filters: &Vec<StatusFilter>, status: Status) -> (r: bool)
    ensures
        r == selected_by(filters@, status),
{
    for i in 0..filters.len()
        invariant
            forall|k: int| 0 <= k < i ==> spec_to_status(filters@[k]) != status,
    {
        if to_status(filters[i]) == status {
            return true;
        }
    }
    false
}

/// The entries, in order, whose status some filter value selects.
pub open spec fn filtered(entries: Seq<FileEntry>, filters: Seq<StatusFilter>) -> Seq<FileEntry> {
    entries.filter(status_selector(filters))
}

/// The predicate "some filter value selects the entry's status".
pub open spec fn status_selector(filters: Seq<StatusFilter>) -> spec_fn(FileEntry) -> bool {
    |e: FileEntry| selected_by(filters, e.status)
}

/// Keep, in order, the entries whose status one of `filters` selects.
pub fn retain_by_status(entries: Vec<FileEntry>, filters: &Vec<StatusFilter>) -> (r: Vec<FileEntry>)
    ensures
        r@ == filtered(entries@, filters@),
{
    let ghost pred = status_selector(filters@);
    let ghost all = entries@;
    let mut out: Vec<FileEntry> = Vec::new();
    for e in it: entries
        invariant
            it.seq() == all,
            pred == status_selector(filters@),
            out@ == all.take(it.index() as int).filter(pred),
    {
        let ghost i = it.index() as int;
        proof {
            reveal_with_fuel(Seq::<_>::filter, 1);
            assert(all.take(i + 1).drop_last() =~= all.take(i));
            assert(all.take(i + 1).last() == e);
        }
        if is_selected(filters, e.status) {
            out.push(e);
        }
    }
    proof {
        assert(all.take(all.len() as int) =~= all);
    }
    out
}

/// Branch to read: the CLI value, else the config value, else `main`.
pub open spec fn spec_resolve_branch(cli: Option<Seq<char>>, config: Option<Seq<char>>) -> Seq<char> {
    match cli {
        Some(b) => b,
        None => match config {
            Some(b) => b,
            None => "main"@,
        },
    }
}

} // verus!

verus! {

/// Branch to read: the CLI value, else the config value, else `main`.
pub fn resolve_branch(cli: Option<&str>, config: Option<&str>) -> (b: String)
    ensures
        b@ == spec_resolve_branch(opt_view(cli), opt_view(config)),
{
    match cli {
        Some(b) => b.to_owned(),
        None => match config {
            Some(b) => b.to_owned(),
            None => "main".to_owned(),
        },
    }
}

/// Repository to compare against: the CLI value, else the config value;
/// `Config("repo not specified")` when neither is set.
pub fn resolve_repo(cli: Option<&str>, config: Option<&str>) -> (r: Result<String, GitlessError>)
    ensures
        cli matches Some(c) ==> (r matches Ok(s) && s@ == c@),
        cli is None ==> (config matches Some(c) ==> (r matches Ok(s) && s@ == c@)),
        cli is None && config is None ==> (r matches Err(GitlessError::Config(m)) && m@
            == "repo not specified"@),
{
    match cli {
        Some(c) => Ok(c.to_owned()),
        None => match config {
            Some(c) => Ok(c.to_owned()),
            None => Err(GitlessError::Config("repo not specified".to_owned())),
        },
    }
}

} // verus!
