//! The first pass of a scan over every path of either side: the decision
//! before any local read, and the pre-entries once the local files asked
//! for were hashed.

use vstd::prelude::*;

use crate::collisions::{case_collisions, case_selector, duplicated, nfd_collisions};
use crate::gitattributes::{attributes_for, class_of, classify_path, rule_view, AttrRule, AttributeMatch};
use crate::paths::{holds, sorted_union, strictly_sorted};
use crate::pipeline::{
    build_one_pre_entry, decided_step, finish_pre_entry, finished, wf_pre, ClassifyContext, LocalFile,
    LocalHash, PreEntry, PreState, PreStep,
};
use crate::size_gate::RemoteFile;
use crate::text::{chars_of, chars_eq, has_string};

verus! {

/// The comparison keys of the local files.
pub open spec fn local_keys(ls: Seq<LocalFile>) -> Seq<String> {
    ls.map_values(|l: LocalFile| l.relative_path)
}

/// The paths of the remote files.
pub open spec fn remote_keys(fs: Seq<RemoteFile>) -> Seq<String> {
    fs.map_values(|f: RemoteFile| f.path)
}

/// `i` is the first local file with key `p`.
pub open spec fn first_local(ls: Seq<LocalFile>, p: Seq<char>, i: int) -> bool {
    0 <= i < ls.len() && ls[i].relative_path@ == p && forall|m: int| 0 <= m < i ==> ls[m].relative_path@ != p
}

/// `i` is the first remote file with path `p`.
pub open spec fn first_remote(fs: Seq<RemoteFile>, p: Seq<char>, i: int) -> bool {
    0 <= i < fs.len() && fs[i].path@ == p && forall|m: int| 0 <= m < i ==> fs[m].path@ != p
}

/// The local file with key `p` (the first one), if any.
pub open spec fn local_at(ls: Seq<LocalFile>, p: Seq<char>) -> Option<LocalFile> {
    if exists|i: int| first_local(ls, p, i) {
        Some(ls[choose|i: int| first_local(ls, p, i)])
    } else {
        None
    }
}

/// The remote file with path `p` (the first one), if any.
pub open spec fn remote_at(fs: Seq<RemoteFile>, p: Seq<char>) -> Option<RemoteFile> {
    if exists|i: int| first_remote(fs, p, i) {
        Some(fs[choose|i: int| first_remote(fs, p, i)])
    } else {
        None
    }
}

/// The local file of one key.
fn find_local<'a>(ls: &'a Vec<LocalFile>, key: &str) -> (r: Option<&'a LocalFile>)
    ensures
        deref_local(r) == local_at(ls@, key@),
{
    let k = chars_of(key);
    for i in 0..ls.len()
        invariant
            k@ == key@,
            forall|m: int| 0 <= m < i ==> ls@[m].relative_path@ != key@,
    {
        if chars_eq(&chars_of(ls[i].relative_path.as_str()), &k) {
            proof {
                assert(first_local(ls@, key@, i as int));
                let j = choose|j: int| first_local(ls@, key@, j);
                assert(j == i) by {
                    if j < i {
                    } else if j > i {
                        assert(ls@[i as int].relative_path@ != key@);
                    }
                }
            }
            return Some(&ls[i]);
        }
    }
    None
}

/// The remote file of one path.
fn find_remote_file<'a>(fs: &'a Vec<RemoteFile>, key: &str) -> (r: Option<&'a RemoteFile>)
    ensures
        deref_remote(r) == remote_at(fs@, key@),
{
    let k = chars_of(key);
    for i in 0..fs.len()
        invariant
            k@ == key@,
            forall|m: int| 0 <= m < i ==> fs@[m].path@ != key@,
    {
        if chars_eq(&chars_of(fs[i].path.as_str()), &k) {
            proof {
                assert(first_remote(fs@, key@, i as int));
                let j = choose|j: int| first_remote(fs@, key@, j);
                assert(j == i) by {
                    if j < i {
                    } else if j > i {
                        assert(fs@[i as int].path@ != key@);
                    }
                }
            }
            return Some(&fs[i]);
        }
    }
    None
}

/// An optional local file by value.
pub open spec fn deref_local(o: Option<&LocalFile>) -> Option<LocalFile> {
    match o {
        Some(x) => Some(*x),
        None => None,
    }
}

/// An optional remote file by value.
pub open spec fn deref_remote(o: Option<&RemoteFile>) -> Option<RemoteFile> {
    match o {
        Some(x) => Some(*x),
        None => None,
    }
}

/// The decisions of the first pass, path by path: for the `i`-th path its
/// local file, remote file, `.gitattributes` class and decided step.
pub struct PrePlan {
    paths: Vec<String>,
    locals: Vec<Option<LocalFile>>,
    remotes: Vec<Option<RemoteFile>>,
    classes: Vec<AttributeMatch>,
    steps: Vec<PreStep>,
    cctx: ClassifyContext,
}

/// A request to hash the local file of the `index`-th path with its class;
/// `file` is where the walk found that file.
#[derive(Debug, Clone)]
pub struct HashRequest {
    pub index: usize,
    pub path: String,
    pub file: String,
    pub class: AttributeMatch,
}

impl PrePlan {
    /// The plan is consistent: one local, remote, class and step per path,
    /// each step decided from them, and each path held on some side.
    #[verifier::type_invariant]
    spec fn consistent(self) -> bool {
        &&& self.locals@.len() == self.paths@.len()
        &&& self.remotes@.len() == self.paths@.len()
        &&& self.classes@.len() == self.paths@.len()
        &&& self.steps@.len() == self.paths@.len()
        &&& forall|i: int|
            0 <= i < self.paths@.len() ==> (self.locals@[i] is Some || self.remotes@[i] is Some)
                && decided_step(
                self.paths@[i]@,
                self.locals@[i],
                self.remotes@[i],
                self.cctx,
                self.classes@[i],
                #[trigger] self.steps@[i],
            )
    }

    /// The paths, ascending.
    pub closed spec fn path_seq(self) -> Seq<String> {
        self.paths@
    }

    /// The local file of each path.
    pub closed spec fn local_seq(self) -> Seq<Option<LocalFile>> {
        self.locals@
    }

    /// The remote file of each path.
    pub closed spec fn remote_seq(self) -> Seq<Option<RemoteFile>> {
        self.remotes@
    }

    /// The `.gitattributes` class of each path.
    pub closed spec fn class_seq(self) -> Seq<AttributeMatch> {
        self.classes@
    }

    /// The decided step of each path.
    pub closed spec fn step_seq(self) -> Seq<PreStep> {
        self.steps@
    }

    /// The collision sets the cascade consulted.
    pub closed spec fn context(self) -> ClassifyContext {
        self.cctx
    }

    /// The paths, ascending.
    pub fn paths(&self) -> (r: &Vec<String>)
        ensures
            r@ == self.path_seq(),
    {
        &self.paths
    }

    /// The local files to hash: the paths whose step asks for it, in order,
    /// each with the walked file and its class.
    pub fn hash_requests(&self) -> (r: Vec<HashRequest>)
        ensures
            forall|k: int|
                0 <= k < r@.len() ==> {
                    let q = #[trigger] r@[k];
                    &&& q.index < self.path_seq().len()
                    &&& self.step_seq()[q.index as int] is NeedsLocalHash
                    &&& q.path@ == self.path_seq()[q.index as int]@
                    &&& self.local_seq()[q.index as int] matches Some(l) && q.file@ == l.absolute_path@
                    &&& q.class == self.class_seq()[q.index as int]
                },
            forall|i: int|
                0 <= i < self.path_seq().len() && self.step_seq()[i] is NeedsLocalHash ==> exists|k: int|
                    0 <= k < r@.len() && (#[trigger] r@[k]).index == i,
            forall|a: int, b: int| 0 <= a < b < r@.len() ==> (#[trigger] r@[a]).index < (#[trigger] r@[b]).index,
    {
        proof {
            use_type_invariant(self);
            assert forall|j: int| 0 <= j < self.paths@.len() && (#[trigger] self.steps@[j]) is NeedsLocalHash implies self.locals@[j] is Some by {
                assert(decided_step(self.paths@[j]@, self.locals@[j], self.remotes@[j], self.cctx, self.classes@[j], self.steps@[j]));
            }
        }
        let mut out: Vec<HashRequest> = Vec::new();
        for i in 0..self.paths.len()
            invariant
                self.steps@.len() == self.paths@.len(),
                self.classes@.len() == self.paths@.len(),
                self.locals@.len() == self.paths@.len(),
                forall|j: int| 0 <= j < self.paths@.len() && (#[trigger] self.steps@[j]) is NeedsLocalHash ==> self.locals@[j] is Some,
                forall|k: int|
                    0 <= k < out@.len() ==> {
                        let q = #[trigger] out@[k];
                        &&& q.index < i
                        &&& self.steps@[q.index as int] is NeedsLocalHash
                        &&& q.path@ == self.paths@[q.index as int]@
                        &&& self.locals@[q.index as int] matches Some(l) && q.file@ == l.absolute_path@
                        &&& q.class == self.classes@[q.index as int]
                    },
                forall|j: int|
                    0 <= j < i && self.steps@[j] is NeedsLocalHash ==> exists|k: int|
                        0 <= k < out@.len() && (#[trigger] out@[k]).index == j,
                forall|a: int, b: int| 0 <= a < b < out@.len() ==> (#[trigger] out@[a]).index < (#[trigger] out@[b]).index,
        {
            match &self.steps[i] {
                PreStep::NeedsLocalHash => {
                    let ghost before = out@;
                    let file = match &self.locals[i] {
                        Some(l) => l.absolute_path.clone(),
                        None => {
                            assert(false);
                            String::new()
                        },
                    };
                    let q = HashRequest {
                        index: i,
                        path: self.paths[i].clone(),
                        file,
                        class: copy_class(&self.classes[i]),
                    };
                    out.push(q);
                    proof {
                        assert(out@[before.len() as int] == q);
                        assert forall|k: int| 0 <= k < before.len() implies #[trigger] out@[k] == before[k] by {}
                        assert forall|j: int|
                            0 <= j < i + 1 && self.steps@[j] is NeedsLocalHash implies exists|k: int|
                                0 <= k < out@.len() && (#[trigger] out@[k]).index == j by {
                            if j < i {
                                let k = choose|k: int| 0 <= k < before.len() && (#[trigger] before[k]).index == j;
                                assert(out@[k] == before[k]);
                            } else {
                                assert(out@[before.len() as int].index == j);
                            }
                        }
                    }
                },
                PreStep::Done(_) => {},
            }
        }
        out
    }
}

/// A copy of a class.
fn copy_class(c: &AttributeMatch) -> (r: AttributeMatch)
    ensures
        r == *c,
{
    match c {
        AttributeMatch::Default => AttributeMatch::Default,
        AttributeMatch::Text => AttributeMatch::Text,
        AttributeMatch::Binary => AttributeMatch::Binary,
        AttributeMatch::LfsPointer => AttributeMatch::LfsPointer,
        AttributeMatch::Unsupported { attribute } => AttributeMatch::Unsupported { attribute: attribute.clone() },
    }
}

/// A copy of an optional local file.
fn copy_local(l: Option<&LocalFile>) -> (r: Option<LocalFile>)
    ensures
        r == deref_local(l),
{
    match l {
        Some(x) => Some(LocalFile {
            relative_path: x.relative_path.clone(),
            absolute_path: x.absolute_path.clone(),
            mtime: x.mtime,
            is_symlink: x.is_symlink,
        }),
        None => None,
    }
}

/// A copy of an optional remote file.
fn copy_remote(f: Option<&RemoteFile>) -> (r: Option<RemoteFile>)
    ensures
        r == deref_remote(f),
{
    match f {
        Some(x) => Some(RemoteFile { path: x.path.clone(), sha: x.sha.clone(), mode: x.mode.clone(), size: x.size }),
        None => None,
    }
}

/// A copy of a hash outcome.
fn copy_hash(h: &LocalHash) -> (r: LocalHash)
    ensures
        r == *h,
{
    match h {
        LocalHash::Hashed { sha, is_binary } => LocalHash::Hashed { sha: sha.clone(), is_binary: *is_binary },
        LocalHash::Failed { reason, is_binary, size_bytes } => LocalHash::Failed {
            reason: *reason,
            is_binary: *is_binary,
            size_bytes: *size_bytes,
        },
        LocalHash::IoError => LocalHash::IoError,
    }
}

/// Some file of `ls` has key `p`: then a first one has.
proof fn lemma_first_local(ls: Seq<LocalFile>, p: Seq<char>, k: int)
    requires
        0 <= k < ls.len(),
        ls[k].relative_path@ == p,
    ensures
        exists|i: int| first_local(ls, p, i),
    decreases k,
{
    if exists|m: int| 0 <= m < k && ls[m].relative_path@ == p {
        let m = choose|m: int| 0 <= m < k && ls[m].relative_path@ == p;
        lemma_first_local(ls, p, m);
    } else {
        assert(first_local(ls, p, k));
    }
}

/// Some file of `fs` has path `p`: then a first one has.
proof fn lemma_first_remote(fs: Seq<RemoteFile>, p: Seq<char>, k: int)
    requires
        0 <= k < fs.len(),
        fs[k].path@ == p,
    ensures
        exists|i: int| first_remote(fs, p, i),
    decreases k,
{
    if exists|m: int| 0 <= m < k && fs[m].path@ == p {
        let m = choose|m: int| 0 <= m < k && fs[m].path@ == p;
        lemma_first_remote(fs, p, m);
    } else {
        assert(first_remote(fs, p, k));
    }
}

/// The comparison keys of the local files.
fn keys_of_locals(ls: &Vec<LocalFile>) -> (r: Vec<String>)
    ensures
        r@ == local_keys(ls@),
{
    let mut out: Vec<String> = Vec::new();
    for i in 0..ls.len()
        invariant
            out@ == local_keys(ls@).take(i as int),
    {
        out.push(ls[i].relative_path.clone());
        assert(out@ =~= local_keys(ls@).take(i + 1));
    }
    assert(local_keys(ls@).take(ls@.len() as int) =~= local_keys(ls@));
    out
}

/// The paths of the remote files.
fn keys_of_remotes(fs: &Vec<RemoteFile>) -> (r: Vec<String>)
    ensures
        r@ == remote_keys(fs@),
{
    let mut out: Vec<String> = Vec::new();
    for i in 0..fs.len()
        invariant
            out@ == remote_keys(fs@).take(i as int),
    {
        out.push(fs[i].path.clone());
        assert(out@ =~= remote_keys(fs@).take(i + 1));
    }
    assert(remote_keys(fs@).take(fs@.len() as int) =~= remote_keys(fs@));
    out
}

/// The first pass before any local read: every path of either side,
/// ascending and once, with its local file, remote file, `.gitattributes`
/// class under `rules`, and decided step (see [`decided_step`]) against
/// the case and NFD collisions of the two sides.
pub fn plan_pre_entries(locals: &Vec<LocalFile>, remotes: &Vec<RemoteFile>, rules: &Vec<AttrRule>) -> (plan: PrePlan)
    ensures
        strictly_sorted(plan.path_seq()),
        forall|s: Seq<char>|
            holds(plan.path_seq(), s) <==> (holds(local_keys(locals@), s) || holds(remote_keys(remotes@), s)),
        plan.context().case_collisions@ == plan.path_seq().filter(case_selector(local_keys(locals@), remote_keys(remotes@))),
        forall|p: Seq<char>| has_string(plan.context().nfd_collisions@, p) <==> duplicated(local_keys(locals@), p),
        plan.local_seq().len() == plan.path_seq().len(),
        plan.remote_seq().len() == plan.path_seq().len(),
        plan.class_seq().len() == plan.path_seq().len(),
        plan.step_seq().len() == plan.path_seq().len(),
        forall|i: int|
            0 <= i < plan.path_seq().len() ==> {
                &&& plan.local_seq()[i] == local_at(locals@, plan.path_seq()[i]@)
                &&& plan.remote_seq()[i] == remote_at(remotes@, plan.path_seq()[i]@)
                &&& class_of(
                    attributes_for(rules@.map_values(|x: AttrRule| rule_view(x)), plan.path_seq()[i]@),
                    plan.class_seq()[i],
                )
                &&& decided_step(
                    plan.path_seq()[i]@,
                    plan.local_seq()[i],
                    plan.remote_seq()[i],
                    plan.context(),
                    plan.class_seq()[i],
                    #[trigger] plan.step_seq()[i],
                )
            },
{
    let lkeys = keys_of_locals(locals);
    let rkeys = keys_of_remotes(remotes);
    let paths = sorted_union(&lkeys, &rkeys);
    let cctx = ClassifyContext {
        case_collisions: case_collisions(&paths, &lkeys, &rkeys),
        nfd_collisions: nfd_collisions(&lkeys),
    };
    let ghost rv = rules@.map_values(|x: AttrRule| rule_view(x));
    let mut ls: Vec<Option<LocalFile>> = Vec::new();
    let mut fs: Vec<Option<RemoteFile>> = Vec::new();
    let mut cs: Vec<AttributeMatch> = Vec::new();
    let mut steps: Vec<PreStep> = Vec::new();
    for i in 0..paths.len()
        invariant
            rv == rules@.map_values(|x: AttrRule| rule_view(x)),
            lkeys@ == local_keys(locals@),
            rkeys@ == remote_keys(remotes@),
            forall|s: Seq<char>| holds(paths@, s) <==> (holds(lkeys@, s) || holds(rkeys@, s)),
            ls@.len() == i,
            fs@.len() == i,
            cs@.len() == i,
            steps@.len() == i,
            forall|j: int| 0 <= j < i ==> #[trigger] ls@[j] == local_at(locals@, paths@[j]@),
            forall|j: int| 0 <= j < i ==> #[trigger] fs@[j] == remote_at(remotes@, paths@[j]@),
            forall|j: int| 0 <= j < i ==> (#[trigger] ls@[j] is Some || fs@[j] is Some),
            forall|j: int| 0 <= j < i ==> class_of(attributes_for(rv, paths@[j]@), #[trigger] cs@[j]),
            forall|j: int| 0 <= j < i ==> decided_step(paths@[j]@, ls@[j], fs@[j], cctx, cs@[j], #[trigger] steps@[j]),
    {
        let p = &paths[i];
        let l = find_local(locals, p.as_str());
        let f = find_remote_file(remotes, p.as_str());
        proof {
            assert(holds(paths@, p@));
            if holds(lkeys@, p@) {
                let k = choose|k: int| 0 <= k < lkeys@.len() && lkeys@[k]@ == p@;
                assert(locals@[k].relative_path == lkeys@[k]);
                lemma_first_local(locals@, p@, k);
            } else {
                assert(holds(rkeys@, p@));
                let k = choose|k: int| 0 <= k < rkeys@.len() && rkeys@[k]@ == p@;
                assert(remotes@[k].path == rkeys@[k]);
                lemma_first_remote(remotes@, p@, k);
            }
        }
        let class = classify_path(rules, p.as_str());
        let step = build_one_pre_entry(p.as_str(), l, f, &cctx, &class);
        let lc = copy_local(l);
        let fc = copy_remote(f);
        let ghost (ls0, fs0, cs0, st0) = (ls@, fs@, cs@, steps@);
        proof {
            assert(lc == local_at(locals@, paths@[i as int]@));
            assert(fc == remote_at(remotes@, paths@[i as int]@));
            assert(local_at(locals@, p@) is Some || remote_at(remotes@, p@) is Some);
            assert(p@ == paths@[i as int]@);
            assert(lc is Some || fc is Some);
            assert(decided_step(paths@[i as int]@, lc, fc, cctx, class, step));
        }
        ls.push(lc);
        fs.push(fc);
        cs.push(class);
        steps.push(step);
        proof {
            assert(ls@ == ls0.push(lc));
            assert(fs@ == fs0.push(fc));
            assert(cs@ == cs0.push(class));
            assert(steps@ == st0.push(step));
            assert forall|j: int| 0 <= j < i + 1 implies #[trigger] ls@[j] == local_at(locals@, paths@[j]@) by {
                if j < i { assert(ls@[j] == ls0[j]); }
            }
            assert forall|j: int| 0 <= j < i + 1 implies #[trigger] fs@[j] == remote_at(remotes@, paths@[j]@) by {
                if j < i { assert(fs@[j] == fs0[j]); }
            }
            assert forall|j: int| 0 <= j < i + 1 implies (#[trigger] ls@[j] is Some || fs@[j] is Some) by {
                if j < i { assert(ls@[j] == ls0[j]); assert(fs@[j] == fs0[j]); }
            }
            assert forall|j: int| 0 <= j < i + 1 implies class_of(attributes_for(rv, paths@[j]@), #[trigger] cs@[j]) by {
                if j < i { assert(cs@[j] == cs0[j]); }
            }
            assert forall|j: int| 0 <= j < i + 1 implies decided_step(paths@[j]@, ls@[j], fs@[j], cctx, cs@[j], #[trigger] steps@[j]) by {
                if j < i {
                    assert(ls@[j] == ls0[j] && fs@[j] == fs0[j] && cs@[j] == cs0[j] && steps@[j] == st0[j]);
                }
            }
        }
    }
    let plan = PrePlan { paths, locals: ls, remotes: fs, classes: cs, steps, cctx };
    plan
}

/// What hashing the `i`-th path gave: its outcome where one was handed in,
/// a read failure otherwise.
pub open spec fn outcome_at(outcomes: Seq<Option<LocalHash>>, i: int) -> LocalHash {
    if 0 <= i < outcomes.len() && outcomes[i] is Some {
        outcomes[i]->0
    } else {
        LocalHash::IoError
    }
}

/// The pre-entries of the plan, in path order: a decided step gives its
/// entry; a path whose local file was hashed gives the entry of its
/// outcome (`outcomes[i]` for the `i`-th path; a missing one counts as a
/// read failure). Every pre-entry is well formed, and every failed one
/// carries its reason.
pub fn build_pre_entries(plan: PrePlan, outcomes: Vec<Option<LocalHash>>) -> (r: Vec<PreEntry>)
    ensures
        r@.len() == plan.path_seq().len(),
        forall|i: int|
            0 <= i < r@.len() ==> {
                &&& wf_pre(#[trigger] r@[i])
                &&& (r@[i].state matches PreState::Failed { failed_reason, .. } ==> failed_reason is Some)
                &&& r@[i].path@ == plan.path_seq()[i]@
                &&& (plan.step_seq()[i] matches PreStep::Done(pre) ==> r@[i] == pre)
                &&& (plan.step_seq()[i] is NeedsLocalHash ==> (plan.local_seq()[i] matches Some(l) && finished(
                    plan.path_seq()[i]@,
                    l,
                    plan.remote_seq()[i],
                    outcome_at(outcomes@, i),
                    r@[i],
                )))
            },
{
    proof {
        use_type_invariant(&plan);
    }
    let ghost g = plan;
    let PrePlan { paths, locals, remotes, classes, steps, cctx } = plan;
    let mut out: Vec<PreEntry> = Vec::new();
    let ghost all = steps@;
    proof {
        assert forall|j: int| 0 <= j < paths@.len() implies (#[trigger] locals@[j] is Some || remotes@[j] is Some) by {
            assert(g.steps@[j] == all[j]);
        }
        assert forall|j: int| 0 <= j < paths@.len() implies decided_step(
            paths@[j]@,
            locals@[j],
            remotes@[j],
            g.context(),
            g.class_seq()[j],
            #[trigger] all[j],
        ) by {
            assert(g.steps@[j] == all[j]);
        }
    }
    for step in it: steps
        invariant
            it.seq() == all,
            all == g.step_seq(),
            paths@ == g.path_seq(),
            locals@ == g.local_seq(),
            remotes@ == g.remote_seq(),
            all.len() == paths@.len(),
            locals@.len() == paths@.len(),
            remotes@.len() == paths@.len(),
            forall|j: int| 0 <= j < paths@.len() ==> (#[trigger] locals@[j] is Some || remotes@[j] is Some),
            forall|j: int|
                0 <= j < paths@.len() ==> decided_step(
                    paths@[j]@,
                    locals@[j],
                    remotes@[j],
                    g.context(),
                    g.class_seq()[j],
                    #[trigger] all[j],
                ),
            out@.len() == it.index(),
            forall|j: int|
                0 <= j < out@.len() ==> {
                    &&& wf_pre(#[trigger] out@[j])
                    &&& (out@[j].state matches PreState::Failed { failed_reason, .. } ==> failed_reason is Some)
                    &&& out@[j].path@ == paths@[j]@
                    &&& (all[j] matches PreStep::Done(pre) ==> out@[j] == pre)
                    &&& (all[j] is NeedsLocalHash ==> (locals@[j] matches Some(l) && finished(
                        paths@[j]@,
                        l,
                        remotes@[j],
                        outcome_at(outcomes@, j),
                        out@[j],
                    )))
                },
    {
        let i = out.len();
        proof {
            assert(all[i as int] == step);
        }
        match step {
            PreStep::Done(pre) => {
                proof {
                    assert(decided_step(paths@[i as int]@, locals@[i as int], remotes@[i as int], g.context(), g.class_seq()[i as int], all[i as int]));
                }
                out.push(pre);
            },
            PreStep::NeedsLocalHash => {
                let outcome = if i < outcomes.len() {
                    match &outcomes[i] {
                        Some(h) => copy_hash(h),
                        None => LocalHash::IoError,
                    }
                } else {
                    LocalHash::IoError
                };
                match &locals[i] {
                    Some(l) => {
                        let f: Option<&RemoteFile> = match &remotes[i] {
                            Some(x) => Some(x),
                            None => None,
                        };
                        let pre = finish_pre_entry(paths[i].as_str(), l, f, outcome);
                        out.push(pre);
                    },
                    None => {
                        proof {
                            assert(decided_step(paths@[i as int]@, locals@[i as int], remotes@[i as int], g.context(), g.class_seq()[i as int], all[i as int]));
                            assert(false);
                        }
                    },
                }
            },
        }
    }
    out
}

} // verus!
