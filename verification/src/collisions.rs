//! Paths that cannot be compared because two names collide: by case
//! across the two sides, or by Unicode normalization on the local side.

use vstd::prelude::*;

use crate::text::{chars_of, contains_chars, contains_string, has_string};

verus! {

/// What `str::to_lowercase` makes of `s`.
pub uninterp spec fn unicode_lowercase(s: Seq<char>) -> Seq<char>;

/// `str::to_lowercase`: the contract only says the result is the Unicode
/// lower-casing of `s`, not what that is.
#[verifier::external_body]
pub(crate) fn to_lowercase(s: &str) -> (r: String)
    ensures
        r@ == unicode_lowercase(s@),
{
    s.to_lowercase()
}

/// Some string of `side` lower-cases to `folded`.
pub open spec fn has_folded(side: Seq<String>, folded: Seq<char>) -> bool {
    exists|i: int| 0 <= i < side.len() && unicode_lowercase(side[i]@) == folded
}

/// `p` is on exactly one side and the other side has a different-case
/// sibling (same lower-casing).
pub open spec fn case_collides(local: Seq<String>, remote: Seq<String>, p: Seq<char>) -> bool {
    let in_local = has_string(local, p);
    let in_remote = has_string(remote, p);
    !(in_local && in_remote) && ((!in_local && has_folded(local, unicode_lowercase(p))) || (
    !in_remote && has_folded(remote, unicode_lowercase(p))))
}

/// The predicate [`case_collides`] over entries of a path list.
pub open spec fn case_selector(local: Seq<String>, remote: Seq<String>) -> spec_fn(String) -> bool {
    |p: String| case_collides(local, remote, p@)
}

fn lowered(v: &Vec<String>) -> (r: Vec<Vec<char>>)
    ensures
        r@.len() == v@.len(),
        forall|i: int| 0 <= i < v@.len() ==> #[trigger] r@[i]@ == unicode_lowercase(v@[i]@),
{
    let mut r: Vec<Vec<char>> = Vec::new();
    for i in 0..v.len()
        invariant
            r@.len() == i,
            forall|j: int| 0 <= j < i ==> #[trigger] r@[j]@ == unicode_lowercase(v@[j]@),
    {
        let l = to_lowercase(v[i].as_str());
        r.push(chars_of(l.as_str()));
    }
    r
}

/// The paths of `all_paths` (in order) that collide by case: present on
/// exactly one side while the other side holds a different-case sibling.
pub fn case_collisions(all_paths: &Vec<String>, local: &Vec<String>, remote: &Vec<String>) -> (r:
    Vec<String>)
    ensures
        r@ == all_paths@.filter(case_selector(local@, remote@)),
{
    let local_ci = lowered(local);
    let remote_ci = lowered(remote);
    let ghost pred = case_selector(local@, remote@);
    let mut out: Vec<String> = Vec::new();
    for i in 0..all_paths.len()
        invariant
            pred == case_selector(local@, remote@),
            local_ci@.len() == local@.len(),
            remote_ci@.len() == remote@.len(),
            forall|j: int| 0 <= j < local@.len() ==> #[trigger] local_ci@[j]@ == unicode_lowercase(local@[j]@),
            forall|j: int| 0 <= j < remote@.len() ==> #[trigger] remote_ci@[j]@ == unicode_lowercase(remote@[j]@),
            out@ == all_paths@.take(i as int).filter(pred),
    {
        let p = &all_paths[i];
        let pc = chars_of(p.as_str());
        let in_local = contains_string(local, &pc);
        let in_remote = contains_string(remote, &pc);
        let folded = chars_of(to_lowercase(p.as_str()).as_str());
        let collides = if in_local && in_remote {
            false
        } else {
            let l = !in_local && contains_chars(&local_ci, &folded);
            let r = !in_remote && contains_chars(&remote_ci, &folded);
            proof {
                if l {
                    let k = choose|k: int| 0 <= k < local_ci@.len() && local_ci@[k]@ == folded@;
                    assert(unicode_lowercase(local@[k]@) == folded@);
                }
                if r {
                    let k = choose|k: int| 0 <= k < remote_ci@.len() && remote_ci@[k]@ == folded@;
                    assert(unicode_lowercase(remote@[k]@) == folded@);
                }
                if !in_local && has_folded(local@, folded@) {
                    let k = choose|k: int| 0 <= k < local@.len() && unicode_lowercase(local@[k]@) == folded@;
                    assert(local_ci@[k]@ == folded@);
                }
                if !in_remote && has_folded(remote@, folded@) {
                    let k = choose|k: int| 0 <= k < remote@.len() && unicode_lowercase(remote@[k]@) == folded@;
                    assert(remote_ci@[k]@ == folded@);
                }
            }
            l || r
        };
        assert(collides == pred(*p));
        proof {
            reveal_with_fuel(Seq::<_>::filter, 1);
            assert(all_paths@.take(i + 1).drop_last() =~= all_paths@.take(i as int));
            assert(all_paths@.take(i + 1).last() == *p);
        }
        if collides {
            out.push(p.clone());
        }
    }
    assert(all_paths@.take(all_paths@.len() as int) =~= all_paths@);
    out
}

/// `p` is the key of two different local files.
pub open spec fn duplicated(keys: Seq<String>, p: Seq<char>) -> bool {
    exists|i: int, j: int| 0 <= i < j < keys.len() && keys[i]@ == p && keys[j]@ == p
}

/// The local keys (relative, NFC-normalized) held by two or more files,
/// each once.
pub fn nfd_collisions(keys: &Vec<String>) -> (r: Vec<String>)
    ensures
        forall|p: Seq<char>| has_string(r@, p) <==> duplicated(keys@, p),
        forall|a: int, b: int| 0 <= a < b < r@.len() ==> r@[a]@ != r@[b]@,
{
    let mut out: Vec<String> = Vec::new();
    for i in 0..keys.len()
        invariant
            forall|p: Seq<char>| has_string(out@, p) ==> duplicated(keys@, p),
            forall|p: Seq<char>|
                duplicated(keys@, p) && (exists|a: int| 0 <= a < i && keys@[a]@ == p) ==> has_string(
                    out@,
                    p,
                ),
            forall|a: int, b: int| 0 <= a < b < out@.len() ==> out@[a]@ != out@[b]@,
    {
        let k = chars_of(keys[i].as_str());
        let mut dup = false;
        for j in 0..keys.len()
            invariant
                k@ == keys@[i as int]@,
                i < keys@.len(),
                dup ==> duplicated(keys@, k@),
                !dup ==> forall|m: int| 0 <= m < j && m != i ==> keys@[m]@ != k@,
        {
            if j != i && crate::text::chars_eq(&chars_of(keys[j].as_str()), &k) {
                proof {
                    if j < i {
                        assert(keys@[j as int]@ == k@ && keys@[i as int]@ == k@);
                    } else {
                        assert(keys@[i as int]@ == k@ && keys@[j as int]@ == k@);
                    }
                }
                dup = true;
            }
        }
        if dup && !contains_string(&out, &k) {
            let ghost before = out@;
            out.push(keys[i].clone());
            proof {
                assert forall|p: Seq<char>| has_string(out@, p) implies duplicated(keys@, p) by {
                    let a = choose|a: int| 0 <= a < out@.len() && out@[a]@ == p;
                    if a < before.len() {
                        assert(has_string(before, p));
                    }
                }
                assert forall|p: Seq<char>|
                    duplicated(keys@, p) && (exists|a: int| 0 <= a < i + 1 && keys@[a]@ == p) implies has_string(
                        out@,
                        p,
                    ) by {
                    let a = choose|a: int| 0 <= a < i + 1 && keys@[a]@ == p;
                    if a < i {
                        let c = choose|c: int| 0 <= c < before.len() && before[c]@ == p;
                        assert(out@[c] == before[c]);
                    } else {
                        assert(out@[before.len() as int]@ == p);
                    }
                }
            }
        } else {
            proof {
                assert forall|p: Seq<char>|
                    duplicated(keys@, p) && (exists|a: int| 0 <= a < i + 1 && keys@[a]@ == p) implies has_string(
                        out@,
                        p,
                    ) by {
                    let a = choose|a: int| 0 <= a < i + 1 && keys@[a]@ == p;
                    if a == i && !dup {
                        let (x, y) = choose|x: int, y: int|
                            0 <= x < y < keys@.len() && keys@[x]@ == p && keys@[y]@ == p;
                        if x != i {
                            assert(keys@[x]@ == k@);
                        } else {
                            assert(keys@[y]@ == k@);
                        }
                    }
                }
            }
        }
    }
    proof {
        assert forall|p: Seq<char>| duplicated(keys@, p) implies has_string(out@, p) by {
            let (x, y) = choose|x: int, y: int|
                0 <= x < y < keys@.len() && keys@[x]@ == p && keys@[y]@ == p;
            assert(keys@[x]@ == p);
        }
    }
    out
}

} // verus!
