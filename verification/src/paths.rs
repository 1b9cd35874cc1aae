//! Comparison keys of paths: their byte-wise order (code-point order of
//! the characters), the sorted union of the two sides, and the key of a
//! walked local path.

use vstd::prelude::*;

use crate::text::{chars_of, push_char, string_of};

verus! {

/// `a` sorts strictly before `b` (lexicographic over code points, a proper
/// prefix first) — the order of `str` comparison.
pub open spec fn lex_lt(a: Seq<char>, b: Seq<char>) -> bool
    decreases a.len(),
{
    if a.len() == 0 {
        b.len() > 0
    } else if b.len() == 0 {
        false
    } else if a[0] != b[0] {
        (a[0] as int) < (b[0] as int)
    } else {
        lex_lt(a.drop_first(), b.drop_first())
    }
}

/// No sequence sorts before itself.
pub proof fn lemma_lex_irreflexive(a: Seq<char>)
    ensures
        !lex_lt(a, a),
    decreases a.len(),
{
    if a.len() > 0 {
        lemma_lex_irreflexive(a.drop_first());
    }
}

/// Two different sequences are ordered one way or the other, not both.
pub proof fn lemma_lex_total(a: Seq<char>, b: Seq<char>)
    ensures
        a != b ==> (lex_lt(a, b) || lex_lt(b, a)),
        !(lex_lt(a, b) && lex_lt(b, a)),
    decreases a.len(),
{
    if a.len() > 0 && b.len() > 0 {
        if a[0] == b[0] {
            lemma_lex_total(a.drop_first(), b.drop_first());
            if a != b {
                assert(a.drop_first() != b.drop_first()) by {
                    if a.drop_first() == b.drop_first() {
                        assert(a =~= seq![a[0]] + a.drop_first());
                        assert(b =~= seq![b[0]] + b.drop_first());
                    }
                }
            }
        } else {
            assert((a[0] as int) != (b[0] as int));
        }
    } else if a.len() == 0 && b.len() == 0 {
        assert(a =~= b);
    }
}

/// The order is transitive.
pub proof fn lemma_lex_transitive(a: Seq<char>, b: Seq<char>, c: Seq<char>)
    requires
        lex_lt(a, b),
        lex_lt(b, c),
    ensures
        lex_lt(a, c),
    decreases a.len(),
{
    if a.len() > 0 && b.len() > 0 && c.len() > 0 {
        if a[0] == b[0] && b[0] == c[0] {
            lemma_lex_transitive(a.drop_first(), b.drop_first(), c.drop_first());
        }
    }
}

/// The order after a common prefix of length `i`.
proof fn lemma_lex_skip(a: Seq<char>, b: Seq<char>, i: int)
    requires
        0 <= i <= a.len(),
        i <= b.len(),
        a.take(i) == b.take(i),
    ensures
        lex_lt(a, b) == lex_lt(a.skip(i), b.skip(i)),
    decreases i,
{
    if i > 0 {
        assert(a[0] == a.take(i)[0]);
        assert(b[0] == b.take(i)[0]);
        assert(a.drop_first().take(i - 1) =~= a.take(i).drop_first());
        assert(b.drop_first().take(i - 1) =~= b.take(i).drop_first());
        lemma_lex_skip(a.drop_first(), b.drop_first(), i - 1);
        assert(a.drop_first().skip(i - 1) =~= a.skip(i));
        assert(b.drop_first().skip(i - 1) =~= b.skip(i));
    } else {
        assert(a.skip(0) =~= a);
        assert(b.skip(0) =~= b);
    }
}

/// Whether `a` sorts strictly before `b`.
pub fn lex_less(a: &Vec<char>, b: &Vec<char>) -> (r: bool)
    ensures
        r == lex_lt(a@, b@),
{
    let mut i: usize = 0;
    while i < a.len() && i < b.len() && a[i] == b[i]
        invariant
            i <= a@.len(),
            i <= b@.len(),
            a@.take(i as int) == b@.take(i as int),
        decreases a@.len() - i,
    {
        assert(a@.take(i + 1) =~= a@.take(i as int).push(a@[i as int]));
        assert(b@.take(i + 1) =~= b@.take(i as int).push(b@[i as int]));
        i += 1;
    }
    proof {
        lemma_lex_skip(a@, b@, i as int);
    }
    if i == a.len() {
        i < b.len()
    } else if i == b.len() {
        false
    } else {
        assert(a@.skip(i as int)[0] == a@[i as int]);
        assert(b@.skip(i as int)[0] == b@[i as int]);
        a[i] < b[i]
    }
}

/// Strictly ascending, hence without duplicates.
pub open spec fn strictly_sorted(v: Seq<String>) -> bool {
    forall|i: int, j: int| 0 <= i < j < v.len() ==> lex_lt(#[trigger] v[i]@, #[trigger] v[j]@)
}

/// Some string of `v` has the characters `s`.
pub open spec fn holds(v: Seq<String>, s: Seq<char>) -> bool {
    exists|i: int| 0 <= i < v.len() && v[i]@ == s
}

/// Insert `x` into the strictly sorted `out` (with its character views
/// `outc`) unless already present.
fn insert_sorted(out: &mut Vec<String>, outc: &mut Vec<Vec<char>>, x: &String)
    requires
        strictly_sorted(old(out)@),
        old(outc)@.len() == old(out)@.len(),
        forall|k: int| 0 <= k < old(out)@.len() ==> #[trigger] old(outc)@[k]@ == old(out)@[k]@,
    ensures
        strictly_sorted(final(out)@),
        final(outc)@.len() == final(out)@.len(),
        forall|k: int| 0 <= k < final(out)@.len() ==> #[trigger] final(outc)@[k]@ == final(out)@[k]@,
        forall|s: Seq<char>| holds(final(out)@, s) <==> (holds(old(out)@, s) || s == x@),
{
    let xc = chars_of(x.as_str());
    let mut lo: usize = 0;
    let mut hi: usize = out.len();
    while lo < hi
        invariant
            out@ == old(out)@,
            outc@ == old(outc)@,
            outc@.len() == out@.len(),
            forall|k: int| 0 <= k < out@.len() ==> #[trigger] outc@[k]@ == out@[k]@,
            strictly_sorted(out@),
            xc@ == x@,
            lo <= hi <= out@.len(),
            forall|k: int| 0 <= k < lo ==> lex_lt(#[trigger] out@[k]@, x@),
            forall|k: int| hi <= k < out@.len() ==> !lex_lt(#[trigger] out@[k]@, x@),
        decreases hi - lo,
    {
        let mid = lo + (hi - lo) / 2;
        if lex_less(&outc[mid], &xc) {
            proof {
                assert forall|k: int| 0 <= k < mid + 1 implies lex_lt(#[trigger] out@[k]@, x@) by {
                    if k < mid {
                        lemma_lex_transitive(out@[k]@, out@[mid as int]@, x@);
                    }
                }
            }
            lo = mid + 1;
        } else {
            proof {
                assert forall|k: int| mid <= k < out@.len() implies !lex_lt(#[trigger] out@[k]@, x@) by {
                    if k > mid {
                        if lex_lt(out@[k]@, x@) {
                            lemma_lex_total(out@[mid as int]@, x@);
                            if out@[mid as int]@ == x@ {
                                lemma_lex_total(out@[mid as int]@, out@[k]@);
                            } else {
                                lemma_lex_transitive(x@, out@[mid as int]@, out@[k]@);
                                lemma_lex_total(x@, out@[k]@);
                            }
                        }
                    }
                }
            }
            hi = mid;
        }
    }
    if lo < out.len() && crate::text::chars_eq(&outc[lo], &xc) {
        proof {
            assert(holds(out@, x@));
        }
        return;
    }
    proof {
        assert forall|k: int| 0 <= k < out@.len() implies out@[k]@ != x@ by {
            if k < lo {
                lemma_lex_irreflexive(x@);
            } else if k > lo {
                // out[lo] is not below x and differs from it, so x < out[lo] < out[k]
                lemma_lex_total(out@[lo as int]@, x@);
                if out@[k]@ == x@ {
                    lemma_lex_transitive(x@, out@[lo as int]@, out@[k]@);
                    lemma_lex_irreflexive(x@);
                }
            }
        }
    }
    let ghost before = out@;
    let ghost beforec = outc@;
    assert(before == old(out)@);
    out.insert(lo, x.clone());
    outc.insert(lo, xc);
    proof {
        assert forall|i: int, j: int| 0 <= i < j < out@.len() implies lex_lt(
            #[trigger] out@[i]@,
            #[trigger] out@[j]@,
        ) by {
            if j < lo {
                assert(out@[i] == before[i] && out@[j] == before[j]);
            } else if j == lo {
                assert(out@[i] == before[i]);
            } else if i > lo {
                assert(out@[i] == before[i - 1] && out@[j] == before[j - 1]);
            } else {
                // x sorts before before[j - 1] >= before[lo]
                lemma_lex_total(before[lo as int]@, x@);
                if j - 1 > lo {
                    lemma_lex_transitive(x@, before[lo as int]@, before[j - 1]@);
                }
                if i < lo {
                    assert(out@[i] == before[i]);
                    lemma_lex_transitive(before[i]@, x@, before[j - 1]@);
                }
            }
        }
        assert forall|k: int| 0 <= k < out@.len() implies #[trigger] outc@[k]@ == out@[k]@ by {
            if k < lo {
                assert(outc@[k] == beforec[k]);
            } else if k > lo {
                assert(outc@[k] == beforec[k - 1]);
            }
        }
        assert forall|s: Seq<char>| holds(out@, s) <==> (holds(before, s) || s == x@) by {
            if holds(out@, s) {
                let k = choose|k: int| 0 <= k < out@.len() && out@[k]@ == s;
                if k < lo {
                    assert(before[k]@ == s);
                } else if k > lo {
                    assert(before[k - 1]@ == s);
                }
            }
            if holds(before, s) {
                let k = choose|k: int| 0 <= k < before.len() && before[k]@ == s;
                if k < lo {
                    assert(out@[k]@ == s);
                } else {
                    assert(out@[k + 1]@ == s);
                }
            }
            if s == x@ {
                assert(out@[lo as int]@ == s);
            }
        }
        assert(forall|s: Seq<char>| holds(out@, s) <==> (holds(old(out)@, s) || s == x@));
    }
}

/// Some of the first `n` strings of `v` has the characters `s`.
pub open spec fn holds_prefix(v: Seq<String>, n: int, s: Seq<char>) -> bool {
    exists|k: int| 0 <= k < n && #[trigger] v[k]@ == s
}

/// The paths of both sides, each once, in ascending order.
pub fn sorted_union(a: &Vec<String>, b: &Vec<String>) -> (r: Vec<String>)
    ensures
        strictly_sorted(r@),
        forall|s: Seq<char>| holds(r@, s) <==> (holds(a@, s) || holds(b@, s)),
{
    let mut out: Vec<String> = Vec::new();
    let mut outc: Vec<Vec<char>> = Vec::new();
    for i in 0..a.len()
        invariant
            strictly_sorted(out@),
            outc@.len() == out@.len(),
            forall|k: int| 0 <= k < out@.len() ==> #[trigger] outc@[k]@ == out@[k]@,
            forall|s: Seq<char>| holds(out@, s) <==> holds_prefix(a@, i as int, s),
    {
        insert_sorted(&mut out, &mut outc, &a[i]);
        proof {
            assert forall|s: Seq<char>| holds(out@, s) <==> holds_prefix(a@, i + 1, s) by {
                if holds_prefix(a@, i + 1, s) {
                    let k = choose|k: int| 0 <= k < i + 1 && #[trigger] a@[k]@ == s;
                    if k < i {
                        assert(holds_prefix(a@, i as int, s));
                    }
                }
                if holds_prefix(a@, i as int, s) {
                    let k = choose|k: int| 0 <= k < i && #[trigger] a@[k]@ == s;
                    assert(holds_prefix(a@, i + 1, s));
                }
                if s == a@[i as int]@ {
                    assert(holds_prefix(a@, i + 1, s));
                }
            }
        }
    }
    for i in 0..b.len()
        invariant
            strictly_sorted(out@),
            outc@.len() == out@.len(),
            forall|k: int| 0 <= k < out@.len() ==> #[trigger] outc@[k]@ == out@[k]@,
            forall|s: Seq<char>| holds(out@, s) <==> (holds(a@, s) || holds_prefix(b@, i as int, s)),
    {
        insert_sorted(&mut out, &mut outc, &b[i]);
        proof {
            assert forall|s: Seq<char>| holds(out@, s) <==> (holds(a@, s) || holds_prefix(b@, i + 1, s)) by {
                if holds_prefix(b@, i + 1, s) {
                    let k = choose|k: int| 0 <= k < i + 1 && #[trigger] b@[k]@ == s;
                    if k < i {
                        assert(holds_prefix(b@, i as int, s));
                    }
                }
                if holds_prefix(b@, i as int, s) {
                    let k = choose|k: int| 0 <= k < i && #[trigger] b@[k]@ == s;
                    assert(holds_prefix(b@, i + 1, s));
                }
                if s == b@[i as int]@ {
                    assert(holds_prefix(b@, i + 1, s));
                }
            }
        }
    }
    out
}

} // verus!

verus! {

/// What Unicode NFC normalization (`unicode-normalization`) makes of `s`.
pub uninterp spec fn nfc_of(s: Seq<char>) -> Seq<char>;

/// `UnicodeNormalization::nfc` of the `unicode-normalization` crate: the
/// contract only says the result is the NFC form of `s`, not what that is.
#[verifier::external_body]
pub(crate) fn to_nfc(s: &str) -> (r: String)
    ensures
        r@ == nfc_of(s@),
{
    unicode_normalization::UnicodeNormalization::nfc(s).collect::<String>()
}

/// `s` with every backslash turned into a forward slash.
pub open spec fn forward_slashes(s: Seq<char>) -> Seq<char> {
    s.map_values(|c: char| if c == '\\' { '/' } else { c })
}

/// The part of `path` below `root`: empty when they are equal, the rest
/// after the separating `/` (or directly after a `root` that ends in `/`),
/// none when `path` is not under `root`.
pub open spec fn below_root(root: Seq<char>, path: Seq<char>) -> Option<Seq<char>> {
    if root.len() <= path.len() && path.take(root.len() as int) == root {
        let tail = path.skip(root.len() as int);
        if tail.len() == 0 {
            Some(tail)
        } else if tail[0] == '/' {
            Some(tail.skip(1))
        } else if root.len() > 0 && root.last() == '/' {
            Some(tail)
        } else {
            None
        }
    } else {
        None
    }
}

/// Comparison key of a walked path: the part below `root`, with forward
/// slashes, NFC-normalized; none when `path` is not under `root`.
pub fn relative_path(root: &str, path: &str) -> (r: Option<String>)
    ensures
        below_root(root@, path@) is None ==> r is None,
        below_root(root@, path@) matches Some(rest) ==> (r matches Some(k) && k@ == nfc_of(
            forward_slashes(rest),
        )),
{
    let rc = chars_of(root);
    let pc = chars_of(path);
    if rc.len() > pc.len() {
        return None;
    }
    let mut i: usize = 0;
    while i < rc.len()
        invariant
            rc@ == root@,
            pc@ == path@,
            rc@.len() <= pc@.len(),
            i <= rc@.len(),
            forall|k: int| 0 <= k < i ==> rc@[k] == pc@[k],
        decreases rc@.len() - i,
    {
        if rc[i] != pc[i] {
            assert(path@.take(root@.len() as int)[i as int] != root@[i as int]);
            return None;
        }
        i += 1;
    }
    assert(path@.take(root@.len() as int) =~= root@);
    let start: usize = if pc.len() == rc.len() {
        rc.len()
    } else if pc[rc.len()] == '/' {
        rc.len() + 1
    } else if rc.len() > 0 && rc[rc.len() - 1] == '/' {
        rc.len()
    } else {
        return None;
    };
    let ghost rest = path@.skip(start as int);
    assert(below_root(root@, path@) == Some(rest)) by {
        let tail = path@.skip(root@.len() as int);
        if tail.len() > 0 && tail[0] == '/' {
            assert(tail.skip(1) =~= rest);
        } else {
            assert(tail =~= rest);
        }
    }
    let mut key = String::new();
    let mut j = start;
    while j < pc.len()
        invariant
            pc@ == path@,
            start <= j <= pc@.len(),
            rest == path@.skip(start as int),
            key@ == forward_slashes(rest.take(j - start)),
        decreases pc@.len() - j,
    {
        let c = if pc[j] == '\\' {
            '/'
        } else {
            pc[j]
        };
        push_char(&mut key, c);
        assert(rest.take(j + 1 - start) =~= rest.take(j - start).push(pc@[j as int]));
        assert(key@ =~= forward_slashes(rest.take(j + 1 - start)));
        j += 1;
    }
    assert(rest.take(pc@.len() - start) =~= rest);
    Some(to_nfc(key.as_str()))
}

} // verus!
