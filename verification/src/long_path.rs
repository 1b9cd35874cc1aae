//! Paths Windows cannot represent without a `\\?\` prefix (`MAX_PATH`) and
//! DOS reserved device names in any path segment.

use vstd::prelude::*;
use vstd::string::StringSliceAdditionalSpecFns;

verus! {

/// Windows `MAX_PATH` (with terminating NUL): a path of this many bytes or
/// more is flagged.
pub const WINDOWS_MAX_PATH: usize = 260;

/// The byte of `/`, the segment separator.
pub const SLASH: u8 = 47;

/// The byte of `.`, which ends a segment's stem.
pub const DOT: u8 = 46;

/// ASCII upper-case of a byte (other bytes unchanged).
pub open spec fn up(c: u8) -> u8 {
    if 97 <= c <= 122 {
        (c - 32) as u8
    } else {
        c
    }
}

/// The first three bytes of `s` are `x y z`, ignoring ASCII case.
pub open spec fn head3(s: Seq<u8>, x: u8, y: u8, z: u8) -> bool {
    up(s[0]) == x && up(s[1]) == y && up(s[2]) == z
}

/// `s` is one of `CON PRN AUX NUL COM1..COM9 LPT1..LPT9`, ignoring ASCII
/// case (`COM0`, `COM10`, `LPT0` are not reserved). Bytes are written as
/// their ASCII codes: C=67 O=79 N=78 P=80 R=82 A=65 U=85 X=88 L=76 M=77
/// T=84, digits 1..9 = 49..57.
pub open spec fn reserved_stem(s: Seq<u8>) -> bool {
    ||| s.len() == 3 && (head3(s, 67, 79, 78) || head3(s, 80, 82, 78) || head3(
        s,
        65,
        85,
        88,
    ) || head3(s, 78, 85, 76))
    ||| s.len() == 4 && (head3(s, 67, 79, 77) || head3(s, 76, 80, 84)) && 49 <= s[3]
        <= 57
}

/// `k` ends the stem of `seg`: the part before the first `.`.
pub open spec fn stem_end(seg: Seq<u8>, k: int) -> bool {
    &&& 0 <= k <= seg.len()
    &&& forall|m: int| 0 <= m < k ==> seg[m] != DOT
    &&& (k == seg.len() || seg[k] == DOT)
}

/// The stem (bytes before the first `.`) of the segment is a reserved DOS
/// device name.
pub open spec fn segment_reserved(seg: Seq<u8>) -> bool {
    exists|k: int| stem_end(seg, k) && reserved_stem(seg.take(k))
}

/// `[i, j)` is one of the `/`-separated segments of `b`.
pub open spec fn is_segment(b: Seq<u8>, i: int, j: int) -> bool {
    &&& 0 <= i <= j <= b.len()
    &&& (i == 0 || b[i - 1] == SLASH)
    &&& (j == b.len() || b[j] == SLASH)
    &&& forall|m: int| i <= m < j ==> b[m] != SLASH
}

/// A path (its UTF-8 bytes) Windows cannot hold: `MAX_PATH` bytes or more,
/// or some segment whose stem is a reserved device name.
pub open spec fn invalid_path(b: Seq<u8>) -> bool {
    b.len() >= WINDOWS_MAX_PATH || exists|i: int, j: int|
        is_segment(b, i, j) && segment_reserved(b.subrange(i, j))
}

fn upper(c: u8) -> (r: u8)
    ensures
        r == up(c),
{
    if 97 <= c && c <= 122 {
        c - 32
    } else {
        c
    }
}

/// Whether the bytes `b[i..j)`, taken as a segment, have a reserved stem.
fn range_reserved(b: &[u8], i: usize, j: usize) -> (r: bool)
    requires
        i <= j <= b@.len(),
    ensures
        r == segment_reserved(b@.subrange(i as int, j as int)),
{
    let ghost seg = b@.subrange(i as int, j as int);
    let mut k = i;
    while k < j && b[k] != DOT
        invariant
            i <= k <= j <= b@.len(),
            seg == b@.subrange(i as int, j as int),
            forall|m: int| 0 <= m < k - i ==> seg[m] != DOT,
        decreases j - k,
    {
        k += 1;
    }
    let ghost kk = (k - i) as int;
    assert(stem_end(seg, kk));
    assert forall|k2: int| stem_end(seg, k2) implies k2 == kk by {
        if k2 < kk {
            assert(seg[k2] == DOT);
        } else if k2 > kk {
            assert(seg[kk] == DOT);
        }
    }
    let len = k - i;
    let ghost stem = seg.take(kk);
    assert(forall|m: int| 0 <= m < kk ==> stem[m] == b@[i + m]);
    let r = if len == 3 {
        let (x, y, z) = (upper(b[i]), upper(b[i + 1]), upper(b[i + 2]));
        (x == 67 && y == 79 && z == 78) || (x == 80 && y == 82 && z == 78) || (x == 65
            && y == 85 && z == 88) || (x == 78 && y == 85 && z == 76)
    } else if len == 4 {
        let (x, y, z) = (upper(b[i]), upper(b[i + 1]), upper(b[i + 2]));
        ((x == 67 && y == 79 && z == 77) || (x == 76 && y == 80 && z == 84)) && 49
            <= b[i + 3] && b[i + 3] <= 57
    } else {
        false
    };
    assert(r == reserved_stem(stem));
    r
}

/// Whether a single segment's stem (text before the first `.`) is a DOS
/// reserved device name, ignoring ASCII case.
pub fn segment_is_reserved(segment: &str) -> (r: bool)
    ensures
        r == segment_reserved(segment.spec_bytes()),
{
    let b = segment.as_bytes();
    let r = range_reserved(b, 0, b.len());
    assert(b@.subrange(0, b@.len() as int) =~= b@);
    r
}

/// Whether `path` (relative, forward-slash) cannot be represented on
/// Windows: `MAX_PATH` bytes or more, or a reserved device name as the stem
/// of any segment.
pub fn is_invalid(path: &str) -> (r: bool)
    ensures
        r == invalid_path(path.spec_bytes()),
{
    let b = path.as_bytes();
    let n = b.len();
    if n >= WINDOWS_MAX_PATH {
        return true;
    }
    let mut start: usize = 0;
    let mut idx: usize = 0;
    while idx < n
        invariant
            n == b@.len(),
            b@ == path.spec_bytes(),
            n < WINDOWS_MAX_PATH,
            start <= idx <= n,
            start == 0 || b@[start - 1] == SLASH,
            forall|m: int| start <= m < idx ==> b@[m] != SLASH,
            forall|i2: int, j2: int|
                is_segment(b@, i2, j2) && j2 < start ==> !segment_reserved(b@.subrange(i2, j2)),
        decreases n - idx,
    {
        if b[idx] == SLASH {
            if range_reserved(b, start, idx) {
                assert(is_segment(b@, start as int, idx as int) && segment_reserved(
                    b@.subrange(start as int, idx as int),
                ));
                return true;
            }
            assert forall|i2: int, j2: int|
                is_segment(b@, i2, j2) && j2 < idx + 1 implies !segment_reserved(
                b@.subrange(i2, j2),
            ) by {
                if j2 >= start {
                    // the segment ends at `idx`, hence starts at `start`
                    if j2 < idx {
                        assert(b@[j2] == SLASH);
                    }
                    if i2 > start {
                        assert(b@[i2 - 1] == SLASH);
                    }
                    if i2 < start {
                        assert(b@[start - 1] == SLASH);
                    }
                }
            }
            start = idx + 1;
        }
        idx += 1;
    }
    let last = range_reserved(b, start, n);
    assert(is_segment(b@, start as int, n as int));
    assert forall|i2: int, j2: int|
        is_segment(b@, i2, j2) && j2 >= start implies i2 == start && j2 == n by {
        if j2 < n {
            assert(b@[j2] == SLASH);
        }
        if i2 > start {
            assert(b@[i2 - 1] == SLASH);
        }
        if i2 < start {
            assert(b@[start - 1] == SLASH);
        }
    }
    if last {
        assert(is_segment(b@, start as int, n as int) && segment_reserved(
            b@.subrange(start as int, n as int),
        ));
    }
    last
}

} // verus!
