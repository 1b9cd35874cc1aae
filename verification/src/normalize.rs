//! Byte-level normalization before comparing or hashing, and the git blob
//! hash the Trees API reports.

use vstd::prelude::*;

use sha1::Digest;

use crate::gitattributes::AttributeMatch;
use crate::text::{decimal, push_char, push_decimal};

verus! {

/// How many leading bytes the binary heuristic inspects (as git does).
pub const BINARY_PROBE_BYTES: usize = 8000;

/// A NUL byte among the first [`BINARY_PROBE_BYTES`] bytes.
pub open spec fn looks_binary(b: Seq<u8>) -> bool {
    exists|i: int| 0 <= i < b.len() && i < BINARY_PROBE_BYTES && b[i] == 0
}

/// Whether `content` is treated as binary: a NUL byte among its first
/// [`BINARY_PROBE_BYTES`] bytes.
pub fn is_binary(content: &[u8]) -> (r: bool)
    ensures
        r == looks_binary(content@),
{
    let mut i: usize = 0;
    while i < content.len() && i < BINARY_PROBE_BYTES
        invariant
            0 <= i <= content@.len(),
            i <= BINARY_PROBE_BYTES,
            forall|j: int| 0 <= j < i ==> content@[j] != 0,
        decreases content@.len() - i,
    {
        if content[i] == 0 {
            return true;
        }
        i += 1;
    }
    false
}

/// `b` starts with the UTF-8 byte order mark.
pub open spec fn has_bom(b: Seq<u8>) -> bool {
    b.len() >= 3 && b[0] == 0xEF && b[1] == 0xBB && b[2] == 0xBF
}

/// Every CR LF pair replaced by LF (other CR bytes kept).
pub open spec fn crlf_to_lf(b: Seq<u8>) -> Seq<u8>
    decreases b.len(),
{
    if b.len() == 0 {
        Seq::empty()
    } else if b.len() >= 2 && b[0] == 13 && b[1] == 10 {
        seq![10u8] + crlf_to_lf(b.skip(2))
    } else {
        seq![b[0]] + crlf_to_lf(b.skip(1))
    }
}

/// Text normalization: drop a leading UTF-8 BOM unless `keep_bom`, then
/// turn CR LF line endings into LF.
pub open spec fn normalized(b: Seq<u8>, keep_bom: bool) -> Seq<u8> {
    crlf_to_lf(if !keep_bom && has_bom(b) { b.skip(3) } else { b })
}

/// Normalize text bytes (see [`normalized`]).
pub fn normalize_text(content: &[u8], keep_bom: bool) -> (out: Vec<u8>)
    ensures
        out@ == normalized(content@, keep_bom),
{
    let n = content.len();
    let start: usize = if !keep_bom && n >= 3 && content[0] == 0xEF && content[1] == 0xBB
        && content[2] == 0xBF {
        3
    } else {
        0
    };
    let ghost src = if !keep_bom && has_bom(content@) {
        content@.skip(3)
    } else {
        content@
    };
    assert(src =~= content@.skip(start as int));
    let mut out: Vec<u8> = Vec::new();
    let mut i = start;
    while i < n
        invariant
            start <= i <= n,
            n == content@.len(),
            src == content@.skip(start as int),
            out@ + crlf_to_lf(content@.skip(i as int)) == crlf_to_lf(src),
        decreases n - i,
    {
        let ghost rest = content@.skip(i as int);
        if i + 1 < n && content[i] == 13 && content[i + 1] == 10 {
            out.push(10);
            assert(rest.skip(2) =~= content@.skip(i + 2));
            assert(out@ + crlf_to_lf(content@.skip(i + 2)) =~= crlf_to_lf(src));
            i += 2;
        } else {
            out.push(content[i]);
            assert(rest.skip(1) =~= content@.skip(i + 1));
            assert(out@ + crlf_to_lf(content@.skip(i + 1)) =~= crlf_to_lf(src));
            i += 1;
        }
    }
    assert(content@.skip(n as int) =~= Seq::<u8>::empty());
    assert(out@ =~= crlf_to_lf(src));
    out
}

/// The bytes that are hashed for a path, and whether its content looks
/// binary: binary content and paths marked `binary` / `-text` are hashed
/// as they are; other content is normalized first.
pub open spec fn prepared(raw: Seq<u8>, keep_bom: bool, class: AttributeMatch) -> (Seq<u8>, bool) {
    if looks_binary(raw) || class is Binary {
        (raw, looks_binary(raw))
    } else {
        (normalized(raw, keep_bom), false)
    }
}

/// Prepare raw bytes for hashing (see [`prepared`]).
pub fn prepare_for_hash(raw: &[u8], keep_bom: bool, class: &AttributeMatch) -> (r: (Vec<u8>, bool))
    ensures
        (r.0@, r.1) == prepared(raw@, keep_bom, *class),
{
    let bin = is_binary(raw);
    let marked = match class {
        AttributeMatch::Binary => true,
        _ => false,
    };
    if bin || marked {
        (vstd::slice::slice_to_vec(raw), bin)
    } else {
        (normalize_text(raw, keep_bom), false)
    }
}

} // verus!

verus! {

/// The SHA-1 digest of `data`.
pub uninterp spec fn sha1_of(data: Seq<u8>) -> Seq<u8>;

/// `sha1::Sha1::digest`: the contract says the result is the SHA-1 digest
/// of `data` (not computed here) and is 20 bytes long.
#[verifier::external_body]
pub(crate) fn sha1_digest(data: &[u8]) -> (r: Vec<u8>)
    ensures
        r@ == sha1_of(data@),
        r@.len() == 20,
{
    sha1::Sha1::digest(data).to_vec()
}

/// Bytes of an ASCII character sequence.
pub open spec fn ascii_bytes(s: Seq<char>) -> Seq<u8> {
    s.map_values(|c: char| c as u8)
}

/// The git object header of a blob of `len` bytes: `blob {len}\0`.
pub open spec fn blob_header(len: nat) -> Seq<u8> {
    seq![98u8, 108u8, 111u8, 98u8, 32u8] + ascii_bytes(decimal(len)) + seq![0u8]
}

/// Lower-case hex digit of `d` (`0 <= d < 16`).
pub open spec fn hex_char(d: nat) -> char {
    if d < 10 {
        crate::text::digit_char(d)
    } else if d == 10 {
        'a'
    } else if d == 11 {
        'b'
    } else if d == 12 {
        'c'
    } else if d == 13 {
        'd'
    } else if d == 14 {
        'e'
    } else {
        'f'
    }
}

/// Lower-case hex rendering, two digits per byte.
pub open spec fn hex_lower(b: Seq<u8>) -> Seq<char>
    decreases b.len(),
{
    if b.len() == 0 {
        Seq::empty()
    } else {
        hex_lower(b.drop_last()) + seq![hex_char((b.last() / 16) as nat), hex_char((b.last() % 16) as nat)]
    }
}

/// The git blob id of `data` as the Trees API reports it: lower-case hex of
/// the SHA-1 of the blob header followed by the data.
pub open spec fn git_blob_id(data: Seq<u8>) -> Seq<char> {
    hex_lower(sha1_of(blob_header(data.len()) + data))
}

fn hex_digit(d: u8) -> (c: char)
    requires
        d < 16,
    ensures
        c == hex_char(d as nat),
{
    if d < 10 {
        if d == 0 {
            '0'
        } else if d == 1 {
            '1'
        } else if d == 2 {
            '2'
        } else if d == 3 {
            '3'
        } else if d == 4 {
            '4'
        } else if d == 5 {
            '5'
        } else if d == 6 {
            '6'
        } else if d == 7 {
            '7'
        } else if d == 8 {
            '8'
        } else {
            '9'
        }
    } else if d == 10 {
        'a'
    } else if d == 11 {
        'b'
    } else if d == 12 {
        'c'
    } else if d == 13 {
        'd'
    } else if d == 14 {
        'e'
    } else {
        'f'
    }
}

/// Lower-case hex of `b`.
pub fn to_hex_lower(b: &Vec<u8>) -> (s: String)
    ensures
        s@ == hex_lower(b@),
{
    let mut s = String::new();
    for i in 0..b.len()
        invariant
            s@ == hex_lower(b@.take(i as int)),
    {
        push_char(&mut s, hex_digit(b[i] / 16));
        push_char(&mut s, hex_digit(b[i] % 16));
        proof {
            assert(b@.take(i + 1).drop_last() =~= b@.take(i as int));
            assert(b@.take(i + 1).last() == b@[i as int]);
        }
    }
    assert(b@.take(b@.len() as int) =~= b@);
    s
}

/// The git blob id (hex SHA-1 of `blob {len}\0` + data) of `data`.
pub fn blob_hash(data: &[u8]) -> (id: String)
    ensures
        id@ == git_blob_id(data@),
{
    let mut digits = String::new();
    push_decimal(&mut digits, data.len());
    let ds = crate::text::chars_of(digits.as_str());
    let mut input: Vec<u8> = vec![98u8, 108u8, 111u8, 98u8, 32u8];
    let ghost prefix = input@;
    for i in 0..ds.len()
        invariant
            input@ == prefix + ascii_bytes(ds@.take(i as int)),
    {
        input.push(ds[i] as u8);
        assert(ascii_bytes(ds@.take(i + 1)) =~= ascii_bytes(ds@.take(i as int)).push(ds[i as int] as u8));
    }
    assert(ds@.take(ds@.len() as int) =~= ds@);
    input.push(0u8);
    assert(input@ =~= blob_header(data@.len()));
    for i in 0..data.len()
        invariant
            input@ == blob_header(data@.len()) + data@.take(i as int),
    {
        input.push(data[i]);
        assert(data@.take(i + 1) =~= data@.take(i as int).push(data@[i as int]));
        assert(input@ =~= blob_header(data@.len()) + data@.take(i + 1));
    }
    assert(data@.take(data@.len() as int) =~= data@);
    let digest = sha1_digest(input.as_slice());
    to_hex_lower(&digest)
}

} // verus!
