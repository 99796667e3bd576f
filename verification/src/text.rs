//! Byte-level text helpers: ASCII case folding and substring search.
//!
//! Category labels compare case-insensitively and remote error messages
//! are matched against lower-case signatures; both are defined here over
//! the UTF-8 bytes of the strings involved.

use vstd::prelude::*;
use vstd::string::StringSliceAdditionalSpecFns;
use vstd::string::StrSliceExecFns;
use vstd::utf8::encode_utf8;

verus! {

/// ASCII lower-casing of a single byte: the letters `A`..`Z` (65..90)
/// move down to `a`..`z`; every other byte is unchanged.
pub open spec fn lower_byte(b: u8) -> u8 {
    if 65 <= b && b <= 90 {
        (b + 32) as u8
    } else {
        b
    }
}

/// ASCII lower-casing of a byte sequence.
pub open spec fn lower_bytes(s: Seq<u8>) -> Seq<u8> {
    s.map_values(|b: u8| lower_byte(b))
}

/// The key under which two strings compare ASCII-case-insensitively:
/// the lower-cased UTF-8 bytes. Multi-byte UTF-8 units are all at or
/// above 128, so folding the bytes only folds ASCII letters.
pub open spec fn fold_key(s: Seq<char>) -> Seq<u8> {
    lower_bytes(encode_utf8(s))
}

/// `n` occurs contiguously somewhere in `h`.
pub open spec fn has_subseq(h: Seq<u8>, n: Seq<u8>) -> bool {
    exists|i: int| 0 <= i && i + n.len() <= h.len() && #[trigger] h.subrange(i, i + n.len()) == n
}

/// Exec mirror of [`lower_byte`].
pub fn lower_byte_exec(b: u8) -> (r: u8)
    ensures
        r == lower_byte(b),
{
    if 65 <= b && b <= 90 {
        b + 32
    } else {
        b
    }
}

/// The ASCII-lower-cased UTF-8 bytes of a string.
pub fn fold_key_of(s: &str) -> (r: Vec<u8>)
    ensures
        r@ == fold_key(s@),
{
    let bs = s.as_bytes_vec();
    let mut out: Vec<u8> = Vec::new();
    let mut i: usize = 0;
    while i < bs.len()
        invariant
            i <= bs.len(),
            bs@ == encode_utf8(s@),
            out@ == lower_bytes(bs@.take(i as int)),
        decreases bs.len() - i,
    {
        out.push(lower_byte_exec(bs[i]));
        proof {
            assert(bs@.take(i + 1) =~= bs@.take(i as int).push(bs@[i as int]));
            assert(lower_bytes(bs@.take(i + 1)) =~= lower_bytes(bs@.take(i as int)).push(
                lower_byte(bs@[i as int]),
            ));
        }
        i = i + 1;
    }
    proof {
        assert(bs@.take(bs@.len() as int) =~= bs@);
    }
    out
}

/// Element-wise equality of two byte vectors.
pub fn bytes_equal(a: &Vec<u8>, b: &Vec<u8>) -> (r: bool)
    ensures
        r == (a@ == b@),
{
    if a.len() != b.len() {
        return false;
    }
    let mut i: usize = 0;
    while i < a.len()
        invariant
            a@.len() == b@.len(),
            i <= a@.len(),
            forall|k: int| 0 <= k < i ==> a@[k] == b@[k],
        decreases a@.len() - i,
    {
        if a[i] != b[i] {
            return false;
        }
        i = i + 1;
    }
    proof {
        assert(a@ =~= b@);
    }
    true
}

/// Whether `n` matches the bytes of `h` starting at `at`.
fn matches_at(h: &Vec<u8>, n: &Vec<u8>, at: usize) -> (r: bool)
    requires
        at + n@.len() <= h@.len(),
    ensures
        r == (h@.subrange(at as int, at + n@.len()) == n@),
{
    let mut j: usize = 0;
    while j < n.len()
        invariant
            j <= n@.len(),
            at + n@.len() <= h@.len(),
            h@.len() == h.len(),
            forall|k: int| 0 <= k < j ==> h@[at + k] == n@[k],
        decreases n@.len() - j,
    {
        if h[at + j] != n[j] {
            proof {
                assert(h@.subrange(at as int, at + n@.len())[j as int] == h@[at + j]);
            }
            return false;
        }
        j = j + 1;
    }
    proof {
        assert(h@.subrange(at as int, at + n@.len()) =~= n@);
    }
    true
}

/// Substring search: whether `n` occurs contiguously in `h`.
pub fn contains_bytes(h: &Vec<u8>, n: &Vec<u8>) -> (r: bool)
    ensures
        r == has_subseq(h@, n@),
{
    if n.len() > h.len() {
        return false;
    }
    if n.len() == 0 {
        proof {
            assert(h@.subrange(0, 0 + n@.len() as int) =~= n@);
        }
        return true;
    }
    let last = h.len() - n.len();
    let mut i: usize = 0;
    while i <= last
        invariant
            1 <= n@.len(),
            last == h@.len() - n@.len(),
            h@.len() == h.len(),
            i <= last + 1,
            forall|k: int| 0 <= k < i ==> #[trigger] h@.subrange(k, k + n@.len()) != n@,
        decreases last + 1 - i,
    {
        if matches_at(h, n, i) {
            return true;
        }
        i = i + 1;
    }
    false
}

} // verus!
