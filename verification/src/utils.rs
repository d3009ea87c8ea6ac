//! Byte-level scanning of request URLs.
//!
//! A query token is whatever stands between the first `?` and the next `&`
//! (or the end) of a URL. The functions here work on the URL's UTF-8 bytes,
//! and their contracts are stated over the same byte sequences.

use vstd::prelude::*;
use vstd::string::StringSliceAdditionalSpecFns;

verus! {

/// The byte `'?'`, which opens the query string.
pub const QUERY_MARK: u8 = 0x3f;

/// The byte `'&'`, which ends the first query token.
pub const QUERY_SEP: u8 = 0x26;

/// Index of the first occurrence of `c` in `s`, or `-1` if `c` does not
/// occur.
pub open spec fn spec_find(s: Seq<u8>, c: u8) -> int
    decreases s.len(),
{
    if s.len() == 0 {
        -1
    } else if s[0] == c {
        0
    } else if spec_find(s.drop_first(), c) == -1 {
        -1
    } else {
        spec_find(s.drop_first(), c) + 1
    }
}

/// Conversely, the position of a first occurrence is what `spec_find`
/// returns.
pub proof fn lemma_find_at(s: Seq<u8>, c: u8, k: int)
    requires
        0 <= k < s.len(),
        s[k] == c,
        forall|j: int| 0 <= j < k ==> s[j] != c,
    ensures
        spec_find(s, c) == k,
    decreases s.len(),
{
    if k == 0 {
    } else {
        assert(forall|j: int|
            0 <= j < k - 1 ==> s.drop_first()[j] == s[j + 1]);
        lemma_find_at(s.drop_first(), c, k - 1);
    }
}

/// A byte that occurs nowhere is not found.
pub proof fn lemma_find_absent(s: Seq<u8>, c: u8)
    requires
        forall|j: int| 0 <= j < s.len() ==> s[j] != c,
    ensures
        spec_find(s, c) == -1,
    decreases s.len(),
{
    if s.len() > 0 {
        assert(forall|j: int|
            0 <= j < s.len() - 1 ==> s.drop_first()[j] == s[j + 1]);
        lemma_find_absent(s.drop_first(), c);
    }
}

/// Position of the first occurrence of `c` in the slice, if any.
pub fn find_byte(s: &[u8], c: u8) -> (r: Option<usize>)
    ensures
        match r {
            Some(i) => i < s@.len() && spec_find(s@, c) == i as int,
            None => spec_find(s@, c) == -1,
        },
{
    let n = s.len();
    let mut i: usize = 0;
    while i < n
        invariant
            i <= n,
            n == s@.len(),
            forall|j: int| 0 <= j < i ==> s@[j] != c,
        decreases n - i,
    {
        if s[i] == c {
            proof {
                lemma_find_at(s@, c, i as int);
            }
            return Some(i);
        }
        i = i + 1;
    }
    proof {
        lemma_find_absent(s@, c);
    }
    None
}

/// The first query token of a URL's bytes: what stands after the first `?`
/// and before the next `&`, empty when there is no `?` at all.
pub open spec fn spec_query_token(s: Seq<u8>) -> Seq<u8> {
    let q = spec_find(s, QUERY_MARK);
    if q == -1 {
        Seq::empty()
    } else {
        let rest = s.subrange(q + 1, s.len() as int);
        let e = spec_find(rest, QUERY_SEP);
        if e == -1 {
            rest
        } else {
            rest.subrange(0, e)
        }
    }
}

/// Extracts the first query token from a URL: the bytes after the first `?`
/// up to the next `&`, or up to the end. A URL without `?` yields an empty
/// vector.
pub fn find_digits_in_url(url: &str) -> (r: Vec<u8>)
    ensures
        r@ =~= spec_query_token(url.spec_bytes()),
{
    let bytes = url.as_bytes();
    let n = bytes.len();
    let found = find_byte(bytes, QUERY_MARK);
    match found {
        None => Vec::new(),
        Some(q) => {
            let mut out: Vec<u8> = Vec::new();
            let mut i: usize = q + 1;
            while i < n && bytes[i] != QUERY_SEP
                invariant
                    q + 1 <= i <= n,
                    n == bytes@.len(),
                    out@ =~= bytes@.subrange(q + 1, i as int),
                    forall|j: int| q + 1 <= j < i ==> bytes@[j] != QUERY_SEP,
                decreases n - i,
            {
                out.push(bytes[i]);
                i = i + 1;
            }
            proof {
                let rest = bytes@.subrange(q + 1, n as int);
                assert(forall|j: int|
                    0 <= j < rest.len() ==> rest[j] == bytes@[q + 1 + j]);
                if i < n {
                    assert(rest[i - (q + 1)] == QUERY_SEP);
                    lemma_find_at(rest, QUERY_SEP, i - (q + 1));
                    assert(out@ =~= rest.subrange(0, i - (q + 1)));
                } else {
                    lemma_find_absent(rest, QUERY_SEP);
                    assert(out@ =~= rest);
                }
            }
            out
        },
    }
}

} // verus!
