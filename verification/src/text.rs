//! Substring search over character sequences, used by the node search.

use vstd::prelude::*;
use vstd::string::StrSliceExecFns;

verus! {

/// Does `needle` occur as a contiguous run of characters inside `hay`?
pub open spec fn is_substring(needle: Seq<char>, hay: Seq<char>) -> bool {
    exists|k: int|
        0 <= k <= hay.len() - needle.len() && #[trigger] hay.subrange(
            k,
            k + needle.len() as int,
        ) == needle
}

/// The empty sequence occurs in every sequence.
pub proof fn lemma_empty_is_substring(needle: Seq<char>, hay: Seq<char>)
    requires
        needle.len() == 0,
    ensures
        is_substring(needle, hay),
{
    let k: int = 0;
    assert(hay.subrange(k, k + needle.len() as int) =~= needle);
}

/// Do the `needle@.len()` characters of `hay` starting at `k` spell `needle`?
fn match_at(hay: &str, needle: &str, k: usize) -> (b: bool)
    requires
        hay@.len() <= usize::MAX,
        k + needle@.len() <= hay@.len(),
    ensures
        b == (hay@.subrange(k as int, k + needle@.len()) == needle@),
{
    let m = needle.unicode_len();
    let mut j: usize = 0;
    while j < m
        invariant
            j <= m,
            m == needle@.len(),
            hay@.len() <= usize::MAX,
            k + m <= hay@.len(),
            forall|jj: int| 0 <= jj < j ==> hay@[k + jj] == needle@[jj],
        decreases m - j,
    {
        if hay.get_char(k + j) != needle.get_char(j) {
            proof {
                assert(hay@.subrange(k as int, k + m as int)[j as int] == hay@[k + j]);
            }
            return false;
        }
        j += 1;
    }
    proof {
        assert(hay@.subrange(k as int, k + m as int) =~= needle@);
    }
    true
}

/// Does `needle` occur in `hay`? The check works character by character, so
/// it agrees with the mathematical statement over the character sequences.
pub fn str_contains(hay: &str, needle: &str) -> (b: bool)
    ensures
        b == is_substring(needle@, hay@),
{
    let n = hay.unicode_len();
    let m = needle.unicode_len();
    if m > n {
        return false;
    }
    if m == 0 {
        proof {
            lemma_empty_is_substring(needle@, hay@);
        }
        return true;
    }
    let mut k: usize = 0;
    while k <= n - m
        invariant
            1 <= m <= n,
            n == hay@.len(),
            m == needle@.len(),
            k <= n - m + 1,
            forall|kk: int|
                0 <= kk < k ==> #[trigger] hay@.subrange(kk, kk + m as int) != needle@,
        decreases n - m - k + 1,
    {
        if match_at(hay, needle, k) {
            return true;
        }
        k += 1;
    }
    false
}

} // verus!
