//! Character-level text helpers shared by the backend selector and the
//! options codecs: literal matching at a position and string equality.

use vstd::prelude::*;

verus! {

/// The literal `p` occurs in `s` at position `i`.
pub open spec fn lit_at(s: Seq<char>, i: int, p: Seq<char>) -> bool {
    0 <= i && i + p.len() <= s.len() && s.subrange(i, i + p.len() as int) == p
}

/// Checks character by character whether the literal `p` occurs in `s` at
/// position `i`.
pub fn has_lit_at(s: &str, i: usize, p: &str) -> (r: bool)
    ensures
        r == lit_at(s@, i as int, p@),
{
    let n = p.unicode_len();
    let m = s.unicode_len();
    if i > m || n > m - i {
        return false;
    }
    let mut k: usize = 0;
    while k < n
        invariant
            k <= n,
            n == p@.len(),
            m == s@.len(),
            i + n <= m,
            forall|j: int| 0 <= j < k ==> s@[i + j] == p@[j],
        decreases n - k,
    {
        if s.get_char(i + k) != p.get_char(k) {
            proof {
                if lit_at(s@, i as int, p@) {
                    assert(s@.subrange(i as int, i + p@.len() as int)[k as int] == s@[i + k]);
                }
            }
            return false;
        }
        k += 1;
    }
    proof {
        assert(s@.subrange(i as int, i + p@.len() as int) =~= p@);
    }
    true
}

/// No occurrence of `c` anywhere in `s`.
pub open spec fn text_has_no(s: Seq<char>, c: char) -> bool {
    forall|i: int| 0 <= i < s.len() ==> s[i] != c
}

/// The position of the first occurrence of `c` in `s` at or after `i`.
pub open spec fn scan_to(s: Seq<char>, i: int, c: char) -> Option<int>
    decreases s.len() - i,
{
    if i < 0 || i >= s.len() {
        None
    } else if s[i] == c {
        Some(i)
    } else {
        scan_to(s, i + 1, c)
    }
}

/// A position whose run up from `i` is free of `c` and which holds `c` is
/// what the scan finds.
pub proof fn lemma_scan_to_found(s: Seq<char>, i: int, j: int, c: char)
    requires
        0 <= i <= j < s.len(),
        s[j] == c,
        forall|k: int| i <= k < j ==> s[k] != c,
    ensures
        scan_to(s, i, c) == Some(j),
    decreases j - i,
{
    if i < j {
        lemma_scan_to_found(s, i + 1, j, c);
    }
}

/// When no occurrence of `c` lies at or after `i`, the scan finds nothing.
pub proof fn lemma_scan_to_none(s: Seq<char>, i: int, c: char)
    requires
        0 <= i <= s.len(),
        forall|k: int| i <= k < s.len() ==> s[k] != c,
    ensures
        scan_to(s, i, c) is None,
    decreases s.len() - i,
{
    if i < s.len() {
        lemma_scan_to_none(s, i + 1, c);
    }
}

/// Finds the first occurrence of `c` in `s` at or after `i`.
pub fn find_char(s: &str, i: usize, c: char) -> (r: Option<usize>)
    requires
        i <= s@.len(),
    ensures
        r matches Some(j) ==> i <= j < s@.len() && s@[j as int] == c && scan_to(
            s@,
            i as int,
            c,
        ) == Some(j as int),
        r is None ==> scan_to(s@, i as int, c) is None,
{
    let n = s.unicode_len();
    let mut k: usize = i;
    while k < n
        invariant
            i <= k <= n,
            n == s@.len(),
            forall|m: int| i <= m < k ==> s@[m] != c,
        decreases n - k,
    {
        if s.get_char(k) == c {
            proof {
                lemma_scan_to_found(s@, i as int, k as int, c);
            }
            return Some(k);
        }
        k += 1;
    }
    proof {
        lemma_scan_to_none(s@, i as int, c);
    }
    None
}

/// Whether `c` occurs anywhere in `s`.
pub fn contains_char(s: &str, c: char) -> (r: bool)
    ensures
        r == !text_has_no(s@, c),
{
    let n = s.unicode_len();
    let mut k: usize = 0;
    while k < n
        invariant
            k <= n,
            n == s@.len(),
            forall|m: int| 0 <= m < k ==> s@[m] != c,
        decreases n - k,
    {
        if s.get_char(k) == c {
            return true;
        }
        k += 1;
    }
    false
}

/// Whether two strings hold the same characters.
pub fn str_eq(a: &str, b: &str) -> (r: bool)
    ensures
        r == (a@ == b@),
{
    let n = a.unicode_len();
    if n != b.unicode_len() {
        return false;
    }
    let r = has_lit_at(a, 0, b);
    proof {
        if lit_at(a@, 0, b@) {
            assert(a@.subrange(0, a@.len() as int) =~= a@);
        }
        if a@ == b@ {
            assert(a@.subrange(0, b@.len() as int) =~= b@);
        }
    }
    r
}

} // verus!
