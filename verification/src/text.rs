//! Verified helpers over strings: equality, substring search, digit parsing.
//!
//! The marker protocol on a monitor child's output stream is line based, so
//! the relay needs exact, specified forms of the usual string operations.

use vstd::prelude::*;
use vstd::string::*;

verus! {

/// The views of a sequence of strings.
pub open spec fn str_views(v: Seq<String>) -> Seq<Seq<char>> {
    v.map_values(|x: String| x@)
}

/// The pattern `p` occurs in `s` at position `i`.
pub open spec fn contains_at(s: Seq<char>, p: Seq<char>, i: int) -> bool {
    0 <= i && i + p.len() <= s.len() && s.subrange(i, i + p.len()) == p
}

/// The pattern `p` occurs somewhere in `s`.
pub open spec fn spec_contains(s: Seq<char>, p: Seq<char>) -> bool {
    exists|i: int| contains_at(s, p, i)
}

/// Character-for-character equality of two string slices.
pub fn str_eq(a: &str, b: &str) -> (r: bool)
    ensures
        r == (a@ == b@),
{
    let alen = a.unicode_len();
    let blen = b.unicode_len();
    if alen != blen {
        return false;
    }
    let mut i: usize = 0;
    while i < alen
        invariant
            alen == a@.len(),
            blen == b@.len(),
            alen == blen,
            i <= alen,
            forall|j: int| 0 <= j < i ==> a@[j] == b@[j],
        decreases alen - i,
    {
        if a.get_char(i) != b.get_char(i) {
            return false;
        }
        i += 1;
    }
    proof {
        assert(a@ =~= b@);
    }
    true
}

/// Does `p` occur in `s` at position `at`?
pub fn matches_at(s: &str, p: &str, at: usize) -> (r: bool)
    ensures
        r == contains_at(s@, p@, at as int),
{
    let slen = s.unicode_len();
    let plen = p.unicode_len();
    if plen > slen || at > slen - plen {
        return false;
    }
    let mut j: usize = 0;
    while j < plen
        invariant
            slen == s@.len(),
            plen == p@.len(),
            plen <= slen,
            at + plen <= slen,
            j <= plen,
            forall|k: int| 0 <= k < j ==> s@[at + k] == p@[k],
        decreases plen - j,
    {
        if s.get_char(at + j) != p.get_char(j) {
            proof {
                assert(s@.subrange(at as int, at + p@.len())[j as int] == s@[at + j]);
            }
            return false;
        }
        j += 1;
    }
    proof {
        assert(s@.subrange(at as int, at + p@.len()) =~= p@);
    }
    true
}

/// Does `s` start with `p`?
pub fn str_has_prefix(s: &str, p: &str) -> (r: bool)
    ensures
        r == contains_at(s@, p@, 0),
{
    matches_at(s, p, 0)
}

/// Does `s` end with `p`?
pub fn str_has_suffix(s: &str, p: &str) -> (r: bool)
    ensures
        r == (p@.len() <= s@.len() && contains_at(s@, p@, s@.len() - p@.len())),
{
    let slen = s.unicode_len();
    let plen = p.unicode_len();
    if plen > slen {
        return false;
    }
    matches_at(s, p, slen - plen)
}

/// Does `p` occur anywhere in `s`?
pub fn str_contains(s: &str, p: &str) -> (r: bool)
    ensures
        r == spec_contains(s@, p@),
{
    let slen = s.unicode_len();
    let plen = p.unicode_len();
    if plen > slen {
        return false;
    }
    if plen == 0 {
        proof {
            assert(contains_at(s@, p@, 0)) by {
                assert(s@.subrange(0, 0) =~= p@);
            }
        }
        return true;
    }
    let mut i: usize = 0;
    while i <= slen - plen
        invariant
            slen == s@.len(),
            plen == p@.len(),
            0 < plen <= slen,
            i <= slen - plen + 1,
            forall|k: int| 0 <= k < i ==> !contains_at(s@, p@, k),
        decreases slen - plen - i + 1,
    {
        if matches_at(s, p, i) {
            return true;
        }
        i += 1;
    }
    false
}

/// The position of the first `c` in `s`, or `-1` if there is none.
pub open spec fn first_index_of(s: Seq<char>, c: char) -> int
    decreases s.len(),
{
    if s.len() == 0 {
        -1
    } else if s[0] == c {
        0
    } else {
        let r = first_index_of(s.skip(1), c);
        if r < 0 {
            -1
        } else {
            r + 1
        }
    }
}

proof fn lemma_first_index_of(s: Seq<char>, c: char, k: int)
    requires
        0 <= k <= s.len(),
        forall|j: int| 0 <= j < k ==> s[j] != c,
        k < s.len() ==> s[k] == c,
    ensures
        k < s.len() ==> first_index_of(s, c) == k,
        k == s.len() ==> first_index_of(s, c) == -1,
    decreases s.len(),
{
    if s.len() > 0 && s[0] != c {
        assert(forall|j: int| 0 <= j < s.skip(1).len() ==> s.skip(1)[j] == s[j + 1]);
        lemma_first_index_of(s.skip(1), c, k - 1);
    }
}

/// The position of the first `c` in `s`, if any.
pub fn index_of_char(s: &str, c: char) -> (r: Option<usize>)
    ensures
        match r {
            Option::Some(k) => k < s@.len() && first_index_of(s@, c) == k && s@[k as int] == c,
            Option::None => first_index_of(s@, c) == -1 && forall|j: int|
                0 <= j < s@.len() ==> s@[j] != c,
        },
{
    let n = s.unicode_len();
    let mut i: usize = 0;
    while i < n
        invariant
            n == s@.len(),
            i <= n,
            forall|j: int| 0 <= j < i ==> s@[j] != c,
        decreases n - i,
    {
        if s.get_char(i) == c {
            proof {
                lemma_first_index_of(s@, c, i as int);
            }
            return Option::Some(i);
        }
        i += 1;
    }
    proof {
        lemma_first_index_of(s@, c, n as int);
    }
    Option::None
}

/// The position of the first occurrence of `p` in `s`, or `-1`.
pub open spec fn first_match(s: Seq<char>, p: Seq<char>) -> int
    decreases s.len(),
{
    if contains_at(s, p, 0) {
        0
    } else if s.len() == 0 {
        -1
    } else {
        let r = first_match(s.skip(1), p);
        if r < 0 {
            -1
        } else {
            r + 1
        }
    }
}

proof fn lemma_first_match(s: Seq<char>, p: Seq<char>, k: int)
    requires
        p.len() >= 1,
        0 <= k <= s.len(),
        forall|j: int| 0 <= j < k ==> !contains_at(s, p, j),
        k < s.len() ==> contains_at(s, p, k),
    ensures
        k < s.len() ==> first_match(s, p) == k,
        k == s.len() ==> first_match(s, p) == -1,
    decreases s.len(),
{
    if s.len() == 0 {
    } else if contains_at(s, p, 0) {
    } else {
        assert forall|j: int| 0 <= j implies contains_at(s.skip(1), p, j) == contains_at(
            s,
            p,
            j + 1,
        ) by {
            if j + p.len() <= s.skip(1).len() {
                assert(s.skip(1).subrange(j, j + p.len()) =~= s.subrange(j + 1, j + 1 + p.len()));
            }
        }
        lemma_first_match(s.skip(1), p, k - 1);
    }
}

/// The position of the first occurrence of `p` in `s`, if any.
pub fn find_first_match(s: &str, p: &str) -> (r: Option<usize>)
    requires
        p@.len() >= 1,
    ensures
        match r {
            Option::Some(k) => first_match(s@, p@) == k && contains_at(s@, p@, k as int),
            Option::None => first_match(s@, p@) == -1 && !spec_contains(s@, p@),
        },
{
    let slen = s.unicode_len();
    let plen = p.unicode_len();
    let mut i: usize = 0;
    while i < slen
        invariant
            slen == s@.len(),
            plen == p@.len(),
            plen >= 1,
            i <= slen,
            forall|j: int| 0 <= j < i ==> !contains_at(s@, p@, j),
        decreases slen - i,
    {
        if matches_at(s, p, i) {
            proof {
                lemma_first_match(s@, p@, i as int);
            }
            return Option::Some(i);
        }
        i += 1;
    }
    proof {
        lemma_first_match(s@, p@, slen as int);
    }
    Option::None
}

/// The character code with an ASCII lower-case letter folded to its
/// upper-case form.
pub open spec fn upper_code(c: char) -> int {
    if 97 <= c as u32 && c as u32 <= 122 {
        c as u32 - 32
    } else {
        c as u32 as int
    }
}

/// Equality of two texts up to ASCII letter case.
pub open spec fn ascii_eq_ic(a: Seq<char>, b: Seq<char>) -> bool {
    a.len() == b.len() && forall|i: int|
        0 <= i < a.len() ==> #[trigger] upper_code(a[i]) == upper_code(b[i])
}

/// Compare two string slices up to ASCII letter case.
pub fn str_eq_ignore_ascii_case(a: &str, b: &str) -> (r: bool)
    ensures
        r == ascii_eq_ic(a@, b@),
{
    let alen = a.unicode_len();
    let blen = b.unicode_len();
    if alen != blen {
        return false;
    }
    let mut i: usize = 0;
    while i < alen
        invariant
            alen == a@.len(),
            blen == b@.len(),
            alen == blen,
            i <= alen,
            forall|j: int| 0 <= j < i ==> #[trigger] upper_code(a@[j]) == upper_code(b@[j]),
        decreases alen - i,
    {
        let ua = a.get_char(i) as u32;
        let ub = b.get_char(i) as u32;
        let fa = if 97 <= ua && ua <= 122 {
            ua - 32
        } else {
            ua
        };
        let fb = if 97 <= ub && ub <= 122 {
            ub - 32
        } else {
            ub
        };
        proof {
            assert(fa as int == upper_code(a@[i as int]));
            assert(fb as int == upper_code(b@[i as int]));
        }
        if fa != fb {
            return false;
        }
        i += 1;
    }
    true
}

/// Is `c` an ASCII decimal digit?
pub open spec fn is_digit_char(c: char) -> bool {
    48 <= c as u32 && c as u32 <= 57
}

/// Every character of `s` is an ASCII decimal digit.
pub open spec fn all_digits(s: Seq<char>) -> bool {
    forall|i: int| 0 <= i < s.len() ==> is_digit_char(#[trigger] s[i])
}

/// The numeric distance of a character from `'0'`.
pub open spec fn digit_val(c: char) -> int {
    c as u32 - 48
}

/// The base-ten value of a digit sequence.
pub open spec fn digits_value(s: Seq<char>) -> int
    decreases s.len(),
{
    if s.len() == 0 {
        0
    } else {
        digits_value(s.drop_last()) * 10 + digit_val(s.last())
    }
}

/// Once a prefix of `s` reads beyond `i32::MAX`, the whole of `s` does too.
proof fn lemma_digits_stay_large(s: Seq<char>, i: int)
    requires
        0 <= i <= s.len(),
        digits_value(s.subrange(0, i)) > i32::MAX,
    ensures
        digits_value(s) > i32::MAX,
    decreases s.len() - i,
{
    if i == s.len() {
        assert(s.subrange(0, i) =~= s);
    } else {
        assert(s.subrange(0, i + 1).drop_last() =~= s.subrange(0, i));
        assert(s.subrange(0, i + 1).last() == s[i]);
        lemma_digits_stay_large(s, i + 1);
    }
}

/// Read a nonnegative decimal number, in the way the marker protocol
/// writes one: at least one digit and nothing but digits.
pub fn parse_i32_digits(s: &str) -> (r: Option<i32>)
    ensures
        match r {
            Some(v) => s@.len() > 0 && all_digits(s@) && v as int == digits_value(s@),
            None => s@.len() == 0 || !all_digits(s@) || digits_value(s@) > i32::MAX,
        },
{
    let len = s.unicode_len();
    if len == 0 {
        return None;
    }
    let mut acc: u64 = 0;
    let mut i: usize = 0;
    while i < len
        invariant
            len == s@.len(),
            i <= len,
            all_digits(s@.subrange(0, i as int)),
            acc as int == digits_value(s@.subrange(0, i as int)),
            acc <= i32::MAX as u64,
        decreases len - i,
    {
        let c = s.get_char(i);
        let u = c as u32;
        if u < 48 || u > 57 {
            return None;
        }
        acc = acc * 10 + (u - 48) as u64;
        proof {
            assert(s@.subrange(0, i + 1).drop_last() =~= s@.subrange(0, i as int));
            assert(s@.subrange(0, i + 1).last() == s@[i as int]);
        }
        if acc > 0x7fff_ffff {
            proof {
                lemma_digits_stay_large(s@, i + 1);
            }
            return None;
        }
        i += 1;
    }
    proof {
        assert(s@.subrange(0, len as int) =~= s@);
    }
    Some(acc as i32)
}

} // verus!
