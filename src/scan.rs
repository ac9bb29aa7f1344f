//! Byte-level scanning over log text: digit runs, their values, and the
//! search for a marker substring.
use vstd::prelude::*;

verus! {

pub open spec fn is_digit(c: u8) -> bool {
    48 <= c && c <= 57
}

/// The index just past the run of ASCII digits that starts at `i`.
pub open spec fn digits_end(s: Seq<u8>, i: int) -> int
    decreases s.len() - i,
{
    if 0 <= i < s.len() && is_digit(s[i]) {
        digits_end(s, i + 1)
    } else {
        i
    }
}

/// The decimal value of the digits in `s[i..j]`.
pub open spec fn digits_value(s: Seq<u8>, i: int, j: int) -> int
    decreases j - i,
{
    if j <= i {
        0
    } else {
        digits_value(s, i, j - 1) * 10 + (s[j - 1] - 48)
    }
}

/// `key` occurs in `s` starting at index `k`.
pub open spec fn occurs_at(s: Seq<u8>, k: int, key: Seq<u8>) -> bool {
    0 <= k && k + key.len() <= s.len() && s.subrange(k, k + key.len()) == key
}

/// The first index at or after `i` where `key` occurs in `s`.
pub open spec fn find_from(s: Seq<u8>, i: int, key: Seq<u8>) -> Option<int>
    decreases s.len() - i,
{
    if i < 0 || i >= s.len() || i + key.len() > s.len() {
        None
    } else if occurs_at(s, i, key) {
        Some(i)
    } else {
        find_from(s, i + 1, key)
    }
}

/// `key` occurs somewhere in `s`.
pub open spec fn contains(s: Seq<u8>, key: Seq<u8>) -> bool {
    find_from(s, 0, key) is Some
}

proof fn lemma_digits_end_bounds(s: Seq<u8>, i: int)
    requires
        0 <= i <= s.len(),
    ensures
        i <= digits_end(s, i) <= s.len(),
    decreases s.len() - i,
{
    if i < s.len() && is_digit(s[i]) {
        lemma_digits_end_bounds(s, i + 1);
    }
}

/// Scans the digit run at `i`: its value (when it fits in a `u64`), its end,
/// and whether the value fits.
pub fn scan_digits(s: &[u8], i: usize) -> (r: (u64, usize, bool))
    requires
        i <= s@.len(),
    ensures
        i <= r.1 <= s@.len(),
        r.1 as int == digits_end(s@, i as int),
        r.2 == (digits_value(s@, i as int, r.1 as int) <= u64::MAX),
        r.2 ==> r.0 as int == digits_value(s@, i as int, r.1 as int),
{
    let mut j: usize = i;
    let mut acc: u64 = 0;
    let mut fits = true;
    proof {
        lemma_digits_end_bounds(s@, i as int);
    }
    while j < s.len() && 48 <= s[j] && s[j] <= 57
        invariant
            i <= j <= s@.len(),
            digits_end(s@, i as int) == digits_end(s@, j as int),
            fits ==> acc as int == digits_value(s@, i as int, j as int),
            !fits ==> digits_value(s@, i as int, j as int) > u64::MAX,
        decreases s@.len() - j,
    {
        let d: u64 = (s[j] - 48) as u64;
        let ghost prev = digits_value(s@, i as int, j as int);
        assert(digits_value(s@, i as int, j + 1) == prev * 10 + d);
        if fits {
            if acc > (u64::MAX - d) / 10 {
                assert(prev * 10 + d > u64::MAX) by (nonlinear_arith)
                    requires
                        prev == acc,
                        acc > (u64::MAX - d) / 10,
                        d <= 9,
                ;
                fits = false;
            } else {
                assert(acc * 10 + d <= u64::MAX) by (nonlinear_arith)
                    requires
                        acc <= (u64::MAX - d) / 10,
                        d <= 9,
                ;
                acc = acc * 10 + d;
            }
        } else {
            assert(prev * 10 + d > u64::MAX) by (nonlinear_arith)
                requires
                    prev > u64::MAX,
                    d >= 0,
            ;
        }
        j = j + 1;
    }
    (acc, j, fits)
}

pub proof fn lemma_find_from_occurs(s: Seq<u8>, i: int, key: Seq<u8>)
    requires
        find_from(s, i, key) is Some,
    ensures
        i <= find_from(s, i, key)->0,
        occurs_at(s, find_from(s, i, key)->0, key),
    decreases s.len() - i,
{
    if !(i < 0 || i >= s.len() || i + key.len() > s.len()) && !occurs_at(s, i, key) {
        lemma_find_from_occurs(s, i + 1, key);
    }
}

/// Whether `key` occurs in `s` at index `k`.
pub fn occurs_at_exec(s: &[u8], k: usize, key: &[u8]) -> (r: bool)
    ensures
        r == occurs_at(s@, k as int, key@),
{
    if k > s.len() || key.len() > s.len() - k {
        return false;
    }
    let n = s.len();
    let mut m: usize = 0;
    while m < key.len()
        invariant
            n == s@.len(),
            k + key@.len() <= s@.len(),
            m <= key@.len(),
            forall|t: int| 0 <= t < m ==> s@[k + t] == key@[t],
        decreases key@.len() - m,
    {
        if s[k + m] != key[m] {
            assert(s@.subrange(k as int, k + key@.len())[m as int] != key@[m as int]);
            return false;
        }
        m = m + 1;
    }
    assert(s@.subrange(k as int, k + key@.len()) =~= key@);
    true
}

/// The first index at or after `i` where `key` occurs in `s`.
pub fn find_from_exec(s: &[u8], i: usize, key: &[u8]) -> (r: Option<usize>)
    requires
        i <= s@.len(),
    ensures
        match r {
            Some(k) => find_from(s@, i as int, key@) == Some(k as int),
            None => find_from(s@, i as int, key@) is None,
        },
{
    let mut k: usize = i;
    while k < s.len() && key.len() <= s.len() - k
        invariant
            i <= k <= s@.len(),
            find_from(s@, i as int, key@) == find_from(s@, k as int, key@),
        decreases s@.len() - k,
    {
        if occurs_at_exec(s, k, key) {
            return Some(k);
        }
        k = k + 1;
    }
    None
}

/// Whether `key` occurs anywhere in `s`.
pub fn contains_exec(s: &[u8], key: &[u8]) -> (r: bool)
    ensures
        r == contains(s@, key@),
{
    find_from_exec(s, 0, key).is_some()
}

/// Whether two byte strings are equal.
pub fn bytes_eq(a: &[u8], b: &[u8]) -> (r: bool)
    ensures
        r == (a@ == b@),
{
    if a.len() != b.len() {
        return false;
    }
    let mut i: usize = 0;
    while i < a.len()
        invariant
            a@.len() == b@.len(),
            i <= a@.len(),
            forall|k: int| 0 <= k < i ==> a@[k] == b@[k],
        decreases a@.len() - i,
    {
        if a[i] != b[i] {
            return false;
        }
        i = i + 1;
    }
    assert(a@ =~= b@);
    true
}

} // verus!
