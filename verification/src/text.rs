//! Whitespace classification, trimming, and string comparison.

use vstd::prelude::*;

verus! {

/// A character with the Unicode `White_Space` property: the set of characters
/// that `str::trim` and `str::split_whitespace` treat as whitespace.
pub open spec fn is_ws(c: char) -> bool {
    let u = c as u32;
    u == 0x09 || u == 0x0A || u == 0x0B || u == 0x0C || u == 0x0D || u == 0x20 || u == 0x85
        || u == 0xA0 || u == 0x1680 || (0x2000 <= u && u <= 0x200A) || u == 0x2028 || u == 0x2029
        || u == 0x202F || u == 0x205F || u == 0x3000
}

/// Every character of `s` is whitespace (vacuously true of the empty string).
pub open spec fn all_ws(s: Seq<char>) -> bool {
    forall|i: int| 0 <= i < s.len() ==> is_ws(s[i])
}

/// Whitespace test for a single character.
pub fn char_is_ws(c: char) -> (r: bool)
    ensures
        r == is_ws(c),
{
    let u = c as u32;
    u == 0x09 || u == 0x0A || u == 0x0B || u == 0x0C || u == 0x0D || u == 0x20 || u == 0x85
        || u == 0xA0 || u == 0x1680 || (0x2000 <= u && u <= 0x200A) || u == 0x2028 || u == 0x2029
        || u == 0x202F || u == 0x205F || u == 0x3000
}

/// Whether the string holds nothing but whitespace.
pub fn is_empty(s: &str) -> (r: bool)
    ensures
        r == all_ws(s@),
{
    let n = s.unicode_len();
    let mut i: usize = 0;
    while i < n
        invariant
            0 <= i <= n,
            n == s@.len(),
            forall|j: int| 0 <= j < i ==> is_ws(s@[j]),
        decreases n - i,
    {
        if !char_is_ws(s.get_char(i)) {
            return false;
        }
        i += 1;
    }
    true
}

/// `s` with leading whitespace removed.
pub open spec fn trim_start(s: Seq<char>) -> Seq<char>
    decreases s.len(),
{
    if s.len() > 0 && is_ws(s[0]) {
        trim_start(s.drop_first())
    } else {
        s
    }
}

/// `s` with trailing whitespace removed.
pub open spec fn trim_end(s: Seq<char>) -> Seq<char>
    decreases s.len(),
{
    if s.len() > 0 && is_ws(s.last()) {
        trim_end(s.drop_last())
    } else {
        s
    }
}

/// `s` with both leading and trailing whitespace removed, as `str::trim`
/// leaves it.
pub open spec fn trimmed(s: Seq<char>) -> Seq<char> {
    trim_end(trim_start(s))
}

/// When the first `k` characters are whitespace and the next one (if any) is
/// not, trimming the start removes exactly those `k`.
pub proof fn lemma_trim_start_is_skip(s: Seq<char>, k: int)
    requires
        0 <= k <= s.len(),
        forall|j: int| 0 <= j < k ==> is_ws(s[j]),
        k == s.len() || !is_ws(s[k]),
    ensures
        trim_start(s) == s.skip(k),
    decreases k,
{
    if k == 0 {
        assert(s.skip(0) =~= s);
    } else {
        let t = s.drop_first();
        lemma_trim_start_is_skip(t, k - 1);
        assert(t.skip(k - 1) =~= s.skip(k));
    }
}

/// When everything from position `m` on is whitespace and the character just
/// before (if any) is not, trimming the end keeps exactly the first `m`.
pub proof fn lemma_trim_end_is_take(s: Seq<char>, m: int)
    requires
        0 <= m <= s.len(),
        forall|j: int| m <= j < s.len() ==> is_ws(s[j]),
        m == 0 || !is_ws(s[m - 1]),
    ensures
        trim_end(s) == s.take(m),
    decreases s.len() - m,
{
    if m == s.len() {
        assert(s.take(m) =~= s);
    } else {
        let t = s.drop_last();
        lemma_trim_end_is_take(t, m);
        assert(t.take(m) =~= s.take(m));
    }
}

/// Trimming an all-whitespace string leaves nothing.
pub proof fn lemma_all_ws_trimmed_empty(s: Seq<char>)
    requires
        all_ws(s),
    ensures
        trimmed(s).len() == 0,
{
    lemma_trim_start_is_skip(s, s.len() as int);
    assert(s.skip(s.len() as int) =~= Seq::<char>::empty());
}

/// Trimming the start of a string that holds a non-whitespace character
/// leaves a string that starts with a non-whitespace character.
proof fn lemma_trim_start_keeps(s: Seq<char>)
    requires
        !all_ws(s),
    ensures
        trim_start(s).len() > 0,
        !is_ws(trim_start(s)[0]),
    decreases s.len(),
{
    if s.len() > 0 && is_ws(s[0]) {
        let i = choose|i: int| 0 <= i < s.len() && !is_ws(s[i]);
        assert(s.drop_first()[i - 1] == s[i]);
        lemma_trim_start_keeps(s.drop_first());
    }
}

/// Trimming the end of a string whose first character is not whitespace
/// keeps that first character.
proof fn lemma_trim_end_keeps(t: Seq<char>)
    requires
        t.len() > 0,
        !is_ws(t[0]),
    ensures
        trim_end(t).len() > 0,
        trim_end(t)[0] == t[0],
    decreases t.len(),
{
    if is_ws(t.last()) {
        lemma_trim_end_keeps(t.drop_last());
    }
}

/// Trimming a string that holds a non-whitespace character leaves one.
pub proof fn lemma_not_all_ws_trimmed_nonempty(s: Seq<char>)
    requires
        !all_ws(s),
    ensures
        trimmed(s).len() > 0,
{
    lemma_trim_start_keeps(s);
    lemma_trim_end_keeps(trim_start(s));
}

/// `s` with leading and trailing whitespace removed, as a slice of `s`.
pub fn trim_str<'a>(s: &'a str) -> (r: &'a str)
    ensures
        r@ == trimmed(s@),
{
    let n = s.unicode_len();
    let mut k: usize = 0;
    while k < n && char_is_ws(s.get_char(k))
        invariant
            0 <= k <= n,
            n == s@.len(),
            forall|j: int| 0 <= j < k ==> is_ws(s@[j]),
        decreases n - k,
    {
        k += 1;
    }
    proof {
        lemma_trim_start_is_skip(s@, k as int);
    }
    if k == n {
        proof {
            assert(s@.skip(n as int) =~= Seq::<char>::empty());
            assert(s@.subrange(n as int, n as int) =~= Seq::<char>::empty());
        }
        return s.substring_char(n, n);
    }
    let mut m: usize = n;
    while char_is_ws(s.get_char(m - 1))
        invariant
            k < m <= n,
            n == s@.len(),
            !is_ws(s@[k as int]),
            forall|j: int| m <= j < n ==> is_ws(s@[j]),
        decreases m,
    {
        m -= 1;
    }
    proof {
        let t = s@.skip(k as int);
        lemma_trim_end_is_take(t, m - k);
        assert(t.take(m - k) =~= s@.subrange(k as int, m as int));
    }
    s.substring_char(k, m)
}

/// Character-for-character equality of two strings.
pub fn str_eq(a: &str, b: &str) -> (r: bool)
    ensures
        r == (a@ == b@),
{
    let n = a.unicode_len();
    if n != b.unicode_len() {
        return false;
    }
    let mut i: usize = 0;
    while i < n
        invariant
            0 <= i <= n,
            n == a@.len(),
            n == b@.len(),
            forall|j: int| 0 <= j < i ==> a@[j] == b@[j],
        decreases n - i,
    {
        if a.get_char(i) != b.get_char(i) {
            return false;
        }
        i += 1;
    }
    proof {
        assert(a@ =~= b@);
    }
    true
}

} // verus!
