use vstd::prelude::*;

verus! {

/// `p` occurs in `s` as a contiguous run of characters.
pub open spec fn occurs_in(s: Seq<char>, p: Seq<char>) -> bool {
    exists|i: int| 0 <= i && i + p.len() <= s.len() && #[trigger] s.subrange(i, i + p.len()) == p
}

/// Does `p` occur in `s` starting at character position `i`?
fn matches_at(s: &str, p: &str, i: usize, n: usize, m: usize) -> (r: bool)
    requires
        n == s@.len(),
        m == p@.len(),
        i + m <= n,
    ensures
        r == (s@.subrange(i as int, i + m) == p@),
{
    let mut j: usize = 0;
    while j < m
        invariant
            n == s@.len(),
            m == p@.len(),
            i + m <= n,
            j <= m,
            forall|k: int| 0 <= k < j ==> s@[i + k] == p@[k],
        decreases m - j,
    {
        if s.get_char(i + j) != p.get_char(j) {
            assert(s@.subrange(i as int, i + m)[j as int] != p@[j as int]);
            return false;
        }
        j = j + 1;
    }
    assert(s@.subrange(i as int, i + m) =~= p@);
    true
}

/// Whether `p` is a substring of `s`.
pub fn contains(s: &str, p: &str) -> (r: bool)
    ensures
        r == occurs_in(s@, p@),
{
    let n = s.unicode_len();
    let m = p.unicode_len();
    if m > n {
        return false;
    }
    if m == 0 {
        assert(s@.subrange(0, 0 + p@.len() as int) =~= p@);
        return true;
    }
    let mut i: usize = 0;
    while i <= n - m
        invariant
            n == s@.len(),
            m == p@.len(),
            1 <= m <= n,
            i <= n - m + 1,
            forall|k: int| 0 <= k < i ==> #[trigger] s@.subrange(k, k + m) != p@,
        decreases n - m + 1 - i,
    {
        if matches_at(s, p, i, n, m) {
            return true;
        }
        i = i + 1;
    }
    proof {
        assert forall|k: int| 0 <= k && k + p@.len() <= s@.len() implies #[trigger] s@.subrange(
            k,
            k + p@.len(),
        ) != p@ by {
            assert(k < i);
        }
    }
    false
}

/// The rest of `s` after `prefix`, when `s` starts with it.
pub fn strip_prefix<'a>(s: &'a str, prefix: &str) -> (r: Option<&'a str>)
    ensures
        match r {
            Some(rest) => prefix@.len() <= s@.len() && s@.subrange(0, prefix@.len() as int)
                == prefix@ && rest@ == s@.subrange(prefix@.len() as int, s@.len() as int),
            None => !(prefix@.len() <= s@.len() && s@.subrange(0, prefix@.len() as int)
                == prefix@),
        },
{
    let n = s.unicode_len();
    let m = prefix.unicode_len();
    if m > n {
        return None;
    }
    if matches_at(s, prefix, 0, n, m) {
        Some(s.substring_char(m, n))
    } else {
        None
    }
}

} // verus!
