//! Small verified helpers over strings, shared by the identity, codec and
//! store modules.

use vstd::prelude::*;

verus! {

/// Character-wise string equality, with the result tied to the views.
pub fn str_eq(a: &str, b: &str) -> (r: bool)
    ensures
        r == (a@ == b@),
{
    let a_len = a.unicode_len();
    let b_len = b.unicode_len();
    if a_len != b_len {
        assert(a@ != b@) by {
            assert(a@.len() != b@.len());
        }
        return false;
    }
    let mut i: usize = 0;
    while i < a_len
        invariant
            i <= a_len,
            a_len == a@.len(),
            b_len == b@.len(),
            a_len == b_len,
            forall|j: int| 0 <= j < i ==> a@[j] == b@[j],
        decreases a_len - i,
    {
        if a.get_char(i) != b.get_char(i) {
            return false;
        }
        i += 1;
    }
    proof {
        assert(a@ =~= b@);
    }
    true
}

/// Index of the first occurrence of `c` in `s`, or `None` when absent.
pub open spec fn spec_find_char(s: Seq<char>, c: char) -> Option<int>
    decreases s.len(),
{
    if s.len() == 0 {
        None
    } else if s[0] == c {
        Some(0int)
    } else {
        match spec_find_char(s.skip(1), c) {
            Some(i) => Some(i + 1),
            None => None,
        }
    }
}

/// The first occurrence returned by `spec_find_char` is in range, holds `c`,
/// and nothing before it does; `None` means `c` is absent.
pub proof fn lemma_find_char(s: Seq<char>, c: char)
    ensures
        match spec_find_char(s, c) {
            Some(i) => 0 <= i < s.len() && s[i] == c && forall|j: int| 0 <= j < i ==> s[j] != c,
            None => forall|j: int| 0 <= j < s.len() ==> s[j] != c,
        },
    decreases s.len(),
{
    if s.len() == 0 {
    } else if s[0] == c {
    } else {
        lemma_find_char(s.skip(1), c);
        assert forall|j: int| 0 <= j < s.len() && j >= 1 implies s[j] == s.skip(1)[j - 1] by {}
    }
}

/// A position holding `c` with nothing equal to `c` before it is the one
/// `spec_find_char` returns.
pub proof fn lemma_find_char_at(s: Seq<char>, c: char, n: int)
    requires
        0 <= n < s.len(),
        s[n] == c,
        forall|j: int| 0 <= j < n ==> s[j] != c,
    ensures
        spec_find_char(s, c) == Some(n),
{
    lemma_find_char(s, c);
    match spec_find_char(s, c) {
        Some(i) => {
            assert(!(i < n));
            assert(!(i > n));
        },
        None => {
            assert(s[n] == c);
        },
    }
}

/// Finds the first occurrence of `c` in `s`.
pub fn find_char(s: &str, c: char) -> (r: Option<usize>)
    ensures
        match r {
            Some(i) => spec_find_char(s@, c) == Some(i as int),
            None => spec_find_char(s@, c) is None,
        },
{
    let len = s.unicode_len();
    let mut i: usize = 0;
    while i < len
        invariant
            i <= len,
            len == s@.len(),
            forall|j: int| 0 <= j < i ==> s@[j] != c,
        decreases len - i,
    {
        if s.get_char(i) == c {
            proof {
                lemma_find_char(s@, c);
                assert(spec_find_char(s@, c) matches Some(k) && k == i) by {
                    match spec_find_char(s@, c) {
                        Some(k) => {
                            assert(!(k < i));
                            assert(!(k > i));
                        },
                        None => {},
                    }
                }
            }
            return Some(i);
        }
        i += 1;
    }
    proof {
        lemma_find_char(s@, c);
        assert(spec_find_char(s@, c) is None) by {
            match spec_find_char(s@, c) {
                Some(k) => {
                    assert(s@[k] == c);
                },
                None => {},
            }
        }
    }
    None
}

} // verus!
