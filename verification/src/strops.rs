//! Character-level string scanning: equality and first-occurrence search,
//! the groundwork for locating embedded player data and manifest attributes.

use vstd::prelude::*;
use vstd::string::StrSliceExecFns;

verus! {

/// Whether two string slices hold the same characters.
pub fn str_eq(a: &str, b: &str) -> (r: bool)
    ensures
        r <==> a@ == b@,
{
    let n = a.unicode_len();
    let m = b.unicode_len();
    if n != m {
        return false;
    }
    let mut i: usize = 0;
    while i < n
        invariant
            0 <= i <= n,
            n == a@.len(),
            n == b@.len(),
            forall|k: int| 0 <= k < i ==> a@[k] == b@[k],
        decreases n - i,
    {
        if a.get_char(i) != b.get_char(i) {
            return false;
        }
        i = i + 1;
    }
    proof {
        assert(a@ =~= b@);
    }
    true
}

/// Whether `pat` occurs in `s` starting exactly at position `i`.
pub open spec fn spec_matches_at(s: Seq<char>, pat: Seq<char>, i: int) -> bool {
    &&& 0 <= i
    &&& i + pat.len() <= s.len()
    &&& s.subrange(i, i + pat.len()) == pat
}

/// The first position at or after `from` where `pat` occurs in `s`.
pub open spec fn spec_find_from(s: Seq<char>, pat: Seq<char>, from: int) -> Option<int>
    decreases s.len() - from + 1,
{
    if from < 0 || from + pat.len() > s.len() {
        None
    } else if spec_matches_at(s, pat, from) {
        Some(from)
    } else {
        spec_find_from(s, pat, from + 1)
    }
}

/// A found position is a real match, lies at or after `from`, and is the
/// first such position.
pub proof fn lemma_find_from_sound(s: Seq<char>, pat: Seq<char>, from: int, i: int)
    requires
        spec_find_from(s, pat, from) == Some(i),
    ensures
        from <= i,
        spec_matches_at(s, pat, i),
        forall|k: int| from <= k < i ==> !spec_matches_at(s, pat, k),
    decreases s.len() - from + 1,
{
    if from < 0 || from + pat.len() > s.len() {
    } else if spec_matches_at(s, pat, from) {
    } else {
        lemma_find_from_sound(s, pat, from + 1, i);
    }
}

/// Searches `s` for the first occurrence of `pat` at or after character
/// position `from`.
pub fn find_sub_from(s: &str, pat: &str, from: usize) -> (r: Option<usize>)
    ensures
        match r {
            Some(i) => spec_find_from(s@, pat@, from as int) == Some(i as int),
            None => spec_find_from(s@, pat@, from as int) is None,
        },
{
    let n = s.unicode_len();
    let m = pat.unicode_len();
    if from > n || m > n - from {
        proof {
            assert(spec_find_from(s@, pat@, from as int) is None);
        }
        return None;
    }
    if m == 0 {
        proof {
            assert(s@.subrange(from as int, from as int) =~= pat@);
            assert(spec_matches_at(s@, pat@, from as int));
        }
        return Some(from);
    }
    let mut i: usize = from;
    while i <= n - m
        invariant
            from <= i,
            1 <= m,
            i <= n - m + 1,
            m <= n,
            n == s@.len(),
            m == pat@.len(),
            spec_find_from(s@, pat@, from as int) == spec_find_from(s@, pat@, i as int),
        decreases n - i,
    {
        let mut j: usize = 0;
        let mut matched = true;
        while j < m
            invariant
                0 <= j <= m,
                i + m <= n,
                n == s@.len(),
                m == pat@.len(),
                matched ==> s@.subrange(i as int, i as int + j) == pat@.subrange(0, j as int),
                !matched ==> !spec_matches_at(s@, pat@, i as int),
            decreases m - j,
        {
            if s.get_char(i + j) != pat.get_char(j) {
                proof {
                    if spec_matches_at(s@, pat@, i as int) {
                        assert(s@.subrange(i as int, i as int + m)[j as int] == s@[i as int
                            + j]);
                        assert(pat@[j as int] == s@[i as int + j]);
                    }
                }
                matched = false;
                j = m;
            } else {
                proof {
                    if matched {
                        assert(s@.subrange(i as int, i as int + j + 1) =~= s@.subrange(
                            i as int,
                            i as int + j,
                        ).push(s@[i as int + j]));
                        assert(pat@.subrange(0, j as int + 1) =~= pat@.subrange(
                            0,
                            j as int,
                        ).push(pat@[j as int]));
                    }
                }
                j = j + 1;
            }
        }
        if matched {
            proof {
                assert(s@.subrange(i as int, i as int + m) =~= pat@.subrange(0, m as int));
                assert(pat@.subrange(0, m as int) =~= pat@);
                assert(spec_matches_at(s@, pat@, i as int));
            }
            return Some(i);
        }
        proof {
            assert(spec_find_from(s@, pat@, i as int) == spec_find_from(s@, pat@, i as int + 1));
        }
        i = i + 1;
    }
    proof {
        assert(spec_find_from(s@, pat@, i as int) is None);
    }
    None
}

} // verus!
