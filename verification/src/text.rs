//! Small verified helpers on strings.

use vstd::prelude::*;

verus! {

/// Character-by-character equality of two string slices.
pub fn str_eq(a: &str, b: &str) -> (r: bool)
    ensures
        r == (a@ == b@),
{
    let alen = a.unicode_len();
    let blen = b.unicode_len();
    if alen != blen {
        proof {
            assert(a@ != b@);
        }
        return false;
    }
    let mut i: usize = 0;
    while i < alen
        invariant
            alen == a@.len(),
            alen == b@.len(),
            0 <= i <= alen,
            forall|j: int| 0 <= j < i ==> a@[j] == b@[j],
        decreases alen - i,
    {
        if a.get_char(i) != b.get_char(i) {
            proof {
                assert(a@[i as int] != b@[i as int]);
            }
            return false;
        }
        i = i + 1;
    }
    proof {
        assert(a@ =~= b@);
    }
    true
}

/// The suffix of `s` after its last `'.'`, or all of `s` when it has none.
pub open spec fn last_segment(s: Seq<char>) -> Seq<char>
    decreases s.len(),
{
    if s.len() == 0 {
        s
    } else if s.last() == '.' {
        Seq::empty()
    } else {
        last_segment(s.drop_last()).push(s.last())
    }
}

/// A segment that holds no dot stays whole.
proof fn lemma_last_segment_no_dot(s: Seq<char>)
    requires
        forall|j: int| 0 <= j < s.len() ==> s[j] != '.',
    ensures
        last_segment(s) == s,
    decreases s.len(),
{
    if s.len() > 0 {
        lemma_last_segment_no_dot(s.drop_last());
        assert(last_segment(s) =~= s);
    }
}

/// After the last dot, the suffix is what `last_segment` names.
proof fn lemma_last_segment_after_dot(s: Seq<char>, k: int)
    requires
        0 <= k < s.len(),
        s[k] == '.',
        forall|j: int| k < j < s.len() ==> s[j] != '.',
    ensures
        last_segment(s) == s.subrange(k + 1, s.len() as int),
    decreases s.len(),
{
    if k == s.len() - 1 {
        assert(last_segment(s) =~= s.subrange(k + 1, s.len() as int));
    } else {
        lemma_last_segment_after_dot(s.drop_last(), k);
        assert(last_segment(s) =~= s.subrange(k + 1, s.len() as int));
    }
}

/// Computes the part of a dotted path after its last dot.
pub fn last_segment_of(s: &str) -> (r: &str)
    ensures
        r@ == last_segment(s@),
{
    let len = s.unicode_len();
    let mut i: usize = 0;
    let mut start: usize = 0;
    while i < len
        invariant
            len == s@.len(),
            0 <= i <= len,
            start <= i,
            start == 0 || s@[start - 1] == '.',
            forall|j: int| start <= j < i ==> s@[j] != '.',
        decreases len - i,
    {
        if s.get_char(i) == '.' {
            start = i + 1;
        }
        i = i + 1;
    }
    let r = s.substring_char(start, len);
    proof {
        if start == 0 {
            lemma_last_segment_no_dot(s@);
            assert(r@ =~= last_segment(s@));
        } else {
            lemma_last_segment_after_dot(s@, start - 1);
        }
    }
    r
}

} // verus!
