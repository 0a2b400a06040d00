//! Access to the characters of a text.

use vstd::prelude::*;
use vstd::std_specs::iter::IteratorSpec;

verus! {

/// The characters of `s`, in order.
pub(crate) fn chars_of(s: &str) -> (v: Vec<char>)
    ensures
        v@ == s@,
{
    let mut v: Vec<char> = Vec::new();
    for c in it: s.chars()
        invariant
            it.seq() == s@,
            v@ == s@.take(it.index()),
    {
        v.push(c);
    }
    assert(v@ =~= s@);
    v
}

/// Where `c` first occurs in `chars` between `from` and `to`.
pub(crate) fn find_first(chars: &Vec<char>, from: usize, to: usize, c: char) -> (r: Option<usize>)
    requires
        from <= to <= chars@.len(),
    ensures
        r is Some <==> chars@.subrange(from as int, to as int).index_of_first(c) is Some,
        r matches Some(i) ==> from <= i < to && chars@.subrange(from as int, to as int).index_of_first(
            c,
        ) == Some(i - from),
{
    let ghost s = chars@.subrange(from as int, to as int);
    let mut i: usize = from;
    while i < to
        invariant
            from <= i <= to <= chars@.len(),
            s == chars@.subrange(from as int, to as int),
            forall|j: int| 0 <= j < i - from ==> s[j] != c,
        decreases to - i,
    {
        if chars[i] == c {
            proof {
                assert(s[i - from] == c);
                s.index_of_first_ensures(c);
            }
            return Some(i);
        }
        i = i + 1;
    }
    proof {
        s.index_of_first_ensures(c);
    }
    None
}

/// Where `c` last occurs in `chars` between `from` and `to`.
pub(crate) fn find_last(chars: &Vec<char>, from: usize, to: usize, c: char) -> (r: Option<usize>)
    requires
        from <= to <= chars@.len(),
    ensures
        r is Some <==> chars@.subrange(from as int, to as int).index_of_last(c) is Some,
        r matches Some(i) ==> from <= i < to && chars@.subrange(from as int, to as int).index_of_last(
            c,
        ) == Some(i - from),
{
    let ghost s = chars@.subrange(from as int, to as int);
    let mut i: usize = to;
    while i > from
        invariant
            from <= i <= to <= chars@.len(),
            s == chars@.subrange(from as int, to as int),
            forall|j: int| i - from <= j < to - from ==> s[j] != c,
        decreases i,
    {
        i = i - 1;
        if chars[i] == c {
            proof {
                assert(s[i - from] == c);
                s.index_of_last_ensures(c);
            }
            return Some(i);
        }
    }
    proof {
        s.index_of_last_ensures(c);
    }
    None
}

/// A position that holds `c`, with no `c` before it, is where `c` first occurs.
pub proof fn lemma_first_at(s: Seq<char>, c: char, p: int)
    requires
        0 <= p < s.len(),
        s[p] == c,
        forall|j: int| 0 <= j < p ==> s[j] != c,
    ensures
        s.index_of_first(c) == Some(p),
{
    s.index_of_first_ensures(c);
    assert(s.contains(c));
}

/// A character that occurs nowhere has no first and no last occurrence.
pub proof fn lemma_absent(s: Seq<char>, c: char)
    requires
        forall|j: int| 0 <= j < s.len() ==> s[j] != c,
    ensures
        s.index_of_first(c) is None,
        s.index_of_last(c) is None,
{
    s.index_of_first_ensures(c);
    s.index_of_last_ensures(c);
}

/// How many leading characters `a` and `b` have in common.
pub open spec fn common_prefix_len(a: Seq<char>, b: Seq<char>) -> int
    decreases a.len(),
{
    if a.len() == 0 || b.len() == 0 || a[0] != b[0] {
        0
    } else {
        1 + common_prefix_len(a.drop_first(), b.drop_first())
    }
}

/// The common prefix ends where the texts first differ, or where one of them ends.
pub proof fn lemma_common_prefix_len(a: Seq<char>, b: Seq<char>)
    ensures
        0 <= common_prefix_len(a, b) <= a.len(),
        common_prefix_len(a, b) <= b.len(),
        forall|j: int| 0 <= j < common_prefix_len(a, b) ==> a[j] == b[j],
        common_prefix_len(a, b) < a.len() && common_prefix_len(a, b) < b.len() ==> a[common_prefix_len(
            a,
            b,
        )] != b[common_prefix_len(a, b)],
    decreases a.len(),
{
    if a.len() == 0 || b.len() == 0 || a[0] != b[0] {
    } else {
        lemma_common_prefix_len(a.drop_first(), b.drop_first());
        let k = common_prefix_len(a.drop_first(), b.drop_first());
        assert forall|j: int| 0 <= j < k + 1 implies a[j] == b[j] by {
            if j > 0 {
                assert(a.drop_first()[j - 1] == a[j]);
                assert(b.drop_first()[j - 1] == b[j]);
            }
        }
        if k < a.len() - 1 && k < b.len() - 1 {
            assert(a.drop_first()[k] == a[k + 1]);
            assert(b.drop_first()[k] == b[k + 1]);
        }
    }
}

/// Any position up to which the texts agree, and at which they part or one ends,
/// is the length of their common prefix.
pub proof fn lemma_common_prefix_unique(a: Seq<char>, b: Seq<char>, k: int)
    requires
        0 <= k <= a.len(),
        k <= b.len(),
        forall|j: int| 0 <= j < k ==> a[j] == b[j],
        k < a.len() && k < b.len() ==> a[k] != b[k],
    ensures
        common_prefix_len(a, b) == k,
{
    lemma_common_prefix_len(a, b);
}

/// Counts the leading characters that `a` and `b` have in common.
pub(crate) fn common_prefix(a: &Vec<char>, b: &Vec<char>) -> (k: usize)
    ensures
        k == common_prefix_len(a@, b@),
{
    let mut k: usize = 0;
    while k < a.len() && k < b.len() && a[k] == b[k]
        invariant
            k <= a.len(),
            k <= b.len(),
            forall|j: int| 0 <= j < k ==> a@[j] == b@[j],
        decreases a.len() - k,
    {
        k = k + 1;
    }
    proof {
        lemma_common_prefix_unique(a@, b@, k as int);
    }
    k
}

} // verus!
