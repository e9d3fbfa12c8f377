//! Character-level helpers on string slices.
use vstd::prelude::*;

verus! {

/// `s` ends with `suffix`, compared char by char.
pub open spec fn ends_with(s: Seq<char>, suffix: Seq<char>) -> bool {
    suffix.len() <= s.len() && s.subrange(s.len() - suffix.len(), s.len() as int) == suffix
}

/// `s` starts with `prefix`, compared char by char.
pub open spec fn starts_with(s: Seq<char>, prefix: Seq<char>) -> bool {
    prefix.len() <= s.len() && s.subrange(0, prefix.len() as int) == prefix
}

/// Returns whether `a` and `b` hold the same characters.
pub fn str_eq(a: &str, b: &str) -> (r: bool)
    ensures
        r == (a@ == b@),
{
    let n = a.unicode_len();
    let m = b.unicode_len();
    if n != m {
        return false;
    }
    let mut i: usize = 0;
    while i < n
        invariant
            n == a@.len(),
            m == b@.len(),
            n == m,
            i <= n,
            a@.subrange(0, i as int) == b@.subrange(0, i as int),
        decreases n - i,
    {
        if a.get_char(i) != b.get_char(i) {
            assert(a@[i as int] != b@[i as int]);
            return false;
        }
        assert(a@.subrange(0, i + 1) == a@.subrange(0, i as int).push(a@[i as int]));
        assert(b@.subrange(0, i + 1) == b@.subrange(0, i as int).push(b@[i as int]));
        i = i + 1;
    }
    assert(a@ == a@.subrange(0, n as int));
    assert(b@ == b@.subrange(0, n as int));
    true
}


/// `s` with `suffix` removed from its end, or `s` unchanged where it does not end with it.
pub open spec fn strip_or_keep(s: Seq<char>, suffix: Seq<char>) -> Seq<char> {
    if ends_with(s, suffix) {
        s.subrange(0, s.len() - suffix.len())
    } else {
        s
    }
}

/// Returns whether `s` ends with `suffix`.
pub fn str_ends_with(s: &str, suffix: &str) -> (r: bool)
    ensures
        r == ends_with(s@, suffix@),
{
    let n = s.unicode_len();
    let k = suffix.unicode_len();
    if k > n {
        return false;
    }
    let off = n - k;
    let mut j: usize = 0;
    while j < k
        invariant
            n == s@.len(),
            k == suffix@.len(),
            off == n - k,
            j <= k,
            forall|t: int| 0 <= t < j ==> s@[off + t] == suffix@[t],
        decreases k - j,
    {
        if s.get_char(off + j) != suffix.get_char(j) {
            assert(s@.subrange(off as int, n as int)[j as int] != suffix@[j as int]);
            return false;
        }
        j = j + 1;
    }
    assert(s@.subrange(off as int, n as int) =~= suffix@);
    true
}

/// Returns whether `s` starts with `prefix`.
pub fn str_starts_with(s: &str, prefix: &str) -> (r: bool)
    ensures
        r == starts_with(s@, prefix@),
{
    let n = s.unicode_len();
    let k = prefix.unicode_len();
    if k > n {
        return false;
    }
    let mut j: usize = 0;
    while j < k
        invariant
            n == s@.len(),
            k == prefix@.len(),
            k <= n,
            j <= k,
            forall|t: int| 0 <= t < j ==> s@[t] == prefix@[t],
        decreases k - j,
    {
        if s.get_char(j) != prefix.get_char(j) {
            assert(s@.subrange(0, k as int)[j as int] != prefix@[j as int]);
            return false;
        }
        j = j + 1;
    }
    assert(s@.subrange(0, k as int) =~= prefix@);
    true
}

/// Returns `s` without `suffix` where `s` ends with it, and `s` itself otherwise.
pub fn strip_suffix_or_keep<'a>(s: &'a str, suffix: &str) -> (r: &'a str)
    ensures
        r@ == strip_or_keep(s@, suffix@),
{
    if str_ends_with(s, suffix) {
        let n = s.unicode_len();
        let k = suffix.unicode_len();
        s.substring_char(0, n - k)
    } else {
        s
    }
}

/// Returns the part of `s` after `prefix`, which `s` must start with.
pub fn strip_prefix_known<'a>(s: &'a str, prefix: &str) -> (r: &'a str)
    requires
        starts_with(s@, prefix@),
    ensures
        r@ == s@.subrange(prefix@.len() as int, s@.len() as int),
{
    let n = s.unicode_len();
    let k = prefix.unicode_len();
    s.substring_char(k, n)
}

/// Calls std's `String::push`. The contract claims what its documentation says: `c` is
/// appended to the end of `s`.
#[verifier::external_body]
pub(crate) fn push_char(s: &mut String, c: char)
    ensures
        final(s)@ == old(s)@.push(c),
{
    s.push(c);
}


/// The last index of `s` whose element satisfies `pred`, or -1 where none does.
pub open spec fn last_matching<A>(s: Seq<A>, pred: spec_fn(A) -> bool) -> int
    decreases s.len(),
{
    if s.len() == 0 {
        -1
    } else if pred(s.last()) {
        s.len() - 1
    } else {
        last_matching(s.drop_last(), pred)
    }
}

/// The index found by [`last_matching`] is -1 or an index of `s` whose element satisfies `pred`.
pub proof fn lemma_last_matching_bounds<A>(s: Seq<A>, pred: spec_fn(A) -> bool)
    ensures
        -1 <= last_matching(s, pred) < s.len(),
        last_matching(s, pred) >= 0 ==> pred(s[last_matching(s, pred)]),
    decreases s.len(),
{
    if s.len() > 0 && !pred(s.last()) {
        lemma_last_matching_bounds(s.drop_last(), pred);
    }
}

/// Where `s[p]` satisfies `pred` and nothing after it before `q` does, the last index
/// satisfying `pred` in the first `q` elements is `p`.
pub proof fn lemma_last_matching_take<A>(s: Seq<A>, pred: spec_fn(A) -> bool, p: int, q: int)
    requires
        0 <= p < q <= s.len(),
        pred(s[p]),
        forall|k: int| p < k < q ==> !pred(#[trigger] s[k]),
    ensures
        last_matching(s.subrange(0, q), pred) == p,
    decreases q - p,
{
    let t = s.subrange(0, q);
    if q - 1 == p {
        assert(t.last() == s[p]);
    } else {
        assert(t.last() == s[q - 1]);
        assert(!pred(s[q - 1]));
        assert(t.drop_last() =~= s.subrange(0, q - 1));
        lemma_last_matching_take(s, pred, p, q - 1);
    }
}


/// Where no element of `s` satisfies `pred`, [`last_matching`] is -1.
pub proof fn lemma_last_matching_none<A>(s: Seq<A>, pred: spec_fn(A) -> bool)
    requires
        forall|k: int| 0 <= k < s.len() ==> !pred(#[trigger] s[k]),
    ensures
        last_matching(s, pred) == -1,
    decreases s.len(),
{
    if s.len() > 0 {
        assert(!pred(s[s.len() - 1]));
        assert forall|k: int| 0 <= k < s.drop_last().len() implies !pred(#[trigger] s.drop_last()[k]) by {
            assert(s.drop_last()[k] == s[k]);
        }
        lemma_last_matching_none(s.drop_last(), pred);
    }
}


/// The pieces that splitting `s` at each element satisfying `pred` yields, without the
/// first piece: for each such element, what follows it up to the next one or the end.
pub open spec fn pieces_after<A>(s: Seq<A>, pred: spec_fn(A) -> bool) -> Seq<Seq<A>>
    decreases s.len(),
{
    let j = last_matching(s, pred);
    if j < 0 {
        Seq::empty()
    } else {
        proof {
            lemma_last_matching_bounds(s, pred);
        }
        pieces_after(s.subrange(0, j), pred).push(s.subrange(j + 1, s.len() as int))
    }
}

/// Taking one more separated piece into account extends [`pieces_after`] by that piece.
pub proof fn lemma_pieces_after_step<A>(s: Seq<A>, pred: spec_fn(A) -> bool, p: int, q: int)
    requires
        0 <= p < q <= s.len(),
        pred(s[p]),
        forall|k: int| p < k < q ==> !pred(#[trigger] s[k]),
    ensures
        pieces_after(s.subrange(0, q), pred) == pieces_after(s.subrange(0, p), pred).push(s.subrange(p + 1, q)),
{
    lemma_last_matching_take(s, pred, p, q);
    let t = s.subrange(0, q);
    assert(t.subrange(0, p) =~= s.subrange(0, p));
    assert(t.subrange(p + 1, t.len() as int) =~= s.subrange(p + 1, q));
}

/// Where no element satisfies `pred`, [`pieces_after`] is empty.
pub proof fn lemma_pieces_after_none<A>(s: Seq<A>, pred: spec_fn(A) -> bool)
    requires
        forall|k: int| 0 <= k < s.len() ==> !pred(#[trigger] s[k]),
    ensures
        pieces_after(s, pred) == Seq::<Seq<A>>::empty(),
{
    lemma_last_matching_none(s, pred);
}

} // verus!
