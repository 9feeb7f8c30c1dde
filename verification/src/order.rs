//! The order of strings and stable sorting by a text key.
//!
//! `str`'s `Ord` compares the UTF-8 bytes; UTF-8 keeps the order of code
//! points, so on the character view it is the lexicographic order of the
//! characters, which is what `lex_le` states.
use vstd::prelude::*;
use vstd::relations::{sorted_by, total_ordering};
use crate::text::{lemma_prefix_len, prefix_len};

verus! {

/// `a <= b` in the order of `str`.
pub open spec fn lex_le(a: Seq<char>, b: Seq<char>) -> bool
    decreases a.len(),
{
    if a.len() == 0 {
        true
    } else if b.len() == 0 {
        false
    } else if a[0] != b[0] {
        a[0] < b[0]
    } else {
        lex_le(a.drop_first(), b.drop_first())
    }
}

/// `lex_le` as a relation.
pub open spec fn lex_leq() -> spec_fn(Seq<char>, Seq<char>) -> bool {
    |a: Seq<char>, b: Seq<char>| lex_le(a, b)
}

proof fn lemma_lex_refl(a: Seq<char>)
    ensures
        lex_le(a, a),
    decreases a.len(),
{
    if a.len() > 0 {
        lemma_lex_refl(a.drop_first());
    }
}

proof fn lemma_lex_antisym(a: Seq<char>, b: Seq<char>)
    requires
        lex_le(a, b),
        lex_le(b, a),
    ensures
        a == b,
    decreases a.len(),
{
    if a.len() > 0 && b.len() > 0 {
        lemma_lex_antisym(a.drop_first(), b.drop_first());
        assert(a =~= seq![a[0]] + a.drop_first());
        assert(b =~= seq![b[0]] + b.drop_first());
    }
}

proof fn lemma_lex_trans(a: Seq<char>, b: Seq<char>, c: Seq<char>)
    requires
        lex_le(a, b),
        lex_le(b, c),
    ensures
        lex_le(a, c),
    decreases a.len(),
{
    if a.len() > 0 && b.len() > 0 && c.len() > 0 {
        if a[0] == b[0] && b[0] == c[0] {
            lemma_lex_trans(a.drop_first(), b.drop_first(), c.drop_first());
        }
    }
}

proof fn lemma_lex_total(a: Seq<char>, b: Seq<char>)
    ensures
        lex_le(a, b) || lex_le(b, a),
    decreases a.len(),
{
    if a.len() > 0 && b.len() > 0 && a[0] == b[0] {
        lemma_lex_total(a.drop_first(), b.drop_first());
    }
}

/// The order of strings is a total order.
pub proof fn lemma_lex_total_ordering()
    ensures
        total_ordering(lex_leq()),
{
    assert forall|a: Seq<char>| #[trigger] lex_leq()(a, a) by {
        lemma_lex_refl(a);
    }
    assert forall|a: Seq<char>, b: Seq<char>|
        #[trigger] lex_leq()(a, b) && #[trigger] lex_leq()(b, a) implies a == b by {
        lemma_lex_antisym(a, b);
    }
    assert forall|a: Seq<char>, b: Seq<char>, c: Seq<char>|
        #[trigger] lex_leq()(a, b) && #[trigger] lex_leq()(b, c) implies lex_leq()(a, c) by {
        lemma_lex_trans(a, b, c);
    }
    assert forall|a: Seq<char>, b: Seq<char>|
        #[trigger] lex_leq()(a, b) || #[trigger] lex_leq()(b, a) by {
        lemma_lex_total(a, b);
    }
}

/// Every element's key is at most the key of every later element.
pub open spec fn sorted_by_key<A>(s: Seq<A>, key: spec_fn(A) -> Seq<char>) -> bool {
    forall|i: int, j: int| 0 <= i < j < s.len() ==> lex_le(#[trigger] key(s[i]), #[trigger] key(s[j]))
}

/// Where `x` goes in the sorted `s`: after every element whose key is not
/// greater than its key.
pub open spec fn insert_pos<A>(s: Seq<A>, x: A, key: spec_fn(A) -> Seq<char>) -> nat {
    prefix_len(s, |e: A| lex_le(key(e), key(x)))
}

/// The stable sort of `s` by `key` (what `slice::sort_by` on the keys'
/// `cmp` gives): each element in turn is put after all elements before it
/// whose key is not greater.
pub open spec fn stable_sort<A>(s: Seq<A>, key: spec_fn(A) -> Seq<char>) -> Seq<A>
    decreases s.len(),
{
    if s.len() == 0 {
        s
    } else {
        let t = stable_sort(s.drop_last(), key);
        t.insert(insert_pos(t, s.last(), key) as int, s.last())
    }
}

pub proof fn lemma_prefix_len_facts<A>(s: Seq<A>, p: spec_fn(A) -> bool)
    ensures
        prefix_len(s, p) <= s.len(),
        forall|j: int| 0 <= j < prefix_len(s, p) ==> #[trigger] p(s[j]),
        prefix_len(s, p) < s.len() ==> !p(s[prefix_len(s, p) as int]),
    decreases s.len(),
{
    if s.len() > 0 && p(s[0]) {
        let t = s.drop_first();
        lemma_prefix_len_facts(t, p);
        assert forall|j: int| 0 <= j < prefix_len(s, p) implies #[trigger] p(s[j]) by {
            if j > 0 {
                assert(s[j] == t[j - 1]);
            }
        }
        if prefix_len(s, p) < s.len() {
            assert(s[prefix_len(s, p) as int] == t[prefix_len(t, p) as int]);
        }
    }
}

/// A stable sort is sorted and holds the same elements.
pub proof fn lemma_stable_sort<A>(s: Seq<A>, key: spec_fn(A) -> Seq<char>)
    ensures
        sorted_by_key(stable_sort(s, key), key),
        stable_sort(s, key).to_multiset() == s.to_multiset(),
        stable_sort(s, key).len() == s.len(),
    decreases s.len(),
{
    broadcast use vstd::seq_lib::group_to_multiset_ensures;

    if s.len() > 0 {
        let t = stable_sort(s.drop_last(), key);
        let x = s.last();
        lemma_stable_sort(s.drop_last(), key);
        let p = |e: A| lex_le(key(e), key(x));
        let k = insert_pos(t, x, key) as int;
        lemma_prefix_len_facts(t, p);
        let r = t.insert(k, x);
        assert(r == stable_sort(s, key));
        assert forall|i: int, j: int| 0 <= i < j < r.len() implies lex_le(
            #[trigger] key(r[i]),
            #[trigger] key(r[j]),
        ) by {
            if j < k {
                assert(r[i] == t[i] && r[j] == t[j]);
            } else if j == k {
                assert(r[i] == t[i]);
                assert(p(t[i]));
            } else if i == k {
                assert(r[j] == t[j - 1]);
                assert(!p(t[k]));
                lemma_lex_total(key(t[k]), key(x));
                if j - 1 > k {
                    lemma_lex_trans(key(x), key(t[k]), key(t[j - 1]));
                }
            } else if i < k {
                assert(r[i] == t[i] && r[j] == t[j - 1]);
            } else {
                assert(r[i] == t[i - 1] && r[j] == t[j - 1]);
            }
        }
        vstd::seq_lib::to_multiset_insert(t, k, x);
        assert(s == s.drop_last().push(x));
        vstd::seq_lib::to_multiset_build(s.drop_last(), x);
    }
}

/// Sorting the strings themselves gives what `sort_by` with the order of
/// `str` gives.
pub proof fn lemma_stable_sort_strings(s: Seq<Seq<char>>)
    ensures
        stable_sort(s, text_key()) == s.sort_by(lex_leq()),
{
    let key = text_key();
    lemma_stable_sort(s, key);
    lemma_lex_total_ordering();
    s.lemma_sort_by_ensures(lex_leq());
    let r = stable_sort(s, key);
    assert forall|i: int, j: int| 0 <= i < j < r.len() implies #[trigger] lex_leq()(r[i], r[j]) by {
        assert(lex_le(key(r[i]), key(r[j])));
    }
    assert(sorted_by(r, lex_leq()));
    vstd::seq_lib::lemma_sorted_unique(r, s.sort_by(lex_leq()), lex_leq());
}

/// A string as its own sort key.
pub open spec fn text_key() -> spec_fn(Seq<char>) -> Seq<char> {
    |x: Seq<char>| x
}

/// `a <= b` in the order of `str`.
pub fn str_le(a: &str, b: &str) -> (r: bool)
    ensures
        r == lex_le(a@, b@),
{
    let n = a.unicode_len();
    let m = b.unicode_len();
    let mut i: usize = 0;
    assert(a@.skip(0) =~= a@ && b@.skip(0) =~= b@);
    while i < n && i < m
        invariant
            n == a@.len(),
            m == b@.len(),
            i <= n,
            i <= m,
            lex_le(a@, b@) == lex_le(a@.skip(i as int), b@.skip(i as int)),
        decreases n - i,
    {
        let x = a.get_char(i);
        let y = b.get_char(i);
        proof {
            let sa = a@.skip(i as int);
            let sb = b@.skip(i as int);
            assert(sa[0] == x && sb[0] == y);
            assert(sa.drop_first() =~= a@.skip(i + 1));
            assert(sb.drop_first() =~= b@.skip(i + 1));
        }
        if x != y {
            return x < y;
        }
        i = i + 1;
    }
    proof {
        assert(a@.skip(i as int).len() == 0 || b@.skip(i as int).len() == 0);
    }
    i == n
}

/// The views of a sequence of strings.
pub open spec fn views(s: Seq<String>) -> Seq<Seq<char>> {
    s.map_values(|x: String| x@)
}

/// The strings sorted in the order of `str` (`slice::sort`).
pub fn sorted_strings(v: &Vec<String>) -> (r: Vec<String>)
    ensures
        views(r@) == views(v@).sort_by(lex_leq()),
{
    let ghost key = text_key();
    let mut out: Vec<String> = Vec::new();
    let mut i: usize = 0;
    while i < v.len()
        invariant
            i <= v@.len(),
            key == text_key(),
            views(out@) == stable_sort(views(v@).take(i as int), key),
        decreases v.len() - i,
    {
        let ghost t = views(out@);
        let ghost x = v@[i as int]@;
        let mut k: usize = 0;
        while k < out.len()
            invariant
                k <= out@.len(),
                key == text_key(),
                t == views(out@),
                x == v@[i as int]@,
                i < v@.len(),
                forall|j: int| 0 <= j < k ==> #[trigger] lex_le(key(t[j]), key(x)),
            ensures
                k <= out@.len(),
                forall|j: int| 0 <= j < k ==> #[trigger] lex_le(key(t[j]), key(x)),
                k < out@.len() ==> !lex_le(key(t[k as int]), key(x)),
            decreases out.len() - k,
        {
            assert(t[k as int] == out@[k as int]@);
            if !str_le(out[k].as_str(), v[i].as_str()) {
                break;
            }
            k = k + 1;
        }
        proof {
            lemma_prefix_len(t, |e: Seq<char>| lex_le(key(e), key(x)), k as int);
            let s = views(v@).take(i + 1);
            assert(s.drop_last() =~= views(v@).take(i as int));
            assert(s.last() == x);
        }
        let item = v[i].clone();
        out.insert(k, item);
        proof {
            assert(views(out@) =~= t.insert(k as int, x));
        }
        i = i + 1;
    }
    proof {
        assert(views(v@).take(v@.len() as int) =~= views(v@));
        lemma_stable_sort_strings(views(v@));
    }
    out
}

} // verus!
