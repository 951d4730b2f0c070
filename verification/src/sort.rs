//! Stable ordering by a text key (the order of `sort_by` with `String::cmp`).
use vstd::prelude::*;

use crate::text::{chars_of, lex_le, lex_le_chars};

verus! {

/// Values ordered by a text key.
pub trait Keyed: Sized {
    spec fn key(&self) -> Seq<char>;

    fn key_str(&self) -> (r: &str)
        ensures
            r@ == self.key(),
    ;
}

/// Puts `x` after every element whose key is not greater than its own.
pub open spec fn insert_by<A>(s: Seq<A>, x: A, key: spec_fn(A) -> Seq<char>) -> Seq<A>
    decreases s.len(),
{
    if s.len() == 0 {
        seq![x]
    } else if lex_le(key(s.last()), key(x)) {
        s.push(x)
    } else {
        insert_by(s.drop_last(), x, key).push(s.last())
    }
}

/// The stable sort of a sequence by a key: each element in turn is inserted
/// after the elements before it whose keys are not greater.
pub open spec fn sorted_by<A>(s: Seq<A>, key: spec_fn(A) -> Seq<char>) -> Seq<A>
    decreases s.len(),
{
    if s.len() == 0 {
        s
    } else {
        insert_by(sorted_by(s.drop_last(), key), s.last(), key)
    }
}

/// The key of a value, as a function.
pub open spec fn own_key<T: Keyed>() -> spec_fn(T) -> Seq<char> {
    |x: T| x.key()
}

/// The stable sort of values by their own key.
pub open spec fn sorted_by_key<T: Keyed>(s: Seq<T>) -> Seq<T> {
    sorted_by(s, own_key())
}

/// The elements of a sequence are in key order.
pub open spec fn is_sorted_by<A>(s: Seq<A>, key: spec_fn(A) -> Seq<char>) -> bool {
    forall|i: int, j: int| 0 <= i < j < s.len() ==> lex_le(key(#[trigger] s[i]), key(#[trigger] s[j]))
}

proof fn lemma_insert_by_at<A>(s: Seq<A>, x: A, key: spec_fn(A) -> Seq<char>, p: int)
    requires
        0 <= p <= s.len(),
        forall|k: int| p <= k < s.len() ==> !lex_le(key(#[trigger] s[k]), key(x)),
        p == 0 || lex_le(key(s[p - 1]), key(x)),
    ensures
        insert_by(s, x, key) == s.insert(p, x),
    decreases s.len(),
{
    if s.len() == 0 {
        assert(s.insert(p, x) =~= seq![x]);
    } else if p == s.len() {
        assert(s.insert(p, x) =~= s.push(x));
    } else {
        lemma_insert_by_at(s.drop_last(), x, key, p);
        assert(s.drop_last().insert(p, x).push(s.last()) =~= s.insert(p, x));
    }
}

proof fn lemma_insert_by_map<A, B>(
    s: Seq<A>,
    x: A,
    ka: spec_fn(A) -> Seq<char>,
    f: spec_fn(A) -> B,
    kb: spec_fn(B) -> Seq<char>,
)
    requires
        forall|y: A| #[trigger] kb(f(y)) == ka(y),
    ensures
        insert_by(s, x, ka).map_values(f) == insert_by(s.map_values(f), f(x), kb),
    decreases s.len(),
{
    let t = s.map_values(f);
    assert(kb(f(x)) == ka(x));
    if s.len() == 0 {
        assert(seq![x].map_values(f) =~= seq![f(x)]);
    } else {
        assert(t.last() == f(s.last()));
        assert(kb(f(s.last())) == ka(s.last()));
        if lex_le(ka(s.last()), ka(x)) {
            assert(s.push(x).map_values(f) =~= t.push(f(x)));
        } else {
            lemma_insert_by_map(s.drop_last(), x, ka, f, kb);
            assert(s.drop_last().map_values(f) =~= t.drop_last());
            assert(insert_by(s.drop_last(), x, ka).push(s.last()).map_values(f) =~= insert_by(
                s.drop_last(),
                x,
                ka,
            ).map_values(f).push(f(s.last())));
        }
    }
}

/// Sorting commutes with a map that keeps the key: sorting the images by
/// their key gives the images of the sorted values.
pub proof fn lemma_sorted_by_map<A, B>(
    s: Seq<A>,
    ka: spec_fn(A) -> Seq<char>,
    f: spec_fn(A) -> B,
    kb: spec_fn(B) -> Seq<char>,
)
    requires
        forall|y: A| #[trigger] kb(f(y)) == ka(y),
    ensures
        sorted_by(s, ka).map_values(f) == sorted_by(s.map_values(f), kb),
    decreases s.len(),
{
    if s.len() == 0 {
        assert(s.map_values(f) =~= Seq::<B>::empty());
    } else {
        lemma_sorted_by_map(s.drop_last(), ka, f, kb);
        lemma_insert_by_map(sorted_by(s.drop_last(), ka), s.last(), ka, f, kb);
        assert(s.drop_last().map_values(f) =~= s.map_values(f).drop_last());
    }
}

pub proof fn lemma_insert_by_sorted<A>(s: Seq<A>, x: A, key: spec_fn(A) -> Seq<char>)
    requires
        is_sorted_by(s, key),
    ensures
        is_sorted_by(insert_by(s, x, key), key),
        insert_by(s, x, key).to_multiset() == s.to_multiset().insert(x),
    decreases s.len(),
{
    broadcast use vstd::seq_lib::group_to_multiset_ensures;

    if s.len() == 0 {
        assert(seq![x] =~= s.push(x));
    } else if lex_le(key(s.last()), key(x)) {
        let r = s.push(x);
        assert forall|i: int, j: int| 0 <= i < j < r.len() implies lex_le(key(#[trigger] r[i]), key(#[trigger] r[j])) by {
            if j == s.len() {
                if i < s.len() - 1 {
                    assert(lex_le(key(s[i]), key(s[s.len() - 1])));
                } else {
                    crate::text::lemma_lex_le_refl(key(s[i]));
                }
                crate::text::lemma_lex_le_trans(key(s[i]), key(s.last()), key(x));
            } else {
                assert(r[i] == s[i] && r[j] == s[j]);
            }
        }
    } else {
        let d = s.drop_last();
        let last = s.last();
        assert(is_sorted_by(d, key)) by {
            assert forall|i: int, j: int| 0 <= i < j < d.len() implies lex_le(key(#[trigger] d[i]), key(#[trigger] d[j])) by {
                assert(d[i] == s[i] && d[j] == s[j]);
            }
        }
        lemma_insert_by_sorted(d, x, key);
        let t = insert_by(d, x, key);
        crate::text::lemma_lex_le_total(key(last), key(x));
        assert forall|i: int| 0 <= i < t.len() implies lex_le(key(#[trigger] t[i]), key(last)) by {
            assert(t.to_multiset().count(t[i]) > 0);
            if t[i] != x {
                assert(d.to_multiset().count(t[i]) > 0);
                assert(d.contains(t[i]));
                let j = choose|j: int| 0 <= j < d.len() && d[j] == t[i];
                assert(s[j] == d[j]);
            }
        }
        let r = t.push(last);
        assert forall|i: int, j: int| 0 <= i < j < r.len() implies lex_le(key(#[trigger] r[i]), key(#[trigger] r[j])) by {
            if j == t.len() {
                assert(r[i] == t[i]);
            } else {
                assert(r[i] == t[i] && r[j] == t[j]);
            }
        }
        assert(d.push(last) =~= s);
    }
}

/// Sorting puts the values in key order and keeps every value, each as
/// often as it occurs.
pub proof fn law_sorted_by_orders_and_permutes<A>(s: Seq<A>, key: spec_fn(A) -> Seq<char>)
    ensures
        is_sorted_by(sorted_by(s, key), key),
        sorted_by(s, key).to_multiset() == s.to_multiset(),
    decreases s.len(),
{
    broadcast use vstd::seq_lib::group_to_multiset_ensures;

    if s.len() > 0 {
        law_sorted_by_orders_and_permutes(s.drop_last(), key);
        lemma_insert_by_sorted(sorted_by(s.drop_last(), key), s.last(), key);
        assert(s.drop_last().push(s.last()) =~= s);
    }
}

/// Sorting values by their own key commutes with a map that keeps the key.
pub proof fn lemma_sorted_by_key_map<T: Keyed, B>(s: Seq<T>, f: spec_fn(T) -> B, kb: spec_fn(B) -> Seq<char>)
    requires
        forall|y: T| #[trigger] kb(f(y)) == y.key(),
    ensures
        sorted_by_key(s).map_values(f) == sorted_by(s.map_values(f), kb),
{
    lemma_sorted_by_map(s, own_key(), f, kb);
}

/// The reversed order of a vector.
pub(crate) fn reversed<T>(v: Vec<T>) -> (r: Vec<T>)
    ensures
        r.len() == v.len(),
        forall|k: int| 0 <= k < r.len() ==> #[trigger] r@[k] == v@[v.len() - 1 - k],
{
    let ghost input = v@;
    let n = v.len();
    let mut rest = v;
    let mut out: Vec<T> = Vec::new();
    while rest.len() > 0
        invariant
            rest.len() + out.len() == n,
            n == input.len(),
            rest@ == input.take(rest.len() as int),
            forall|k: int| 0 <= k < out.len() ==> #[trigger] out@[k] == input[n - 1 - k],
        decreases rest.len(),
    {
        let x = rest.pop().unwrap();
        out.push(x);
        assert(rest@ =~= input.take(rest.len() as int));
    }
    out
}

/// Sorts values by key, keeping the order of values with equal keys.
pub fn sort_by_key<T: Keyed>(v: Vec<T>) -> (r: Vec<T>)
    ensures
        r@ == sorted_by_key(v@),
{
    let ghost input = v@;
    let mut rest = v;
    let mut out: Vec<T> = Vec::new();
    let mut taken: usize = 0;
    let n = rest.len();
    // Take elements from the back of the input so the sort processes them front to back.
    let mut reversed: Vec<T> = Vec::new();
    while rest.len() > 0
        invariant
            rest.len() + reversed.len() == n,
            n == input.len(),
            rest@ == input.take(rest.len() as int),
            forall|k: int| 0 <= k < reversed.len() ==> #[trigger] reversed@[k] == input[n - 1 - k],
        decreases rest.len(),
    {
        let x = rest.pop().unwrap();
        reversed.push(x);
        assert(rest@ =~= input.take(rest.len() as int));
    }
    assert(input.take(0) =~= Seq::<T>::empty());
    while reversed.len() > 0
        invariant
            taken + reversed.len() == n,
            n == input.len(),
            forall|k: int| 0 <= k < reversed.len() ==> #[trigger] reversed@[k] == input[n - 1 - k],
            out@ == sorted_by_key(input.take(taken as int)),
        decreases reversed.len(),
    {
        let x = reversed.pop().unwrap();
        assert(x == input[taken as int]);
        let xk = chars_of(x.key_str());
        let mut p = out.len();
        while p > 0 && !lex_le_chars(&chars_of(out[p - 1].key_str()), &xk)
            invariant
                p <= out.len(),
                xk@ == x.key(),
                forall|k: int| p <= k < out.len() ==> !lex_le(#[trigger] out@[k].key(), x.key()),
            decreases p,
        {
            p -= 1;
        }
        proof {
            lemma_insert_by_at(out@, x, own_key(), p as int);
            assert(input.take(taken + 1).drop_last() =~= input.take(taken as int));
        }
        out.insert(p, x);
        taken += 1;
    }
    assert(input.take(n as int) =~= input);
    out
}

/// Puts `x` after the last element that may come before it (`before(e, x)`),
/// as a stable sort does.
pub open spec fn insert_with<A>(s: Seq<A>, x: A, before: spec_fn(A, A) -> bool) -> Seq<A>
    decreases s.len(),
{
    if s.len() == 0 {
        seq![x]
    } else if before(s.last(), x) {
        s.push(x)
    } else {
        insert_with(s.drop_last(), x, before).push(s.last())
    }
}

/// The stable sort of a sequence under an order given by `before`.
pub open spec fn sorted_with<A>(s: Seq<A>, before: spec_fn(A, A) -> bool) -> Seq<A>
    decreases s.len(),
{
    if s.len() == 0 {
        s
    } else {
        insert_with(sorted_with(s.drop_last(), before), s.last(), before)
    }
}

pub proof fn lemma_insert_with_at<A>(s: Seq<A>, x: A, before: spec_fn(A, A) -> bool, p: int)
    requires
        0 <= p <= s.len(),
        forall|k: int| p <= k < s.len() ==> !before(#[trigger] s[k], x),
        p == 0 || before(s[p - 1], x),
    ensures
        insert_with(s, x, before) == s.insert(p, x),
    decreases s.len(),
{
    if s.len() == 0 {
        assert(s.insert(p, x) =~= seq![x]);
    } else if p == s.len() {
        assert(s.insert(p, x) =~= s.push(x));
    } else {
        lemma_insert_with_at(s.drop_last(), x, before, p);
        assert(s.drop_last().insert(p, x).push(s.last()) =~= s.insert(p, x));
    }
}

proof fn lemma_insert_with_permutes<A>(s: Seq<A>, x: A, before: spec_fn(A, A) -> bool)
    ensures
        insert_with(s, x, before).to_multiset() == s.to_multiset().insert(x),
    decreases s.len(),
{
    broadcast use vstd::seq_lib::group_to_multiset_ensures;

    if s.len() == 0 {
        assert(seq![x] =~= s.push(x));
    } else if !before(s.last(), x) {
        lemma_insert_with_permutes(s.drop_last(), x, before);
        assert(s.drop_last().push(s.last()) =~= s);
    }
}

/// A stable sort keeps every value, each as often as it occurs.
pub proof fn law_sorted_with_permutes<A>(s: Seq<A>, before: spec_fn(A, A) -> bool)
    ensures
        sorted_with(s, before).to_multiset() == s.to_multiset(),
    decreases s.len(),
{
    broadcast use vstd::seq_lib::group_to_multiset_ensures;

    if s.len() > 0 {
        law_sorted_with_permutes(s.drop_last(), before);
        lemma_insert_with_permutes(sorted_with(s.drop_last(), before), s.last(), before);
        assert(s.drop_last().push(s.last()) =~= s);
    }
}

/// `before` orders any two values, one way or the other, and transitively.
pub open spec fn is_total_order<A>(before: spec_fn(A, A) -> bool) -> bool {
    &&& forall|a: A, b: A| #[trigger] before(a, b) || before(b, a)
    &&& forall|a: A, b: A, c: A| #[trigger] before(a, b) && #[trigger] before(b, c) ==> before(a, c)
}

/// The values are in the order `before` gives.
pub open spec fn is_ordered_by<A>(s: Seq<A>, before: spec_fn(A, A) -> bool) -> bool {
    forall|i: int, j: int| 0 <= i < j < s.len() ==> before(#[trigger] s[i], #[trigger] s[j])
}

proof fn lemma_insert_with_ordered<A>(s: Seq<A>, x: A, before: spec_fn(A, A) -> bool)
    requires
        is_total_order(before),
        is_ordered_by(s, before),
    ensures
        is_ordered_by(insert_with(s, x, before), before),
        insert_with(s, x, before).to_multiset() == s.to_multiset().insert(x),
    decreases s.len(),
{
    broadcast use vstd::seq_lib::group_to_multiset_ensures;

    lemma_insert_with_permutes(s, x, before);
    if s.len() == 0 {
        assert(seq![x] =~= s.push(x));
    } else if before(s.last(), x) {
        let r = s.push(x);
        assert forall|i: int, j: int| 0 <= i < j < r.len() implies before(#[trigger] r[i], #[trigger] r[j]) by {
            if j == s.len() {
                if i < s.len() - 1 {
                    assert(before(s[i], s[s.len() - 1]));
                    assert(before(s[i], s.last()) && before(s.last(), x));
                } else {
                    assert(r[i] == s.last());
                }
            } else {
                assert(r[i] == s[i] && r[j] == s[j]);
            }
        }
    } else {
        let d = s.drop_last();
        let last = s.last();
        assert(is_ordered_by(d, before)) by {
            assert forall|i: int, j: int| 0 <= i < j < d.len() implies before(#[trigger] d[i], #[trigger] d[j]) by {
                assert(d[i] == s[i] && d[j] == s[j]);
            }
        }
        lemma_insert_with_ordered(d, x, before);
        let t = insert_with(d, x, before);
        assert(before(x, last) || before(last, x));
        assert forall|i: int| 0 <= i < t.len() implies before(#[trigger] t[i], last) by {
            assert(t.to_multiset().count(t[i]) > 0);
            if t[i] != x {
                assert(d.to_multiset().count(t[i]) > 0);
                assert(d.contains(t[i]));
                let j = choose|j: int| 0 <= j < d.len() && d[j] == t[i];
                assert(s[j] == d[j]);
                assert(before(s[j], s[s.len() - 1]));
            }
        }
        let r = t.push(last);
        assert forall|i: int, j: int| 0 <= i < j < r.len() implies before(#[trigger] r[i], #[trigger] r[j]) by {
            if j == t.len() {
                assert(r[i] == t[i]);
            } else {
                assert(r[i] == t[i] && r[j] == t[j]);
            }
        }
        assert(d.push(last) =~= s);
    }
}

/// Under a total order a stable sort puts every value before the ones after
/// it.
pub proof fn law_sorted_with_is_ordered<A>(s: Seq<A>, before: spec_fn(A, A) -> bool)
    requires
        is_total_order(before),
    ensures
        is_ordered_by(sorted_with(s, before), before),
    decreases s.len(),
{
    if s.len() > 0 {
        law_sorted_with_is_ordered(s.drop_last(), before);
        lemma_insert_with_ordered(sorted_with(s.drop_last(), before), s.last(), before);
    }
}

} // verus!
