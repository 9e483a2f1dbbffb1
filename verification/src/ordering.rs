//! Orders on texts and on lists of texts, and the stable sort.
use vstd::prelude::*;

use crate::strings::{chars_of, texts};

verus! {

/// Dictionary order by code point: whether `a` stands before `b` or equals it.
pub open spec fn text_le(a: Seq<char>, b: Seq<char>) -> bool
    decreases a.len(),
{
    if a.len() == 0 {
        true
    } else if b.len() == 0 {
        false
    } else {
        a[0] < b[0] || (a[0] == b[0] && text_le(a.drop_first(), b.drop_first()))
    }
}

/// Any two texts are ordered, and only equal ones both ways.
pub proof fn lemma_text_le_total(a: Seq<char>, b: Seq<char>)
    ensures
        text_le(a, b) || text_le(b, a),
        text_le(a, b) && text_le(b, a) ==> a == b,
    decreases a.len(),
{
    if a.len() > 0 && b.len() > 0 {
        lemma_text_le_total(a.drop_first(), b.drop_first());
        if a[0] == b[0] && a.drop_first() == b.drop_first() {
            assert(a =~= seq![a[0]] + a.drop_first());
            assert(b =~= seq![b[0]] + b.drop_first());
        }
    } else if a.len() == 0 && b.len() == 0 {
        assert(a =~= b);
    }
}

/// A text is not after itself.
pub proof fn lemma_text_le_reflexive(a: Seq<char>)
    ensures
        text_le(a, a),
    decreases a.len(),
{
    if a.len() > 0 {
        lemma_text_le_reflexive(a.drop_first());
    }
}

/// The order of texts is transitive.
pub proof fn lemma_text_le_transitive(a: Seq<char>, b: Seq<char>, c: Seq<char>)
    ensures
        text_le(a, b) && text_le(b, c) ==> text_le(a, c),
    decreases a.len(),
{
    if a.len() > 0 && b.len() > 0 && c.len() > 0 {
        lemma_text_le_transitive(a.drop_first(), b.drop_first(), c.drop_first());
    }
}

/// Whether `a` stands before `b` in dictionary order or equals it.
pub fn str_le(a: &str, b: &str) -> (r: bool)
    ensures
        r == text_le(a@, b@),
{
    let x = chars_of(a);
    let y = chars_of(b);
    let mut i: usize = 0;
    assert(x@.skip(0) =~= x@);
    assert(y@.skip(0) =~= y@);
    while i < x.len()
        invariant
            x@ == a@,
            y@ == b@,
            i <= x@.len(),
            i <= y@.len(),
            text_le(x@, y@) == text_le(x@.skip(i as int), y@.skip(i as int)),
        decreases x@.len() - i,
    {
        if i >= y.len() || x[i] > y[i] {
            return false;
        }
        if x[i] < y[i] {
            return true;
        }
        assert(x@.skip(i as int).drop_first() =~= x@.skip(i + 1));
        assert(y@.skip(i as int).drop_first() =~= y@.skip(i + 1));
        i += 1;
    }
    true
}

/// Dictionary order on lists of texts.
pub open spec fn list_le(a: Seq<Seq<char>>, b: Seq<Seq<char>>) -> bool
    decreases a.len(),
{
    if a.len() == 0 {
        true
    } else if b.len() == 0 {
        false
    } else if a[0] == b[0] {
        list_le(a.drop_first(), b.drop_first())
    } else {
        text_le(a[0], b[0])
    }
}

/// Any two lists of texts are ordered, and only equal ones both ways.
pub proof fn lemma_list_le_total(a: Seq<Seq<char>>, b: Seq<Seq<char>>)
    ensures
        list_le(a, b) || list_le(b, a),
        list_le(a, b) && list_le(b, a) ==> a == b,
    decreases a.len(),
{
    if a.len() > 0 && b.len() > 0 {
        lemma_text_le_total(a[0], b[0]);
        if a[0] == b[0] {
            lemma_list_le_total(a.drop_first(), b.drop_first());
            if a.drop_first() == b.drop_first() {
                assert(a =~= seq![a[0]] + a.drop_first());
                assert(b =~= seq![b[0]] + b.drop_first());
            }
        }
    } else if a.len() == 0 && b.len() == 0 {
        assert(a =~= b);
    }
}

/// The order of lists of texts is transitive.
pub proof fn lemma_list_le_transitive(a: Seq<Seq<char>>, b: Seq<Seq<char>>, c: Seq<Seq<char>>)
    requires
        list_le(a, b),
        list_le(b, c),
    ensures
        list_le(a, c),
    decreases a.len(),
{
    if a.len() > 0 && b.len() > 0 && c.len() > 0 {
        if a[0] == b[0] && b[0] == c[0] {
            lemma_list_le_transitive(a.drop_first(), b.drop_first(), c.drop_first());
        } else if a[0] != b[0] && b[0] != c[0] {
            lemma_text_le_transitive(a[0], b[0], c[0]);
            lemma_text_le_total(a[0], b[0]);
        }
    }
}

/// Whether list `a` stands before list `b` in dictionary order or equals it.
pub fn strings_le(a: &Vec<String>, b: &Vec<String>) -> (r: bool)
    ensures
        r == list_le(texts(a@), texts(b@)),
{
    let mut i: usize = 0;
    let ghost x = texts(a@);
    let ghost y = texts(b@);
    assert(x.skip(0) =~= x);
    assert(y.skip(0) =~= y);
    while i < a.len()
        invariant
            i <= a@.len(),
            i <= b@.len(),
            x == texts(a@),
            y == texts(b@),
            list_le(x, y) == list_le(x.skip(i as int), y.skip(i as int)),
        decreases a@.len() - i,
    {
        if i >= b.len() {
            return false;
        }
        if a[i] != b[i] {
            return str_le(a[i].as_str(), b[i].as_str());
        }
        assert(x.skip(i as int).drop_first() =~= x.skip(i + 1));
        assert(y.skip(i as int).drop_first() =~= y.skip(i + 1));
        i += 1;
    }
    true
}

/// Values that have a place in an order.
pub trait Ranked: Sized {
    /// Whether `self` may stand before `other`.
    spec fn precedes(self, other: Self) -> bool;

    /// The order is total and transitive.
    proof fn lemma_order(a: Self, b: Self, c: Self)
        ensures
            a.precedes(b) || b.precedes(a),
            a.precedes(b) && b.precedes(c) ==> a.precedes(c),
    ;

    /// Whether `self` may stand before `other`.
    fn comes_before(&self, other: &Self) -> (r: bool)
        ensures
            r == self.precedes(*other),
    ;
}

/// `s` with `x` put in after every element that may stand before it.
pub open spec fn insert_ranked<T: Ranked>(s: Seq<T>, x: T) -> Seq<T>
    decreases s.len(),
{
    if s.len() == 0 {
        seq![x]
    } else if s.last().precedes(x) {
        s.push(x)
    } else {
        insert_ranked(s.drop_last(), x).push(s.last())
    }
}

/// The stable sort of `s`.
pub open spec fn ranked<T: Ranked>(s: Seq<T>) -> Seq<T>
    decreases s.len(),
{
    if s.len() == 0 {
        s
    } else {
        insert_ranked(ranked(s.drop_last()), s.last())
    }
}

/// Every element may stand before those that follow it.
pub open spec fn is_ranked<T: Ranked>(s: Seq<T>) -> bool {
    forall|i: int, j: int| 0 <= i < j < s.len() ==> (#[trigger] s[i]).precedes(#[trigger] s[j])
}

/// Putting in an element keeps the order and adds just that element.
proof fn lemma_insert_ranked<T: Ranked>(s: Seq<T>, x: T)
    ensures
        insert_ranked(s, x).len() == s.len() + 1,
        insert_ranked(s, x).to_multiset() == s.to_multiset().insert(x),
        is_ranked(s) ==> is_ranked(insert_ranked(s, x)),
    decreases s.len(),
{
    broadcast use vstd::seq_lib::group_to_multiset_ensures;

    if s.len() == 0 {
        assert(seq![x] =~= Seq::<T>::empty().push(x));
        assert(s =~= Seq::<T>::empty());
    } else if s.last().precedes(x) {
        if is_ranked(s) {
            let r = s.push(x);
            assert forall|i: int, j: int| 0 <= i < j < r.len() implies (#[trigger] r[i]).precedes(
                #[trigger] r[j],
            ) by {
                if j == s.len() && i < s.len() - 1 {
                    T::lemma_order(s[i], s.last(), x);
                    assert(s[i].precedes(s[s.len() - 1]));
                }
            }
        }
    } else {
        let t = s.drop_last();
        lemma_insert_ranked(t, x);
        assert(s =~= t.push(s.last()));
        let inner = insert_ranked(t, x);
        let r = inner.push(s.last());
        assert(r.to_multiset() =~= s.to_multiset().insert(x));
        if is_ranked(s) {
            assert(is_ranked(t));
            assert forall|i: int, j: int| 0 <= i < j < r.len() implies (#[trigger] r[i]).precedes(
                #[trigger] r[j],
            ) by {
                if j == inner.len() {
                    assert(inner.to_multiset().count(inner[i]) > 0) by {
                        assert(inner.contains(inner[i]));
                    }
                    T::lemma_order(x, s.last(), x);
                    if inner[i] != x {
                        assert(t.to_multiset().count(inner[i]) > 0);
                        assert(t.contains(inner[i]));
                        let k = choose|k: int| 0 <= k < t.len() && t[k] == inner[i];
                        assert(s[k].precedes(s[s.len() - 1]));
                    }
                }
            }
        }
    }
}

/// Sorting puts the elements in order and neither adds nor drops one.
pub proof fn lemma_ranked<T: Ranked>(s: Seq<T>)
    ensures
        ranked(s).len() == s.len(),
        ranked(s).to_multiset() == s.to_multiset(),
        is_ranked(ranked(s)),
    decreases s.len(),
{
    broadcast use vstd::seq_lib::group_to_multiset_ensures;

    if s.len() > 0 {
        lemma_ranked(s.drop_last());
        lemma_insert_ranked(ranked(s.drop_last()), s.last());
        assert(s =~= s.drop_last().push(s.last()));
    }
}

/// Putting in an element adds just its value to the values.
proof fn lemma_insert_values<T: Ranked, U>(s: Seq<T>, x: T, f: spec_fn(T) -> U)
    ensures
        insert_ranked(s, x).map_values(f).to_multiset() == s.map_values(f).to_multiset().insert(
            f(x),
        ),
    decreases s.len(),
{
    broadcast use vstd::seq_lib::group_to_multiset_ensures;

    if s.len() == 0 {
        assert(s.push(x).map_values(f) =~= s.map_values(f).push(f(x)));
        assert(seq![x] =~= s.push(x));
    } else if s.last().precedes(x) {
        assert(s.push(x).map_values(f) =~= s.map_values(f).push(f(x)));
    } else {
        let t = s.drop_last();
        lemma_insert_values(t, x, f);
        assert(s.map_values(f) =~= t.map_values(f).push(f(s.last())));
        assert(insert_ranked(s, x).map_values(f) =~= insert_ranked(t, x).map_values(f).push(
            f(s.last()),
        ));
        assert(insert_ranked(s, x).map_values(f).to_multiset()
            =~= s.map_values(f).to_multiset().insert(f(x)));
    }
}

/// Sorting keeps any values of the elements.
pub proof fn lemma_ranked_values<T: Ranked, U>(s: Seq<T>, f: spec_fn(T) -> U)
    ensures
        ranked(s).map_values(f).to_multiset() == s.map_values(f).to_multiset(),
    decreases s.len(),
{
    broadcast use vstd::seq_lib::group_to_multiset_ensures;

    if s.len() > 0 {
        let t = s.drop_last();
        lemma_ranked_values(t, f);
        lemma_insert_values(ranked(t), s.last(), f);
        assert(s.map_values(f) =~= t.map_values(f).push(f(s.last())));
    }
}

/// An element is put in at one place.
proof fn lemma_insert_place<T: Ranked>(s: Seq<T>, x: T) -> (at: int)
    ensures
        0 <= at <= s.len(),
        insert_ranked(s, x) == s.insert(at, x),
    decreases s.len(),
{
    if s.len() == 0 || s.last().precedes(x) {
        assert(insert_ranked(s, x) =~= s.insert(s.len() as int, x));
        s.len() as int
    } else {
        let t = s.drop_last();
        let at = lemma_insert_place(t, x);
        assert(insert_ranked(s, x) =~= s.insert(at, x));
        at
    }
}

/// Whether `p` names each place below `n` just once.
pub open spec fn is_permutation(p: Seq<int>, n: int) -> bool {
    &&& p.len() == n
    &&& forall|k: int| 0 <= k < n ==> 0 <= #[trigger] p[k] < n
    &&& forall|j: int, k: int| 0 <= j < k < n ==> #[trigger] p[j] != #[trigger] p[k]
    &&& forall|x: int| 0 <= x < n ==> #[trigger] p.contains(x)
}

/// Sorting puts each element at a place of its own.
pub proof fn lemma_ranked_places<T: Ranked>(s: Seq<T>) -> (p: Seq<int>)
    ensures
        is_permutation(p, s.len() as int),
        ranked(s).len() == s.len(),
        forall|k: int| 0 <= k < s.len() ==> ranked(s)[k] == s[#[trigger] p[k]],
    decreases s.len(),
{
    if s.len() == 0 {
        Seq::empty()
    } else {
        let t = s.drop_last();
        let n = t.len() as int;
        let q = lemma_ranked_places(t);
        let at = lemma_insert_place(ranked(t), s.last());
        let p = q.insert(at, n);
        assert forall|k: int| 0 <= k < s.len() implies ranked(s)[k] == s[#[trigger] p[k]] && 0
            <= p[k] < s.len() by {
            if k < at {
                assert(p[k] == q[k]);
            } else if k > at {
                assert(p[k] == q[k - 1]);
            }
        }
        assert forall|j: int, k: int| 0 <= j < k < s.len() implies #[trigger] p[j]
            != #[trigger] p[k] by {
            let a = if j < at {
                j
            } else {
                j - 1
            };
            let b = if k < at {
                k
            } else {
                k - 1
            };
            if j != at {
                assert(p[j] == q[a]);
            }
            if k != at {
                assert(p[k] == q[b]);
            }
        }
        assert forall|x: int| 0 <= x < s.len() implies #[trigger] p.contains(x) by {
            if x == n {
                assert(p[at] == x);
            } else {
                assert(q.contains(x));
                let k = choose|k: int| 0 <= k < q.len() && q[k] == x;
                if k < at {
                    assert(p[k] == x);
                } else {
                    assert(p[k + 1] == x);
                }
            }
        }
        p
    }
}

/// Texts stand in the order of the first character in which they differ, and a text stands
/// before what it is the start of.
pub proof fn law_texts_in_order(p: Seq<char>, x: char, y: char, s: Seq<char>, t: Seq<char>)
    requires
        (x as u32) < (y as u32),
    ensures
        text_le(p + seq![x] + s, p + seq![y] + t),
        !text_le(p + seq![y] + t, p + seq![x] + s),
        text_le(p, p + s),
        s.len() > 0 ==> !text_le(p + s, p),
    decreases p.len(),
{
    let a = p + seq![x] + s;
    let b = p + seq![y] + t;
    if p.len() > 0 {
        let q = p.drop_first();
        law_texts_in_order(q, x, y, s, t);
        assert(a.drop_first() =~= q + seq![x] + s);
        assert(b.drop_first() =~= q + seq![y] + t);
        assert((p + s).drop_first() =~= q + s);
        assert(a[0] == p[0] && b[0] == p[0] && (p + s)[0] == p[0]);
    } else {
        assert(a[0] == x && b[0] == y);
        assert(p + s =~= s);
    }
}

/// What is in order stays as it is when it is sorted.
pub proof fn lemma_ranked_is_settled<T: Ranked>(s: Seq<T>)
    requires
        is_ranked(s),
    ensures
        ranked(s) == s,
    decreases s.len(),
{
    if s.len() > 0 {
        let t = s.drop_last();
        assert(is_ranked(t));
        lemma_ranked_is_settled(t);
        if t.len() > 0 {
            assert(s[t.len() - 1].precedes(s[s.len() - 1]));
        }
        assert(insert_ranked(t, s.last()) =~= s);
    }
}

/// Puts `x` into `v` after every element that may stand before it.
pub fn put_ranked<T: Ranked>(v: &mut Vec<T>, x: T)
    ensures
        final(v)@ == insert_ranked(old(v)@, x),
{
    let mut p: usize = v.len();
    assert(v@.take(p as int) =~= v@);
    assert(v@.skip(p as int) =~= Seq::<T>::empty());
    assert(insert_ranked(v@, x) =~= insert_ranked(v@.take(p as int), x) + v@.skip(p as int));
    while p > 0 && !v[p - 1].comes_before(&x)
        invariant
            v@ == old(v)@,
            p <= v@.len(),
            insert_ranked(v@, x) == insert_ranked(v@.take(p as int), x) + v@.skip(p as int),
        decreases p,
    {
        assert(v@.take(p as int).drop_last() =~= v@.take(p - 1));
        assert(insert_ranked(v@.take(p as int), x) + v@.skip(p as int) =~= insert_ranked(
            v@.take(p - 1),
            x,
        ) + v@.skip(p - 1));
        p -= 1;
    }
    assert(insert_ranked(v@.take(p as int), x) =~= v@.take(p as int).push(x));
    assert(v@.insert(p as int, x) =~= v@.take(p as int).push(x) + v@.skip(p as int));
    v.insert(p, x);
}

/// Sorts the elements, keeping the sequence of those that rank alike.
pub fn sort_ranked<T: Ranked>(v: Vec<T>) -> (r: Vec<T>)
    ensures
        r@ == ranked(v@),
{
    let mut r: Vec<T> = Vec::new();
    let ghost all = v@;
    for x in it: v
        invariant
            it.seq() == all,
            r@ == ranked(all.take(it.index())),
    {
        let ghost i = it.index();
        assert(all.take(i + 1).drop_last() =~= all.take(i));
        assert(all.take(i + 1).last() == x);
        put_ranked(&mut r, x);
    }
    assert(all.take(all.len() as int) =~= all);
    r
}

/// Lists stand in the order of the first entry in which they differ.
pub proof fn law_lists_in_order(
    p: Seq<Seq<char>>,
    x: Seq<char>,
    y: Seq<char>,
    s: Seq<Seq<char>>,
    t: Seq<Seq<char>>,
)
    requires
        x != y,
    ensures
        list_le(p + seq![x] + s, p + seq![y] + t) <==> text_le(x, y),
        list_le(p, p + s),
    decreases p.len(),
{
    let a = p + seq![x] + s;
    let b = p + seq![y] + t;
    lemma_text_le_total(x, y);
    if p.len() > 0 {
        let q = p.drop_first();
        law_lists_in_order(q, x, y, s, t);
        assert(a.drop_first() =~= q + seq![x] + s);
        assert(b.drop_first() =~= q + seq![y] + t);
        assert((p + s).drop_first() =~= q + s);
        assert(a[0] == p[0] && b[0] == p[0] && (p + s)[0] == p[0]);
        lemma_text_le_reflexive(p[0]);
    } else {
        assert(a[0] == x && b[0] == y);
        assert(p + s =~= s);
    }
}

} // verus!
