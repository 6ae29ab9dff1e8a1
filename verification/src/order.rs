//! Ordering: texts in the order of their characters, and a stable sort.

use crate::text::chars_of;
use vstd::prelude::*;

verus! {

/// Whether `a` comes before `b` in lexicographic order of code points, which is
/// also the order of the two texts' UTF-8 bytes.
pub open spec fn text_before(a: Seq<char>, b: Seq<char>) -> bool
    decreases a.len(),
{
    if b.len() == 0 {
        false
    } else if a.len() == 0 {
        true
    } else if a[0] != b[0] {
        a[0] < b[0]
    } else {
        text_before(a.drop_first(), b.drop_first())
    }
}

/// No text comes before itself.
pub proof fn text_before_irreflexive(a: Seq<char>)
    ensures
        !text_before(a, a),
    decreases a.len(),
{
    if a.len() > 0 {
        text_before_irreflexive(a.drop_first());
    }
}

/// The order of texts is transitive.
pub proof fn text_before_transitive(a: Seq<char>, b: Seq<char>, c: Seq<char>)
    requires
        text_before(a, b),
        text_before(b, c),
    ensures
        text_before(a, c),
    decreases a.len(),
{
    if a.len() > 0 && b.len() > 0 && c.len() > 0 && a[0] == b[0] && b[0] == c[0] {
        text_before_transitive(a.drop_first(), b.drop_first(), c.drop_first());
    }
}

/// Of two different texts, one comes before the other.
pub proof fn text_before_total(a: Seq<char>, b: Seq<char>)
    ensures
        a == b || text_before(a, b) || text_before(b, a),
    decreases a.len(),
{
    if a.len() > 0 && b.len() > 0 && a[0] == b[0] {
        text_before_total(a.drop_first(), b.drop_first());
        assert(a =~= seq![a[0]] + a.drop_first());
        assert(b =~= seq![b[0]] + b.drop_first());
    } else if a.len() == 0 && b.len() == 0 {
        assert(a =~= b);
    }
}

/// Of two texts, not both come before the other.
pub proof fn text_before_asymmetric(a: Seq<char>, b: Seq<char>)
    requires
        text_before(a, b),
    ensures
        !text_before(b, a),
{
    if text_before(b, a) {
        text_before_transitive(a, b, a);
        text_before_irreflexive(a);
    }
}

/// Not coming before is transitive as well.
pub proof fn text_not_before_transitive(a: Seq<char>, b: Seq<char>, c: Seq<char>)
    requires
        !text_before(a, b),
        !text_before(b, c),
    ensures
        !text_before(a, c),
{
    if text_before(a, c) {
        text_before_total(a, b);
        if text_before(b, a) {
            text_before_transitive(b, a, c);
        }
    }
}

/// Whether `a` comes before `b`.
pub fn comes_before(a: &str, b: &str) -> (r: bool)
    ensures
        r == text_before(a@, b@),
{
    let x = chars_of(a);
    let y = chars_of(b);
    let mut i: usize = 0;
    assert(x@.skip(0) =~= x@);
    assert(y@.skip(0) =~= y@);
    while i < x.len() && i < y.len() && x[i] == y[i]
        invariant
            i <= x@.len(),
            i <= y@.len(),
            x@ == a@,
            y@ == b@,
            text_before(a@, b@) == text_before(x@.skip(i as int), y@.skip(i as int)),
        decreases x@.len() - i,
    {
        assert(x@.skip(i as int).drop_first() =~= x@.skip(i + 1));
        assert(y@.skip(i as int).drop_first() =~= y@.skip(i + 1));
        i += 1;
    }
    if i == y.len() {
        false
    } else if i == x.len() {
        true
    } else {
        x[i] < y[i]
    }
}

/// A value with a place in an order.
pub trait Ranked: Sized {
    /// Whether this value comes strictly before another.
    spec fn ranks_before(&self, other: &Self) -> bool;

    /// Whether this value comes strictly before another.
    fn precedes(&self, other: &Self) -> (r: bool)
        ensures
            r == self.ranks_before(other),
    ;

    /// Of two values, not both come before the other.
    proof fn rank_is_asymmetric(a: Self, b: Self)
        requires
            a.ranks_before(&b),
        ensures
            !b.ranks_before(&a),
    ;

    /// What does not come before a value does not come before anything that the value
    /// does not come before.
    proof fn rank_is_total(a: Self, b: Self, c: Self)
        requires
            !a.ranks_before(&b),
            !b.ranks_before(&c),
        ensures
            !a.ranks_before(&c),
    ;
}

impl Ranked for String {
    open spec fn ranks_before(&self, other: &Self) -> bool {
        text_before(self@, other@)
    }

    fn precedes(&self, other: &Self) -> (r: bool) {
        comes_before(self, other)
    }

    proof fn rank_is_asymmetric(a: Self, b: Self) {
        text_before_asymmetric(a@, b@);
    }

    proof fn rank_is_total(a: Self, b: Self, c: Self) {
        text_not_before_transitive(a@, b@, c@);
    }
}

/// `s`, which is in order, with `x` put behind everything that `x` does not come before.
pub open spec fn put_in<T: Ranked>(s: Seq<T>, x: T) -> Seq<T>
    decreases s.len(),
{
    if s.len() > 0 && x.ranks_before(&s.last()) {
        put_in(s.drop_last(), x).push(s.last())
    } else {
        s.push(x)
    }
}

/// The elements of `s` in order; those of equal rank keep their places among each other.
pub open spec fn arranged<T: Ranked>(s: Seq<T>) -> Seq<T>
    decreases s.len(),
{
    if s.len() == 0 {
        s
    } else {
        put_in(arranged(s.drop_last()), s.last())
    }
}

/// Whether nothing in `s` stands behind something that it comes before.
pub open spec fn in_order<T: Ranked>(s: Seq<T>) -> bool {
    forall|i: int, j: int|
        0 <= i < j < s.len() ==> !(#[trigger] s[j]).ranks_before(#[trigger] &s[i])
}

proof fn lemma_put_in_split<T: Ranked>(s: Seq<T>, x: T, at: int)
    requires
        0 <= at <= s.len(),
        forall|i: int| at <= i < s.len() ==> x.ranks_before(#[trigger] &s[i]),
        at > 0 ==> !x.ranks_before(&s[at - 1]),
    ensures
        put_in(s, x) == s.insert(at, x),
    decreases s.len(),
{
    if at < s.len() {
        lemma_put_in_split(s.drop_last(), x, at);
        assert(s.drop_last().insert(at, x).push(s.last()) =~= s.insert(at, x));
    } else {
        assert(s.push(x) =~= s.insert(at, x));
    }
}

proof fn lemma_put_in_multiset<T: Ranked>(s: Seq<T>, x: T)
    ensures
        put_in(s, x).to_multiset() == s.to_multiset().insert(x),
        put_in(s, x).len() == s.len() + 1,
    decreases s.len(),
{
    broadcast use vstd::seq_lib::group_to_multiset_ensures;

    if s.len() > 0 && x.ranks_before(&s.last()) {
        lemma_put_in_multiset(s.drop_last(), x);
        assert(s =~= s.drop_last().push(s.last()));
        assert(put_in(s, x).to_multiset() =~= s.to_multiset().insert(x));
    }
}

/// Arranging keeps every element, as often as it was there.
pub proof fn arranged_keeps_elements<T: Ranked>(s: Seq<T>)
    ensures
        arranged(s).to_multiset() == s.to_multiset(),
        arranged(s).len() == s.len(),
    decreases s.len(),
{
    broadcast use vstd::seq_lib::group_to_multiset_ensures;

    if s.len() > 0 {
        arranged_keeps_elements(s.drop_last());
        lemma_put_in_multiset(arranged(s.drop_last()), s.last());
        assert(s =~= s.drop_last().push(s.last()));
    }
}

proof fn lemma_put_in_order<T: Ranked>(s: Seq<T>, x: T)
    requires
        in_order(s),
    ensures
        in_order(put_in(s, x)),
        forall|k: int|
            0 <= k < put_in(s, x).len() ==> #[trigger] put_in(s, x)[k] == x || s.contains(
                put_in(s, x)[k],
            ),
    decreases s.len(),
{
    let r = put_in(s, x);
    if s.len() > 0 && x.ranks_before(&s.last()) {
        let front = s.drop_last();
        lemma_put_in_order(front, x);
        assert forall|k: int| 0 <= k < r.len() implies #[trigger] r[k] == x || s.contains(r[k]) by {
            if k < r.len() - 1 {
                assert(r[k] == put_in(front, x)[k]);
                if r[k] != x {
                    let j = choose|j: int| 0 <= j < front.len() && front[j] == r[k];
                    assert(s[j] == r[k]);
                }
            } else {
                assert(r[k] == s[s.len() - 1]);
            }
        }
        assert forall|i: int, j: int| 0 <= i < j < r.len() implies !(
        #[trigger] r[j]).ranks_before(#[trigger] &r[i]) by {
            if j < r.len() - 1 {
                assert(r[i] == put_in(front, x)[i] && r[j] == put_in(front, x)[j]);
            } else {
                assert(r[i] == put_in(front, x)[i]);
                if r[i] == x {
                    T::rank_is_asymmetric(x, s.last());
                } else {
                    let k = choose|k: int| 0 <= k < front.len() && front[k] == r[i];
                    assert(s[k] == r[i] && s[s.len() - 1] == r[j]);
                }
            }
        }
    } else {
        assert forall|k: int| 0 <= k < r.len() implies #[trigger] r[k] == x || s.contains(r[k]) by {
            if k < s.len() {
                assert(s[k] == r[k]);
            }
        }
        assert forall|i: int, j: int| 0 <= i < j < r.len() implies !(
        #[trigger] r[j]).ranks_before(#[trigger] &r[i]) by {
            if j < s.len() {
                assert(r[i] == s[i] && r[j] == s[j]);
            } else {
                assert(r[i] == s[i] && r[j] == x);
                if i < s.len() - 1 {
                    assert(!s[s.len() - 1].ranks_before(&s[i]));
                    T::rank_is_total(x, s.last(), s[i]);
                }
            }
        }
    }
}

/// Arranging puts everything in order.
pub proof fn arranged_is_in_order<T: Ranked>(s: Seq<T>)
    ensures
        in_order(arranged(s)),
    decreases s.len(),
{
    if s.len() > 0 {
        arranged_is_in_order(s.drop_last());
        lemma_put_in_order(arranged(s.drop_last()), s.last());
    }
}

/// Arranging gives a list of the same elements.
pub proof fn arranged_has_the_same<T: Ranked>(s: Seq<T>)
    ensures
        arranged(s).len() == s.len(),
        forall|i: int| 0 <= i < s.len() ==> s.contains(#[trigger] arranged(s)[i]),
        forall|i: int| 0 <= i < s.len() ==> arranged(s).contains(#[trigger] s[i]),
{
    broadcast use vstd::seq_lib::group_to_multiset_ensures;

    arranged_keeps_elements(s);
    let r = arranged(s);
    assert forall|i: int| 0 <= i < s.len() implies s.contains(#[trigger] r[i]) by {
        assert(r.contains(r[i]));
        assert(r.to_multiset().count(r[i]) > 0);
    }
    assert forall|i: int| 0 <= i < s.len() implies r.contains(#[trigger] s[i]) by {
        assert(s.contains(s[i]));
        assert(s.to_multiset().count(s[i]) > 0);
    }
}

/// Whether each element of `s` comes strictly before all that stand behind it.
pub open spec fn strictly_in_order<T: Ranked>(s: Seq<T>) -> bool {
    forall|i: int, j: int|
        0 <= i < j < s.len() ==> (#[trigger] s[i]).ranks_before(#[trigger] &s[j])
}

/// Whether of any two elements of `s` one comes before the other.
pub open spec fn all_differ<T: Ranked>(s: Seq<T>) -> bool {
    forall|i: int, j: int|
        0 <= i < j < s.len() ==> (#[trigger] s[i]).ranks_before(#[trigger] &s[j])
            || s[j].ranks_before(&s[i])
}

proof fn lemma_put_in_strict<T: Ranked>(s: Seq<T>, x: T)
    requires
        strictly_in_order(s),
        forall|i: int|
            0 <= i < s.len() ==> x.ranks_before(#[trigger] &s[i]) || s[i].ranks_before(&x),
    ensures
        strictly_in_order(put_in(s, x)),
    decreases s.len(),
{
    let r = put_in(s, x);
    if s.len() > 0 && x.ranks_before(&s.last()) {
        let front = s.drop_last();
        assert forall|i: int, j: int| 0 <= i < j < front.len() implies (
        #[trigger] front[i]).ranks_before(#[trigger] &front[j]) by {
            assert(front[i] == s[i] && front[j] == s[j]);
        }
        assert forall|i: int| 0 <= i < front.len() implies x.ranks_before(#[trigger] &front[i])
            || front[i].ranks_before(&x) by {
            assert(front[i] == s[i]);
        }
        lemma_put_in_strict(front, x);
        assert(in_order(front)) by {
            assert forall|i: int, j: int| 0 <= i < j < front.len() implies !(
            #[trigger] front[j]).ranks_before(#[trigger] &front[i]) by {
                T::rank_is_asymmetric(front[i], front[j]);
            }
        }
        lemma_put_in_order(front, x);
        assert forall|i: int, j: int| 0 <= i < j < r.len() implies (
        #[trigger] r[i]).ranks_before(#[trigger] &r[j]) by {
            assert(r[i] == put_in(front, x)[i]);
            if j < r.len() - 1 {
                assert(r[j] == put_in(front, x)[j]);
            } else if r[i] != x {
                let k = choose|k: int| 0 <= k < front.len() && front[k] == r[i];
                assert(s[k] == r[i] && s[s.len() - 1] == r[j]);
            }
        }
    } else {
        assert forall|i: int, j: int| 0 <= i < j < r.len() implies (
        #[trigger] r[i]).ranks_before(#[trigger] &r[j]) by {
            assert(r[i] == s[i]);
            if j < s.len() {
                assert(r[j] == s[j]);
            } else if x.ranks_before(&s[i]) {
                let last = s[s.len() - 1];
                assert(last.ranks_before(&x));
                if i < s.len() - 1 {
                    assert(s[i].ranks_before(&last));
                    T::rank_is_asymmetric(s[i], last);
                    T::rank_is_total(x, last, s[i]);
                }
            }
        }
    }
}

/// Where of any two elements one comes before the other, arranging leaves no two in doubt.
pub proof fn arranged_is_strict<T: Ranked>(s: Seq<T>)
    requires
        all_differ(s),
    ensures
        strictly_in_order(arranged(s)),
    decreases s.len(),
{
    if s.len() > 0 {
        let front = s.drop_last();
        let x = s.last();
        assert forall|i: int, j: int| 0 <= i < j < front.len() implies (
        #[trigger] front[i]).ranks_before(#[trigger] &front[j]) || front[j].ranks_before(
            &front[i],
        ) by {
            assert(front[i] == s[i] && front[j] == s[j]);
        }
        arranged_is_strict(front);
        arranged_has_the_same(front);
        let a = arranged(front);
        assert forall|i: int| 0 <= i < a.len() implies x.ranks_before(#[trigger] &a[i])
            || a[i].ranks_before(&x) by {
            assert(front.contains(a[i]));
            let k = choose|k: int| 0 <= k < front.len() && front[k] == a[i];
            assert(s[k] == a[i] && s[s.len() - 1] == x);
        }
        lemma_put_in_strict(a, x);
    }
}

/// Sorts a list, keeping the order of elements of equal rank.
pub fn arrange<T: Ranked>(v: Vec<T>) -> (r: Vec<T>)
    ensures
        r@ == arranged(v@),
{
    let mut rest = v;
    let ghost all = rest@;
    // The elements are taken off the end, so the list is turned round first.
    let mut turned: Vec<T> = Vec::new();
    while rest.len() > 0
        invariant
            rest@.len() + turned@.len() == all.len(),
            rest@ == all.take(rest@.len() as int),
            forall|k: int|
                0 <= k < turned@.len() ==> #[trigger] turned@[k] == all[all.len() - 1 - k],
        decreases rest@.len(),
    {
        let ghost before = rest@;
        let x = rest.pop().unwrap();
        turned.push(x);
        assert(rest@ =~= all.take(rest@.len() as int));
    }
    let mut out: Vec<T> = Vec::new();
    let ghost mut done: int = 0;
    assert(all.take(0) =~= Seq::<T>::empty());
    while turned.len() > 0
        invariant
            done + turned@.len() == all.len(),
            0 <= done,
            out@ == arranged(all.take(done)),
            forall|k: int|
                0 <= k < turned@.len() ==> #[trigger] turned@[k] == all[all.len() - 1 - k],
        decreases turned@.len(),
    {
        let ghost last = turned@.len() - 1;
        assert(turned@[last] == all[done]);
        let x = turned.pop().unwrap();
        let mut at: usize = out.len();
        while at > 0 && x.precedes(&out[at - 1])
            invariant
                at <= out@.len(),
                forall|i: int| at <= i < out@.len() ==> x.ranks_before(#[trigger] &out@[i]),
            decreases at,
        {
            at -= 1;
        }
        proof {
            lemma_put_in_split(out@, x, at as int);
            assert(all.take(done + 1).drop_last() =~= all.take(done));
            done = done + 1;
        }
        out.insert(at, x);
    }
    assert(all.take(done) =~= all);
    out
}

} // verus!
