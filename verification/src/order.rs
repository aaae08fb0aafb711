//! The lexicographic order of texts, and sorting.

use crate::text::{chars_of, code_point};
use vstd::multiset::Multiset;
use vstd::prelude::*;

verus! {

/// The lexicographic order of texts by the code points of their characters.
pub open spec fn text_le(a: Seq<char>, b: Seq<char>) -> bool
    decreases a.len(),
{
    if a.len() == 0 {
        true
    } else if b.len() == 0 {
        false
    } else if a[0] != b[0] {
        (a[0] as int) < (b[0] as int)
    } else {
        text_le(a.skip(1), b.skip(1))
    }
}

/// `text_le` orders all texts.
pub proof fn text_order_is_total(a: Seq<char>, b: Seq<char>, c: Seq<char>)
    ensures
        text_le(a, b) || text_le(b, a),
        text_le(a, b) && text_le(b, a) ==> a == b,
        text_le(a, b) && text_le(b, c) ==> text_le(a, c),
    decreases a.len() + b.len() + c.len(),
{
    if a.len() > 0 && b.len() > 0 && a[0] == b[0] {
        text_order_is_total(a.skip(1), b.skip(1), if c.len() > 0 {
            c.skip(1)
        } else {
            c
        });
        assert(a =~= seq![a[0]] + a.skip(1));
        assert(b =~= seq![b[0]] + b.skip(1));
    }
    if a.len() == 0 && b.len() == 0 {
        assert(a =~= b);
    }
}

/// The first text comes before the second.
pub open spec fn text_before(a: Seq<char>, b: Seq<char>) -> bool {
    text_le(a, b) && a != b
}

/// A text comes before another where they first differ in a smaller character, or where it is the
/// beginning of the other.
pub proof fn lemma_before_at(a: Seq<char>, b: Seq<char>, k: int)
    requires
        0 <= k <= a.len(),
        k < b.len(),
        forall|i: int| 0 <= i < k ==> a[i] == b[i],
        k == a.len() || (a[k] as int) < (b[k] as int),
    ensures
        text_before(a, b),
    decreases k,
{
    if k > 0 {
        lemma_before_at(a.skip(1), b.skip(1), k - 1);
    }
}

/// Whether `a` comes no later than `b`.
pub fn text_at_most(a: &str, b: &str) -> (r: bool)
    ensures
        r == text_le(a@, b@),
{
    let x = chars_of(a);
    let y = chars_of(b);
    let mut i: usize = 0;
    assert(a@.skip(0) =~= a@);
    assert(b@.skip(0) =~= b@);
    while i < x.len()
        invariant
            x@ == a@,
            y@ == b@,
            i <= x@.len(),
            i <= y@.len(),
            text_le(a@, b@) == text_le(a@.skip(i as int), b@.skip(i as int)),
        decreases x@.len() - i,
    {
        if i == y.len() {
            return false;
        }
        if x[i] != y[i] {
            return code_point(x[i]) < code_point(y[i]);
        }
        assert(a@.skip(i as int).skip(1) =~= a@.skip(i + 1));
        assert(b@.skip(i as int).skip(1) =~= b@.skip(i + 1));
        i += 1;
    }
    true
}

/// Values with a total order on what they stand for.
pub trait Ordered: Sized {
    type Model;

    spec fn model(&self) -> Self::Model;

    spec fn model_le(a: Self::Model, b: Self::Model) -> bool;

    proof fn order_laws(a: Self::Model, b: Self::Model, c: Self::Model)
        ensures
            Self::model_le(a, b) || Self::model_le(b, a),
            Self::model_le(a, b) && Self::model_le(b, c) ==> Self::model_le(a, c),
    ;

    fn at_most(&self, other: &Self) -> (r: bool)
        ensures
            r == Self::model_le(self.model(), other.model()),
    ;
}

pub open spec fn models<T: Ordered>(v: Seq<T>) -> Seq<T::Model> {
    Seq::new(v.len(), |i: int| v[i].model())
}

/// Each element comes no later than those behind it.
pub open spec fn sorted<T: Ordered>(m: Seq<T::Model>) -> bool {
    forall|i: int, j: int|
        #![trigger m[i], m[j]]
        0 <= i < j < m.len() ==> T::model_le(m[i], m[j])
}

fn insert_in_order<T: Ordered>(v: &mut Vec<T>, x: T)
    requires
        sorted::<T>(models(old(v)@)),
    ensures
        sorted::<T>(models(final(v)@)),
        models(final(v)@).to_multiset() == models(old(v)@).to_multiset().insert(x.model()),
{
    let ghost before = models(v@);
    let mut at: usize = 0;
    while at < v.len() && v[at].at_most(&x)
        invariant
            at <= v@.len(),
            before == models(v@),
            forall|i: int| 0 <= i < at ==> T::model_le(#[trigger] before[i], x.model()),
        decreases v@.len() - at,
    {
        assert(before[at as int] == v@[at as int].model());
        at += 1;
    }
    let ghost m = x.model();
    if at < v.len() {
        assert(before[at as int] == v@[at as int].model());
        proof {
            T::order_laws(before[at as int], m, m);
        }
    }
    v.insert(at, x);
    let ghost after = models(v@);
    assert(after =~= before.insert(at as int, m));
    assert forall|i: int, j: int|
        #![trigger after[i], after[j]]
        0 <= i < j < after.len() implies T::model_le(after[i], after[j]) by {
        let p = if i < at {
            i
        } else {
            i - 1
        };
        let q = if j < at {
            j
        } else {
            j - 1
        };
        if i == at {
            T::order_laws(m, before[at as int], before[q]);
        } else if j == at {
        } else {
            assert(T::model_le(before[p], before[q]));
        }
    }
    proof {
        broadcast use vstd::seq_lib::group_to_multiset_ensures;

        assert(before.insert(at as int, m).to_multiset() =~= before.to_multiset().insert(m));
    }
}

/// The values of `v` in order.
pub fn sort<T: Ordered>(v: Vec<T>) -> (r: Vec<T>)
    ensures
        sorted::<T>(models(r@)),
        models(r@).to_multiset() == models(v@).to_multiset(),
        r@.len() == v@.len(),
{
    let mut rest = v;
    let mut out: Vec<T> = Vec::new();
    let ghost all = models(v@).to_multiset();
    proof {
        broadcast use vstd::seq_lib::group_to_multiset_ensures;

        assert(models(out@) =~= Seq::<T::Model>::empty());
        assert(models(rest@).to_multiset().add(models(out@).to_multiset()) =~= all);
    }
    while rest.len() > 0
        invariant
            sorted::<T>(models(out@)),
            models(rest@).to_multiset().add(models(out@).to_multiset()) =~= all,
        decreases rest@.len(),
    {
        let ghost before = models(rest@);
        let ghost sofar = models(out@).to_multiset();
        let x = rest.pop().unwrap();
        let ghost m = x.model();
        assert(before =~= models(rest@).push(m));
        insert_in_order(&mut out, x);
        proof {
            broadcast use vstd::seq_lib::group_to_multiset_ensures;

            assert(before.to_multiset() =~= models(rest@).to_multiset().insert(m));
            assert(models(rest@).to_multiset().add(sofar.insert(m)) =~= before.to_multiset().add(
                sofar,
            ));
        }
    }
    proof {
        broadcast use vstd::seq_lib::group_to_multiset_ensures;

        assert(models(rest@) =~= Seq::<T::Model>::empty());
        assert(models(rest@).to_multiset() =~= Multiset::empty());
        assert(models(out@).to_multiset() =~= all);
        assert(models(out@).to_multiset().len() == models(out@).len());
        assert(models(v@).to_multiset().len() == models(v@).len());
    }
    out
}

/// Sorting leaves only one order: two sorted texts lists of the same entries are equal.
pub proof fn sorted_lists_are_unique<T: Ordered>(a: Seq<T::Model>, b: Seq<T::Model>)
    requires
        sorted::<T>(a),
        sorted::<T>(b),
        a.to_multiset() == b.to_multiset(),
        forall|x: T::Model, y: T::Model|
            T::model_le(x, y) && T::model_le(y, x) ==> x == y,
    ensures
        a == b,
    decreases a.len(),
{
    broadcast use vstd::seq_lib::group_to_multiset_ensures;

    assert(a.to_multiset().len() == a.len());
    assert(b.to_multiset().len() == b.len());
    if a.len() > 0 {
        let x = a[0];
        let y = b[0];
        assert(a.to_multiset().contains(x));
        assert(b.to_multiset().contains(y));
        assert(b.contains(x));
        assert(a.contains(y));
        let i = choose|i: int| 0 <= i < b.len() && b[i] == x;
        let j = choose|j: int| 0 <= j < a.len() && a[j] == y;
        T::order_laws(x, x, x);
        T::order_laws(y, y, y);
        assert(x == y);
        assert(a.remove(0).to_multiset() =~= a.to_multiset().remove(x));
        assert(b.remove(0).to_multiset() =~= b.to_multiset().remove(y));
        assert forall|p: int, q: int|
            #![trigger a.remove(0)[p], a.remove(0)[q]]
            0 <= p < q < a.remove(0).len() implies T::model_le(a.remove(0)[p], a.remove(0)[q]) by {
            assert(T::model_le(a[p + 1], a[q + 1]));
        }
        assert forall|p: int, q: int|
            #![trigger b.remove(0)[p], b.remove(0)[q]]
            0 <= p < q < b.remove(0).len() implies T::model_le(b.remove(0)[p], b.remove(0)[q]) by {
            assert(T::model_le(b[p + 1], b[q + 1]));
        }
        sorted_lists_are_unique::<T>(a.remove(0), b.remove(0));
        assert(a =~= seq![x] + a.remove(0));
        assert(b =~= seq![y] + b.remove(0));
    } else {
        assert(a =~= b);
    }
}

/// A pair of texts, ordered by the first and then the second.
#[derive(Debug, PartialEq, Eq)]
pub struct TextPair {
    pub first: String,
    pub second: String,
}

pub open spec fn pair_le(a: (Seq<char>, Seq<char>), b: (Seq<char>, Seq<char>)) -> bool {
    if a.0 != b.0 {
        text_le(a.0, b.0)
    } else {
        text_le(a.1, b.1)
    }
}

impl Ordered for TextPair {
    type Model = (Seq<char>, Seq<char>);

    open spec fn model(&self) -> (Seq<char>, Seq<char>) {
        (self.first@, self.second@)
    }

    open spec fn model_le(a: (Seq<char>, Seq<char>), b: (Seq<char>, Seq<char>)) -> bool {
        pair_le(a, b)
    }

    proof fn order_laws(
        a: (Seq<char>, Seq<char>),
        b: (Seq<char>, Seq<char>),
        c: (Seq<char>, Seq<char>),
    ) {
        text_order_is_total(a.0, b.0, c.0);
        text_order_is_total(a.1, b.1, c.1);
    }

    fn at_most(&self, other: &Self) -> (r: bool) {
        if self.first != other.first {
            text_at_most(self.first.as_str(), other.first.as_str())
        } else {
            text_at_most(self.second.as_str(), other.second.as_str())
        }
    }
}

} // verus!
