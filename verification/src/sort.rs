//! Ordering by text: the order that `String`'s `Ord` gives (byte order of
//! UTF-8, which is the order of code points), and an insertion sort of
//! keyed items by it.

use vstd::prelude::*;
use vstd::multiset::Multiset;

use crate::text::chars_of;

verus! {

broadcast use vstd::seq_lib::group_to_multiset_ensures;

/// `a <= b` in the lexicographic order of code points.
pub open spec fn text_le(a: Seq<char>, b: Seq<char>) -> bool
    decreases a.len(),
{
    if a.len() == 0 {
        true
    } else if b.len() == 0 {
        false
    } else if a[0] != b[0] {
        a[0] < b[0]
    } else {
        text_le(a.drop_first(), b.drop_first())
    }
}

/// Any two texts are ordered one way or the other.
pub proof fn lemma_text_le_total(a: Seq<char>, b: Seq<char>)
    ensures
        text_le(a, b) || text_le(b, a),
    decreases a.len(),
{
    if a.len() > 0 && b.len() > 0 {
        if a[0] == b[0] {
            lemma_text_le_total(a.drop_first(), b.drop_first());
        }
    }
}

/// The order is transitive.
pub proof fn lemma_text_le_trans(a: Seq<char>, b: Seq<char>, c: Seq<char>)
    requires
        text_le(a, b),
        text_le(b, c),
    ensures
        text_le(a, c),
    decreases a.len(),
{
    if a.len() > 0 && b.len() > 0 && c.len() > 0 && a[0] == b[0] && b[0] == c[0] {
        lemma_text_le_trans(a.drop_first(), b.drop_first(), c.drop_first());
    }
}

/// Two texts that are each no greater than the other are equal.
pub proof fn lemma_text_le_antisymmetric(a: Seq<char>, b: Seq<char>)
    requires
        text_le(a, b),
        text_le(b, a),
    ensures
        a == b,
    decreases a.len(),
{
    if a.len() > 0 && b.len() > 0 {
        lemma_text_le_antisymmetric(a.drop_first(), b.drop_first());
        assert(a =~= seq![a[0]] + a.drop_first());
        assert(b =~= seq![b[0]] + b.drop_first());
    }
}

/// `a <= b` for strings, as `String`'s `Ord` decides it.
pub fn text_le_exec(a: &str, b: &str) -> (r: bool)
    ensures
        r == text_le(a@, b@),
{
    let x = chars_of(a);
    let y = chars_of(b);
    let mut i: usize = 0;
    assert(a@.skip(0) =~= a@ && b@.skip(0) =~= b@);
    while i < x.len() && i < y.len()
        invariant
            x@ == a@,
            y@ == b@,
            i <= x@.len(),
            i <= y@.len(),
            text_le(a@, b@) == text_le(a@.skip(i as int), b@.skip(i as int)),
        decreases x@.len() - i,
    {
        let c = x[i];
        let d = y[i];
        assert(a@.skip(i as int)[0] == c && b@.skip(i as int)[0] == d);
        if c != d {
            return c < d;
        }
        assert(a@.skip(i as int).drop_first() =~= a@.skip(i + 1));
        assert(b@.skip(i as int).drop_first() =~= b@.skip(i + 1));
        i = i + 1;
    }
    i == x.len()
}

/// An item ordered by a text key.
pub trait TextKeyed {
    spec fn key_view(&self) -> Seq<char>;

    fn key(&self) -> (r: &str)
        ensures
            r@ == self.key_view(),
    ;
}

/// The keys are in order.
pub open spec fn keys_sorted<T: TextKeyed>(s: Seq<T>) -> bool {
    forall|i: int, j: int| 0 <= i < j < s.len() ==> text_le(#[trigger] s[i].key_view(), #[trigger] s[j].key_view())
}

proof fn lemma_insert_multiset<T>(s: Seq<T>, i: int, a: T)
    requires
        0 <= i <= s.len(),
    ensures
        s.insert(i, a).to_multiset() =~= s.to_multiset().insert(a),
{
    let t = s.insert(i, a);
    assert(t.remove(i) =~= s);
    assert(t[i] == a);
    assert(t.contains(a));
    assert(t.to_multiset().count(a) > 0);
    assert(t.remove(i).to_multiset() =~= t.to_multiset().remove(a));
}

/// Sorts keyed items by key.
pub fn sort_by_key<T: TextKeyed>(items: Vec<T>) -> (r: Vec<T>)
    ensures
        keys_sorted(r@),
        r@.to_multiset() =~= items@.to_multiset(),
{
    let ghost all = items@.to_multiset();
    let mut rest = items;
    let mut out: Vec<T> = Vec::new();
    while rest.len() > 0
        invariant
            keys_sorted(out@),
            out@.to_multiset().add(rest@.to_multiset()) =~= all,
        decreases rest@.len(),
    {
        let ghost before_rest = rest@;
        let item = rest.remove(0);
        assert(before_rest.remove(0).to_multiset() =~= before_rest.to_multiset().remove(item));
        assert(before_rest[0] == item);
        assert(before_rest.contains(item));
        assert(before_rest.to_multiset().count(item) > 0);
        let mut p: usize = 0;
        while p < out.len()
            invariant
                p <= out@.len(),
                keys_sorted(out@),
                forall|j: int| 0 <= j < p ==> text_le(#[trigger] out@[j].key_view(), item.key_view()),
            ensures
                p <= out@.len(),
                forall|j: int| 0 <= j < p ==> text_le(#[trigger] out@[j].key_view(), item.key_view()),
                p < out@.len() ==> !text_le(out@[p as int].key_view(), item.key_view()),
            decreases out@.len() - p,
        {
            if !text_le_exec(out[p].key(), item.key()) {
                break;
            }
            p = p + 1;
        }
        proof {
            if p < out@.len() {
                lemma_text_le_total(out@[p as int].key_view(), item.key_view());
                assert forall|k: int| p <= k < out@.len() implies text_le(item.key_view(), #[trigger] out@[k].key_view()) by {
                    if k > p {
                        assert(text_le(out@[p as int].key_view(), out@[k].key_view()));
                        lemma_text_le_trans(item.key_view(), out@[p as int].key_view(), out@[k].key_view());
                    }
                }
            }
        }
        let ghost before = out@;
        out.insert(p, item);
        proof {
            lemma_insert_multiset(before, p as int, item);
            assert forall|i: int, j: int| 0 <= i < j < out@.len() implies text_le(
                #[trigger] out@[i].key_view(),
                #[trigger] out@[j].key_view(),
            ) by {
                if j < p {
                    assert(out@[i] == before[i] && out@[j] == before[j]);
                } else if j == p {
                    assert(out@[i] == before[i]);
                } else if i < p {
                    assert(out@[i] == before[i] && out@[j] == before[j - 1]);
                    assert(text_le(before[i].key_view(), item.key_view()));
                    assert(text_le(item.key_view(), before[j - 1].key_view()));
                    lemma_text_le_trans(before[i].key_view(), item.key_view(), before[j - 1].key_view());
                } else if i == p {
                    assert(out@[j] == before[j - 1]);
                } else {
                    assert(out@[i] == before[i - 1] && out@[j] == before[j - 1]);
                }
            }
            assert(before_rest.to_multiset() =~= rest@.to_multiset().insert(item));
        }
    }
    out
}

/// Mapping both sides of a permutation gives a permutation.
pub proof fn lemma_map_permutation<A, B>(a: Seq<A>, b: Seq<A>, f: spec_fn(A) -> B)
    requires
        a.to_multiset() =~= b.to_multiset(),
    ensures
        a.map_values(f).to_multiset() =~= b.map_values(f).to_multiset(),
    decreases a.len(),
{
    if a.len() == 0 {
        assert(b.to_multiset().len() == 0);
        assert(a.map_values(f) =~= Seq::<B>::empty());
        assert(b.map_values(f) =~= Seq::<B>::empty());
    } else {
        let x = a.last();
        let a2 = a.drop_last();
        assert(a =~= a2.push(x));
        assert(a.to_multiset() =~= a2.to_multiset().insert(x));
        assert(b.to_multiset().count(x) > 0);
        assert(b.contains(x));
        let k = choose|k: int| 0 <= k < b.len() && b[k] == x;
        let b2 = b.remove(k);
        assert(b2.to_multiset() =~= b.to_multiset().remove(x));
        assert(a2.to_multiset() =~= b2.to_multiset());
        lemma_map_permutation(a2, b2, f);
        assert(a.map_values(f) =~= a2.map_values(f).push(f(x)));
        let bm = b.map_values(f);
        assert(bm.remove(k) =~= b2.map_values(f));
        assert(bm[k] == f(x));
        assert(bm.remove(k).to_multiset() =~= bm.to_multiset().remove(f(x)));
        assert(bm.contains(f(x)));
        assert(bm.to_multiset().count(f(x)) > 0);
    }
}

} // verus!
