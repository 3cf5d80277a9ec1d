//! Stable ordering of a list by a three-part key.
use crate::text::{
    lemma_text_le_antisymmetric, lemma_text_le_reflexive, lemma_text_le_total,
    lemma_text_le_transitive, text_at_most, text_le,
};
use vstd::prelude::*;

verus! {

/// What an item is sorted by: two numbers, then a text.
#[derive(Debug)]
pub struct SortKey {
    pub major: u64,
    pub minor: u64,
    pub text: String,
}

pub struct SortKeyView {
    pub major: u64,
    pub minor: u64,
    pub text: Seq<char>,
}

impl View for SortKey {
    type V = SortKeyView;

    open spec fn view(&self) -> SortKeyView {
        SortKeyView { major: self.major, minor: self.minor, text: self.text@ }
    }
}

pub open spec fn key_views(keys: Seq<SortKey>) -> Seq<SortKeyView> {
    keys.map_values(|k: SortKey| k@)
}

/// Whether `a` sorts at or before `b`.
pub open spec fn key_le(a: SortKeyView, b: SortKeyView) -> bool {
    a.major < b.major || (a.major == b.major && (a.minor < b.minor || (a.minor == b.minor
        && text_le(a.text, b.text))))
}

/// Whether item `i` comes before item `j`: by key, and by place where the keys
/// agree.
pub open spec fn precedes(keys: Seq<SortKeyView>, i: int, j: int) -> bool {
    key_le(keys[i], keys[j]) && (keys[i] == keys[j] ==> i < j)
}

/// Whether `order` lists the items of `keys` once each, in stable order.
pub open spec fn is_stable_order(keys: Seq<SortKeyView>, order: Seq<int>) -> bool {
    &&& order.len() == keys.len()
    &&& forall|k: int| 0 <= k < order.len() ==> 0 <= #[trigger] order[k] < keys.len()
    &&& forall|v: int| 0 <= v < keys.len() ==> #[trigger] order.contains(v)
    &&& forall|a: int, b: int|
        0 <= a < b < order.len() ==> precedes(keys, #[trigger] order[a], #[trigger] order[b])
}

/// The stable order of a list of keys.
pub open spec fn stable_order(keys: Seq<SortKeyView>) -> Seq<int> {
    choose|order: Seq<int>| is_stable_order(keys, order)
}

/// The items of `list`, in the stable order of `keys`.
pub open spec fn reordered<T>(list: Seq<T>, order: Seq<int>) -> Seq<T> {
    Seq::new(order.len(), |i: int| list[order[i]])
}

proof fn lemma_key_le_transitive(a: SortKeyView, b: SortKeyView, c: SortKeyView)
    requires
        key_le(a, b),
        key_le(b, c),
    ensures
        key_le(a, c),
{
    if a.major == b.major && b.major == c.major && a.minor == b.minor && b.minor == c.minor {
        lemma_text_le_transitive(a.text, b.text, c.text);
    }
}

proof fn lemma_key_le_antisymmetric(a: SortKeyView, b: SortKeyView)
    requires
        key_le(a, b),
        key_le(b, a),
    ensures
        a == b,
{
    lemma_text_le_antisymmetric(a.text, b.text);
}

proof fn lemma_key_le_total(a: SortKeyView, b: SortKeyView)
    ensures
        key_le(a, b) || key_le(b, a),
{
    lemma_text_le_total(a.text, b.text);
}

/// A list of keys has one stable order only.
pub proof fn stable_order_is_unique(keys: Seq<SortKeyView>, a: Seq<int>, b: Seq<int>)
    requires
        is_stable_order(keys, a),
        is_stable_order(keys, b),
    ensures
        a == b,
{
    lemma_same_prefix(keys, a, b, a.len());
    assert(a =~= b);
}

proof fn lemma_same_prefix(keys: Seq<SortKeyView>, a: Seq<int>, b: Seq<int>, n: nat)
    requires
        is_stable_order(keys, a),
        is_stable_order(keys, b),
        n <= a.len(),
    ensures
        forall|k: int| 0 <= k < n ==> a[k] == b[k],
    decreases n,
{
    if n > 0 {
        lemma_same_prefix(keys, a, b, (n - 1) as nat);
        let i = n - 1;
        if a[i] != b[i] {
            assert(b.contains(a[i]));
            let j = choose|j: int| 0 <= j < b.len() && b[j] == a[i];
            assert(a.contains(b[i]));
            let k = choose|k: int| 0 <= k < a.len() && a[k] == b[i];
            if j < i {
                assert(a[j] == a[i]);
                assert(precedes(keys, a[j], a[i]));
            }
            if k < i {
                assert(b[k] == b[i]);
                assert(precedes(keys, b[k], b[i]));
            }
            assert(precedes(keys, a[i], a[k]));
            assert(precedes(keys, b[i], b[j]));
            lemma_key_le_antisymmetric(keys[a[i]], keys[b[i]]);
        }
    }
}

fn key_at_most(a: &SortKey, b: &SortKey) -> (r: bool)
    ensures
        r == key_le(a@, b@),
{
    a.major < b.major || (a.major == b.major && (a.minor < b.minor || (a.minor == b.minor
        && text_at_most(a.text.as_str(), b.text.as_str()))))
}

pub open spec fn index_views(order: Seq<usize>) -> Seq<int> {
    order.map_values(|i: usize| i as int)
}

proof fn lemma_inserted(keys: Seq<SortKeyView>, old_order: Seq<int>, p: int)
    requires
        keys.len() > 0,
        is_stable_order(keys.drop_last(), old_order),
        0 <= p <= old_order.len(),
        p > 0 ==> key_le(keys[old_order[p - 1]], keys.last()),
        p < old_order.len() ==> !key_le(keys[old_order[p]], keys.last()),
    ensures
        is_stable_order(keys, old_order.insert(p, keys.len() - 1)),
{
    let short = keys.drop_last();
    let n = keys.len() - 1;
    let order = old_order.insert(p, n);
    assert forall|v: int| 0 <= v < keys.len() implies #[trigger] order.contains(v) by {
        if v == n {
            assert(order[p] == v);
        } else {
            assert(old_order.contains(v));
            let k = choose|k: int| 0 <= k < old_order.len() && old_order[k] == v;
            if k < p {
                assert(order[k] == v);
            } else {
                assert(order[k + 1] == v);
            }
        }
    }
    assert forall|a: int, b: int| 0 <= a < b < order.len() implies precedes(
        keys,
        #[trigger] order[a],
        #[trigger] order[b],
    ) by {
        let oa = if a < p {
            a
        } else {
            a - 1
        };
        let ob = if b < p {
            b
        } else {
            b - 1
        };
        if a != p && b != p {
            assert(precedes(short, old_order[oa], old_order[ob]));
        } else if b == p {
            if a < p - 1 {
                assert(precedes(short, old_order[a], old_order[p - 1]));
                lemma_key_le_transitive(keys[old_order[a]], keys[old_order[p - 1]], keys[n]);
            }
        } else {
            lemma_key_le_total(keys[old_order[p]], keys[n]);
            if ob > p {
                assert(precedes(short, old_order[p], old_order[ob]));
                lemma_key_le_transitive(keys[n], keys[old_order[p]], keys[old_order[ob]]);
                if keys[n] == keys[old_order[ob]] {
                    lemma_key_le_antisymmetric(keys[n], keys[old_order[p]]);
                    lemma_text_le_reflexive(keys[n].text);
                }
            }
            if keys[n] == keys[old_order[p]] {
                lemma_text_le_reflexive(keys[n].text);
            }
        }
    }
}

proof fn lemma_slot(keys: Seq<SortKeyView>, order: Seq<int>, from: nat) -> (p: int)
    requires
        from <= order.len(),
        from < order.len() ==> !key_le(keys[order[from as int]], keys.last()),
    ensures
        0 <= p <= order.len(),
        p > 0 ==> key_le(keys[order[p - 1]], keys.last()),
        p < order.len() ==> !key_le(keys[order[p]], keys.last()),
    decreases from,
{
    if from > 0 && !key_le(keys[order[from - 1]], keys.last()) {
        lemma_slot(keys, order, (from - 1) as nat)
    } else {
        from as int
    }
}

/// Every list of keys has a stable order.
pub proof fn stable_order_sorts(keys: Seq<SortKeyView>)
    ensures
        is_stable_order(keys, stable_order(keys)),
    decreases keys.len(),
{
    if keys.len() == 0 {
        assert(is_stable_order(keys, Seq::<int>::empty()));
    } else {
        stable_order_sorts(keys.drop_last());
        let shorter = stable_order(keys.drop_last());
        let p = lemma_slot(keys, shorter, shorter.len());
        lemma_inserted(keys, shorter, p);
        assert(is_stable_order(keys, shorter.insert(p, keys.len() - 1)));
    }
}

/// The stable order of `keys`: a list of its indices.
pub fn sort_order(keys: &Vec<SortKey>) -> (r: Vec<usize>)
    ensures
        is_stable_order(key_views(keys@), index_views(r@)),
        index_views(r@) == stable_order(key_views(keys@)),
{
    let mut order: Vec<usize> = Vec::new();
    let mut n: usize = 0;
    while n < keys.len()
        invariant
            n <= keys.len(),
            is_stable_order(key_views(keys@.take(n as int)), index_views(order@)),
        decreases keys.len() - n,
    {
        let ghost old_order = index_views(order@);
        let ghost now = key_views(keys@.take(n + 1));
        proof {
            assert(now.drop_last() =~= key_views(keys@.take(n as int)));
            assert(now.last() == keys@[n as int]@);
            assert forall|k: int| 0 <= k < n implies #[trigger] order@[k] < n by {
                assert(0 <= old_order[k] < n);
            }
        }
        let mut p: usize = order.len();
        while p > 0 && !key_at_most(&keys[order[p - 1]], &keys[n])
            invariant
                p <= order.len() == n,
                n < keys.len(),
                now == key_views(keys@.take(n + 1)),
                old_order == index_views(order@),
                is_stable_order(now.drop_last(), old_order),
                forall|k: int| 0 <= k < n ==> #[trigger] order@[k] < n,
                p < n ==> !key_le(now[old_order[p as int]], now.last()),
            decreases p,
        {
            assert(old_order[p - 1] == order@[p - 1]);
            assert(now[old_order[p - 1]] == keys@[order@[p - 1] as int]@);
            p -= 1;
        }
        proof {
            if p > 0 {
                assert(old_order[p - 1] == order@[p - 1]);
                assert(now[old_order[p - 1]] == keys@[order@[p - 1] as int]@);
            }
            lemma_inserted(now, old_order, p as int);
        }
        order.insert(p, n);
        assert(index_views(order@) =~= old_order.insert(p as int, n as int));
        n += 1;
    }
    assert(keys@.take(n as int) =~= keys@);
    proof {
        stable_order_is_unique(
            key_views(keys@),
            index_views(order@),
            stable_order(key_views(keys@)),
        );
    }
    order
}

} // verus!
