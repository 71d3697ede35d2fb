//! The sum of the balances held in a finite map, and how it moves when one
//! balance changes.
use vstd::prelude::*;

verus! {

/// Sum of all values of a finite map.
pub open spec fn sum_of<K>(m: Map<K, i128>) -> int
    decreases m.dom().len(),
    when m.dom().finite()
{
    if m.dom().len() == 0 {
        0
    } else {
        let k = m.dom().choose();
        m[k] + sum_of(m.remove(k))
    }
}

/// Every value of the map is non-negative.
pub open spec fn all_non_negative<K>(m: Map<K, i128>) -> bool {
    forall|k: K| #[trigger] m.contains_key(k) ==> m[k] >= 0
}

pub proof fn lemma_sum_empty<K>()
    ensures
        sum_of(Map::<K, i128>::empty()) == 0,
{
    assert(Map::<K, i128>::empty().dom() =~= Set::empty());
}

/// Removing any one key takes its value out of the sum.
pub proof fn lemma_sum_remove<K>(m: Map<K, i128>, k: K)
    requires
        m.dom().finite(),
        m.contains_key(k),
    ensures
        sum_of(m) == m[k] + sum_of(m.remove(k)),
    decreases m.dom().len(),
{
    let c = m.dom().choose();
    if c != k {
        let mc = m.remove(c);
        let mk = m.remove(k);
        lemma_sum_remove(mc, k);
        lemma_sum_remove(mk, c);
        assert(mc.remove(k) =~= mk.remove(c));
    }
}

/// Writing one key replaces its old value (zero when absent) in the sum.
pub proof fn lemma_sum_insert<K>(m: Map<K, i128>, k: K, v: i128)
    requires
        m.dom().finite(),
    ensures
        m.insert(k, v).dom().finite(),
        sum_of(m.insert(k, v)) == sum_of(m) + v - (if m.contains_key(k) { m[k] as int } else { 0 }),
{
    let mi = m.insert(k, v);
    lemma_sum_remove(mi, k);
    if m.contains_key(k) {
        lemma_sum_remove(m, k);
        assert(mi.remove(k) =~= m.remove(k));
    } else {
        assert(mi.remove(k) =~= m);
    }
}

/// With non-negative values, the sum is non-negative.
pub proof fn lemma_sum_non_negative<K>(m: Map<K, i128>)
    requires
        m.dom().finite(),
        all_non_negative(m),
    ensures
        sum_of(m) >= 0,
    decreases m.dom().len(),
{
    if m.dom().len() != 0 {
        let k = m.dom().choose();
        lemma_sum_non_negative(m.remove(k));
    }
}

/// With non-negative values, two distinct balances together are bounded by the sum.
pub proof fn lemma_two_bounded_by_sum<K>(m: Map<K, i128>, a: K, b: K)
    requires
        m.dom().finite(),
        all_non_negative(m),
        m.contains_key(a),
        a != b,
    ensures
        m[a] + (if m.contains_key(b) { m[b] as int } else { 0 }) <= sum_of(m),
{
    lemma_sum_remove(m, a);
    let r = m.remove(a);
    if m.contains_key(b) {
        lemma_sum_remove(r, b);
        lemma_sum_non_negative(r.remove(b));
    } else {
        lemma_sum_non_negative(r);
    }
}

/// With non-negative values, one balance is bounded by the sum.
pub proof fn lemma_one_bounded_by_sum<K>(m: Map<K, i128>, a: K)
    requires
        m.dom().finite(),
        all_non_negative(m),
    ensures
        (if m.contains_key(a) { m[a] as int } else { 0 }) <= sum_of(m),
{
    lemma_sum_non_negative(m);
    if m.contains_key(a) {
        lemma_sum_remove(m, a);
        lemma_sum_non_negative(m.remove(a));
    }
}

/// With non-negative values, a part of the map sums to no more than the whole.
pub proof fn lemma_sum_submap<K>(sub: Map<K, i128>, m: Map<K, i128>)
    requires
        m.dom().finite(),
        all_non_negative(m),
        sub.dom().subset_of(m.dom()),
        forall|k: K| #[trigger] sub.contains_key(k) ==> sub[k] == m[k],
    ensures
        sum_of(sub) <= sum_of(m),
    decreases m.dom().len(),
{
    vstd::set_lib::lemma_len_subset(sub.dom(), m.dom());
    if m.dom().len() == 0 {
        assert(sub.dom() =~= Set::<K>::empty());
    } else {
        let k = m.dom().choose();
        lemma_sum_remove(m, k);
        let mr = m.remove(k);
        if sub.contains_key(k) {
            lemma_sum_remove(sub, k);
            lemma_sum_submap(sub.remove(k), mr);
        } else {
            assert(sub.dom().subset_of(mr.dom()));
            lemma_sum_submap(sub, mr);
        }
    }
}

} // verus!
