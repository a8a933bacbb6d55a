//! The sum of the balances held in a finite map.
use vstd::prelude::*;

verus! {

/// The sum of all values of `m` (zero for an empty or infinite map).
pub open spec fn total<K>(m: Map<K, u128>) -> int
    decreases m.dom().len(),
{
    if m.dom().finite() && m.dom().len() > 0 {
        let k = m.dom().choose();
        m[k] + total(m.remove(k))
    } else {
        0
    }
}

/// Taking one entry out of a finite map lowers the sum by that entry's value.
pub proof fn lemma_total_remove<K>(m: Map<K, u128>, k: K)
    requires
        m.dom().finite(),
        m.dom().contains(k),
    ensures
        total(m) == m[k] + total(m.remove(k)),
    decreases m.dom().len(),
{
    let c = m.dom().choose();
    if c != k {
        lemma_total_remove(m.remove(c), k);
        lemma_total_remove(m.remove(k), c);
        assert(m.remove(c).remove(k) =~= m.remove(k).remove(c));
    }
}

/// The sum of a map of unsigned values is never negative.
pub proof fn lemma_total_nonnegative<K>(m: Map<K, u128>)
    ensures
        total(m) >= 0,
    decreases m.dom().len(),
{
    if m.dom().finite() && m.dom().len() > 0 {
        lemma_total_nonnegative(m.remove(m.dom().choose()));
    }
}

/// Writing `v` at `k` replaces the old entry's share of the sum by `v`.
pub proof fn lemma_total_insert<K>(m: Map<K, u128>, k: K, v: u128)
    requires
        m.dom().finite(),
    ensures
        total(m.insert(k, v)) == total(m) - (if m.dom().contains(k) { m[k] as int } else { 0 }) + v,
{
    let n = m.insert(k, v);
    lemma_total_remove(n, k);
    if m.dom().contains(k) {
        lemma_total_remove(m, k);
        assert(n.remove(k) =~= m.remove(k));
    } else {
        assert(n.remove(k) =~= m);
    }
}

/// Every single entry is at most the sum of the whole map.
pub proof fn lemma_entry_le_total<K>(m: Map<K, u128>, k: K)
    requires
        m.dom().finite(),
        m.dom().contains(k),
    ensures
        m[k] <= total(m),
{
    lemma_total_remove(m, k);
    lemma_total_nonnegative(m.remove(k));
}

/// Two distinct entries together are at most the sum of the whole map.
pub proof fn lemma_two_entries_le_total<K>(m: Map<K, u128>, a: K, b: K)
    requires
        m.dom().finite(),
        m.dom().contains(a),
        m.dom().contains(b),
        a != b,
    ensures
        m[a] + m[b] <= total(m),
{
    lemma_total_remove(m, a);
    lemma_entry_le_total(m.remove(a), b);
}

} // verus!
