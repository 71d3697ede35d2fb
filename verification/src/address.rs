//! Ledger identities and the maps that are keyed by them.
use vstd::prelude::*;

verus! {

/// Identity of an account or a contract on the ledger.
///
/// The ledger names each participant by an opaque handle; the library only
/// ever compares two handles for equality, so an integer identifier carries
/// everything that the contract logic reads of it.
#[derive(Clone, Copy, PartialEq, Eq, Debug, Hash, Structural)]
pub struct Address(pub u64);

/// A map stored under integer identifiers, read as a map keyed by `Address`.
pub open spec fn by_address<V>(m: Map<u64, V>) -> Map<Address, V> {
    Map::new(|a: Address| m.contains_key(a.0), |a: Address| m[a.0])
}

pub proof fn lemma_by_address_empty<V>()
    ensures
        by_address(Map::<u64, V>::empty()) == Map::<Address, V>::empty(),
{
    assert(by_address(Map::<u64, V>::empty()) =~= Map::<Address, V>::empty());
}

pub proof fn lemma_by_address_insert<V>(m: Map<u64, V>, a: Address, v: V)
    ensures
        by_address(m.insert(a.0, v)) == by_address(m).insert(a, v),
{
    assert(by_address(m.insert(a.0, v)) =~= by_address(m).insert(a, v));
}

pub proof fn lemma_by_address_remove<V>(m: Map<u64, V>, a: Address)
    ensures
        by_address(m.remove(a.0)) == by_address(m).remove(a),
{
    assert(by_address(m.remove(a.0)) =~= by_address(m).remove(a));
}

pub proof fn lemma_by_address_finite<V>(m: Map<u64, V>)
    requires
        m.dom().finite(),
    ensures
        by_address(m).dom().finite(),
{
    let f = |k: u64| Address(k);
    assert(by_address(m).dom() =~= m.dom().map(f));
    m.dom().lemma_map_finite(f);
}

/// The map described by a list of (key, value) pairs; when a key is listed
/// more than once, its last value counts.
pub open spec fn pairs_map<K, V>(s: Seq<(K, V)>) -> Map<K, V>
    decreases s.len(),
{
    if s.len() == 0 {
        Map::empty()
    } else {
        pairs_map(s.drop_last()).insert(s.last().0, s.last().1)
    }
}

/// No key is listed twice.
pub open spec fn keys_unique<K, V>(s: Seq<(K, V)>) -> bool {
    forall|i: int, j: int| 0 <= i < j < s.len() ==> s[i].0 != s[j].0
}

pub proof fn lemma_pairs_map_step<K, V>(s: Seq<(K, V)>, i: int)
    requires
        0 <= i < s.len(),
    ensures
        pairs_map(s.take(i + 1)) == pairs_map(s.take(i)).insert(s[i].0, s[i].1),
{
    assert(s.take(i + 1).drop_last() =~= s.take(i));
}

/// A key is in the described map exactly when it is listed.
pub proof fn lemma_pairs_map_domain<K, V>(s: Seq<(K, V)>)
    ensures
        pairs_map(s).dom().finite(),
        forall|a: K| #[trigger] pairs_map(s).contains_key(a) <==> exists|j: int| 0 <= j < s.len() && s[j].0 == a,
    decreases s.len(),
{
    if s.len() > 0 {
        let p = s.drop_last();
        lemma_pairs_map_domain(p);
        assert forall|a: K| #[trigger] pairs_map(s).contains_key(a) implies exists|j: int|
            0 <= j < s.len() && s[j].0 == a by {
            if a != s.last().0 {
                let j = choose|j: int| 0 <= j < p.len() && p[j].0 == a;
                assert(s[j] == p[j]);
            } else {
                assert(s[s.len() - 1].0 == a);
            }
        }
        assert forall|a: K| (exists|j: int| 0 <= j < s.len() && s[j].0 == a) implies #[trigger] pairs_map(
            s,
        ).contains_key(a) by {
            let j = choose|j: int| 0 <= j < s.len() && s[j].0 == a;
            if j < s.len() - 1 {
                assert(p[j] == s[j]);
            }
        }
    }
}

/// With no key listed twice, every listed value is the one in the map.
pub proof fn lemma_pairs_map_value<K, V>(s: Seq<(K, V)>, j: int)
    requires
        keys_unique(s),
        0 <= j < s.len(),
    ensures
        pairs_map(s).contains_key(s[j].0),
        pairs_map(s)[s[j].0] == s[j].1,
    decreases s.len(),
{
    lemma_pairs_map_domain(s);
    if j < s.len() - 1 {
        let p = s.drop_last();
        assert(keys_unique(p)) by {
            assert forall|a: int, b: int| 0 <= a < b < p.len() implies p[a].0 != p[b].0 by {
                assert(p[a] == s[a] && p[b] == s[b]);
            }
        }
        assert(p[j] == s[j]);
        lemma_pairs_map_value(p, j);
        assert(s[j].0 != s[s.len() - 1].0);
    }
}

} // verus!
