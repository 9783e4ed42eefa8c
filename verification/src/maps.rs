use std::collections::BTreeMap;
use vstd::prelude::*;
use vstd::std_specs::cmp::OrdSpec;
use vstd::std_specs::iter::IteratorSpec;

verus! {

/// Each element is smaller than every element after it.
pub open spec fn strictly_increasing(s: Seq<u128>) -> bool {
    forall|i: int, j: int| 0 <= i < j < s.len() ==> s[i] < s[j]
}

/// The keys of `m`, each once, smallest first.
pub fn sorted_keys<V>(m: &BTreeMap<u128, V>) -> (ks: Vec<u128>)
    ensures
        ks@.to_set() == m@.dom(),
        ks@.len() == m@.dom().len(),
        strictly_increasing(ks@),
{
    let mut ks: Vec<u128> = Vec::new();
    let ghost rem = vstd::std_specs::btree::spec_keys_iter(m).remaining();
    for k in it: m.keys()
        invariant
            it.seq() == rem,
            ks@ == it.seq().take(it.index()).map_values(|r: &u128| *r),
    {
        ks.push(*k);
    }
    proof {
        broadcast use vstd::std_specs::btree::axiom_spec_keys_iter;
        broadcast use vstd::std_specs::btree::axiom_increasing_seq_meaning;
        broadcast use vstd::laws_cmp::group_laws_cmp;
        assert(vstd::laws_cmp::obeys_cmp::<&u128>()) by {
            broadcast use vstd::laws_eq::group_laws_eq;
            reveal(vstd::laws_eq::obeys_eq_spec_properties);
            reveal(vstd::laws_cmp::obeys_partial_cmp_spec_properties);
            reveal(vstd::laws_cmp::obeys_cmp_partial_ord);
            reveal(vstd::laws_cmp::obeys_cmp_ord);
        }
        assert(ks@ =~= rem.unref());
        assert(strictly_increasing(ks@)) by {
            assert forall|i: int, j: int| 0 <= i < j < ks@.len() implies ks@[i] < ks@[j] by {
                assert(vstd::std_specs::btree::increasing_seq(rem));
                assert(OrdSpec::cmp_spec(&rem[i], &rem[j]) is Less);
            }
        }
    }

    ks
}

/// `BTreeMap::get_mut`: a mutable borrow of the value under `k` when the map
/// holds one, `None` otherwise; whatever is written through the borrow is what
/// the map holds under `k` afterwards, and nothing else changes. Stated for
/// keys whose `Ord` is a total order, as the map's own contracts are.
#[verifier::external_body]
pub fn btree_get_mut<K: Ord, V>(m: &mut BTreeMap<K, V>, k: K) -> (r: Option<&mut V>)
    ensures
        vstd::laws_cmp::obeys_cmp::<K>() ==> match r {
            Some(v) => {
                &&& old(m)@.contains_key(k)
                &&& *v == old(m)@[k]
                &&& final(m)@ == old(m)@.insert(k, *final(v))
            },
            None => !old(m)@.contains_key(k) && final(m)@ == old(m)@,
        },
{
    m.get_mut(&k)
}

} // verus!
