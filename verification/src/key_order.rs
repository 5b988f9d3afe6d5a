use vstd::prelude::*;
use std::collections::BTreeMap;
use vstd::std_specs::iter::IteratorSpec;
use vstd::std_specs::cmp::OrdSpec;

verus! {

/// `u64` keys follow the order model that the map specifications rely on.
pub proof fn lemma_u64_keys_ordered()
    ensures
        vstd::laws_cmp::obeys_cmp::<u64>(),
{
    broadcast use vstd::laws_cmp::group_laws_cmp;

}

proof fn lemma_increasing_keys(s: Seq<&u64>)
    requires
        vstd::std_specs::btree::increasing_seq(s),
    ensures
        forall|i: int, j: int| 0 <= i < j < s.len() ==> *s[i] < *s[j],
{
    broadcast use vstd::std_specs::btree::group_btree_axioms;
    broadcast use vstd::laws_cmp::group_laws_cmp;

    assert(vstd::laws_cmp::obeys_cmp::<u64>());
    assert(vstd::laws_cmp::obeys_cmp::<&u64>());
    assert forall|i: int, j: int| 0 <= i < j < s.len() implies *s[i] < *s[j] by {
        assert(OrdSpec::cmp_spec(&s[i], &s[j]) is Less);
    }
}

/// The keys of a map keyed by `u64`, in increasing order.
pub fn sorted_keys<V>(map: &BTreeMap<u64, V>) -> (keys: Vec<u64>)
    ensures
        keys@.to_set() == map@.dom(),
        forall|i: int, j: int| 0 <= i < j < keys@.len() ==> keys@[i] < keys@[j],
{
    broadcast use vstd::std_specs::btree::group_btree_axioms;

    let mut keys: Vec<u64> = Vec::new();
    let ghost all = map.keys().remaining();
    proof {
        lemma_increasing_keys(all);
    }
    for k in it: map.keys()
        invariant
            it.seq() == all,
            keys@ == all.take(it.index()).map_values(|r: &u64| *r),
    {
        keys.push(*k);
        assert(all.take(it.index() + 1) == all.take(it.index()).push(all[it.index()]));
    }
    assert(all.take(all.len() as int) == all);
    assert(keys@ =~= all.unref());
    keys
}

} // verus!
