//! Whether `String` keys obey the ordering laws that vstd's specification of
//! `BTreeMap` needs before it says what such a map holds.

use vstd::laws_cmp::obeys_cmp;
use vstd::prelude::*;
use vstd::std_specs::btree::key_obeys_cmp_spec;

verus! {

/// `String` keys obey their ordering laws (vstd states a `BTreeMap`'s
/// contents and iteration order only under this).
pub open spec fn string_keys_ordered() -> bool {
    obeys_cmp::<String>()
}

/// The map-key form of [`string_keys_ordered`].
pub proof fn lemma_string_keys_ordered()
    ensures
        string_keys_ordered() == key_obeys_cmp_spec::<String>(),
{
    broadcast use vstd::std_specs::btree::group_btree_axioms;
}

} // verus!
