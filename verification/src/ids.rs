//! Handles of the items behind controls.
use std::collections::hash_map::DefaultHasher;
use std::hash::Hasher;
use vstd::prelude::*;
use vstd::std_specs::hash::DefaultHasherAdditionalSpecFns;

verus! {

/// The handle of an item: the hash of the bytes of its component's address,
/// followed by those of its index in the component.
pub fn item_rc_as_id(address: &[u8], index: &[u8]) -> (r: u64)
    ensures
        r == DefaultHasher::spec_finish(seq![address@, index@]),
{
    let mut hasher: DefaultHasher = DefaultHasher::new();
    hasher.write(address);
    hasher.write(index);
    proof {
        assert(hasher@ =~= seq![address@, index@]);
    }
    hasher.finish()
}

} // verus!
