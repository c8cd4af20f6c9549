use vstd::prelude::*;

verus! {

broadcast use vstd::array::group_array_axioms;

/// The identity of a participant: 32 opaque bytes.
#[derive(Debug, Clone, Copy)]
pub struct ActorId {
    pub bytes: [u8; 32],
}

impl ActorId {
    pub fn from_bytes(bytes: [u8; 32]) -> (r: ActorId)
        ensures
            r.bytes == bytes,
    {
        ActorId { bytes }
    }

    /// The all-zero identity.
    pub fn zero() -> (r: ActorId)
        ensures
            forall|i: int| 0 <= i < 32 ==> r.bytes@[i] == 0u8,
    {
        ActorId { bytes: [0u8; 32] }
    }
}

impl PartialEq for ActorId {
    fn eq(&self, o: &ActorId) -> (r: bool) {
        let mut i: usize = 0;
        while i < 32
            invariant
                0 <= i <= 32,
                forall|k: int| 0 <= k < i ==> self.bytes@[k] == o.bytes@[k],
            decreases 32 - i,
        {
            if self.bytes[i] != o.bytes[i] {
                assert(self.bytes@[i as int] != o.bytes@[i as int]);
                return false;
            }
            i = i + 1;
        }
        assert(self.bytes =~= o.bytes);
        true
    }
}

impl vstd::std_specs::cmp::PartialEqSpecImpl for ActorId {
    open spec fn obeys_eq_spec() -> bool {
        true
    }

    open spec fn eq_spec(&self, o: &ActorId) -> bool {
        *self == *o
    }
}

impl Eq for ActorId {

}

} // verus!
