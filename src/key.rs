use vstd::prelude::*;

verus! {

broadcast use vstd::array::group_array_axioms;

/// A 32-byte public key: the identity of a signer, or the address of a record.
#[derive(Clone, Copy, Debug, PartialEq, Eq, Hash)]
pub struct Key {
    pub bytes: [u8; 32],
}

impl Key {
    /// The key holding the given bytes.
    pub fn new(bytes: [u8; 32]) -> (k: Key)
        ensures
            k.bytes == bytes,
    {
        Key { bytes }
    }

    /// The bytes of the key.
    pub fn to_bytes(&self) -> (b: [u8; 32])
        ensures
            b == self.bytes,
    {
        self.bytes
    }

    /// Whether two keys hold the same bytes.
    pub fn same_as(&self, other: &Key) -> (r: bool)
        ensures
            r == (*self == *other),
            r == (self.bytes@ == other.bytes@),
    {
        let mut i: usize = 0;
        while i < 32
            invariant
                0 <= i <= 32,
                forall|j: int| 0 <= j < i ==> self.bytes@[j] == other.bytes@[j],
            decreases 32 - i,
        {
            if self.bytes[i] != other.bytes[i] {
                return false;
            }
            i = i + 1;
        }
        proof {
            assert(self.bytes =~= other.bytes);
        }
        true
    }
}

} // verus!
