use vstd::prelude::*;
use vstd::std_specs::cmp::PartialEqSpecImpl;

verus! {

/// A 32-byte identifier: of a principal, of an asset or of an account.
#[derive(Clone, Copy, Debug)]
pub struct Key(pub [u8; 32]);

impl Key {
    /// The bytes of the identifier, first to last.
    pub open spec fn bytes(self) -> Seq<u8> {
        self.0@
    }

    /// The identifier made of the given bytes.
    pub fn new(bytes: [u8; 32]) -> (k: Key)
        ensures
            k.0 == bytes,
    {
        Key(bytes)
    }

    /// The bytes of the identifier.
    pub fn to_bytes(&self) -> (bytes: [u8; 32])
        ensures
            bytes == self.0,
    {
        self.0
    }
}

impl PartialEq for Key {
    fn eq(&self, other: &Key) -> (r: bool) {
        let mut i: usize = 0;
        while i < 32
            invariant
                i <= 32,
                forall|j: int| 0 <= j < i ==> self.0@[j] == other.0@[j],
            decreases 32 - i,
        {
            if self.0[i] != other.0[i] {
                return false;
            }
            i = i + 1;
        }
        assert(self.0 =~= other.0);
        true
    }
}

impl Eq for Key {

}

impl PartialEqSpecImpl for Key {
    open spec fn obeys_eq_spec() -> bool {
        true
    }

    open spec fn eq_spec(&self, other: &Key) -> bool {
        *self == *other
    }
}

} // verus!
