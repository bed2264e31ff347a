use vstd::prelude::*;

verus! {

/// A 20-byte account identifier, as the host environment reports it for a
/// caller, a contract or a payee.
#[derive(Clone, Copy, Debug, Hash)]
pub struct Identity {
    pub bytes: [u8; 20],
}

impl PartialEq for Identity {
    fn eq(&self, other: &Identity) -> (r: bool) {
        let mut i: usize = 0;
        while i < 20
            invariant
                i <= 20,
                forall|k: int| 0 <= k < i ==> self.bytes[k] == other.bytes[k],
            decreases 20 - i,
        {
            if self.bytes[i] != other.bytes[i] {
                return false;
            }
            i += 1;
        }
        assert(self.bytes =~= other.bytes);
        true
    }
}

impl vstd::std_specs::cmp::PartialEqSpecImpl for Identity {
    open spec fn obeys_eq_spec() -> bool {
        true
    }

    open spec fn eq_spec(&self, other: &Identity) -> bool {
        *self == *other
    }
}

impl Eq for Identity {}

impl Identity {
    /// Whether this is the all-zero identifier, which stands for "nobody".
    pub open spec fn is_unset(self) -> bool {
        forall|i: int| 0 <= i < 20 ==> self.bytes[i] == 0u8
    }

    /// The all-zero identifier.
    pub fn unset() -> (r: Identity)
        ensures
            r.is_unset(),
    {
        Identity { bytes: [0u8; 20] }
    }

    /// Whether this is the all-zero identifier.
    pub fn is_default(&self) -> (r: bool)
        ensures
            r == self.is_unset(),
    {
        let zero = Identity::unset();
        proof {
            if self.is_unset() {
                assert(self.bytes =~= zero.bytes);
            }
        }
        *self == zero
    }
}

} // verus!
