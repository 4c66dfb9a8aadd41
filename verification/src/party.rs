//! Identities of the parties to a loan.

use vstd::prelude::*;
use vstd::std_specs::cmp::PartialEqSpecImpl;

verus! {

/// What stands behind an identity: an account held by a key, or a contract.
#[derive(Clone, Copy, PartialEq, Eq, Structural, Debug)]
pub enum PartyKind {
    Account,
    Contract,
}

/// A borrower, a lender or an asset, known by the kind of its address and the
/// 32 bytes of its key. Two parties are the same exactly when both agree.
#[derive(Clone, Copy, Debug)]
pub struct Party {
    pub kind: PartyKind,
    pub key: [u8; 32],
}

impl PartialEq for Party {
    fn eq(&self, other: &Self) -> (same: bool) {
        if self.kind != other.kind {
            return false;
        }
        let mut i: usize = 0;
        while i < 32
            invariant
                i <= 32,
                forall|j: int| 0 <= j < i ==> self.key[j] == other.key[j],
            decreases 32 - i,
        {
            if self.key[i] != other.key[i] {
                return false;
            }
            i += 1;
        }
        assert(self.key =~= other.key);
        true
    }
}

impl Eq for Party {

}

impl PartialEqSpecImpl for Party {
    open spec fn obeys_eq_spec() -> bool {
        true
    }

    open spec fn eq_spec(&self, other: &Self) -> bool {
        *self == *other
    }
}

} // verus!
