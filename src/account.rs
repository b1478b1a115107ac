//! Account identities and the authorization predicate over them.
use vstd::prelude::*;

verus! {

/// The identity of an account or contract, as the bytes of its address.
#[derive(Debug)]
pub struct AccountId {
    pub bytes: Vec<u8>,
}

impl View for AccountId {
    type V = Seq<u8>;

    open spec fn view(&self) -> Seq<u8> {
        self.bytes@
    }
}

impl Clone for AccountId {
    fn clone(&self) -> (r: AccountId)
        ensures
            r@ == self@,
    {
        AccountId { bytes: self.bytes.clone() }
    }
}

impl AccountId {
    pub fn new(bytes: Vec<u8>) -> (r: AccountId)
        ensures
            r@ == bytes@,
    {
        AccountId { bytes }
    }

    /// Whether two identities name the same account.
    pub fn same(&self, other: &AccountId) -> (r: bool)
        ensures
            r == (self@ == other@),
    {
        let n = self.bytes.len();
        if n != other.bytes.len() {
            return false;
        }
        let mut i: usize = 0;
        while i < n
            invariant
                n == self@.len(),
                n == other@.len(),
                i <= n,
                forall|j: int| 0 <= j < i ==> self@[j] == other@[j],
            decreases n - i,
        {
            if self.bytes[i] != other.bytes[i] {
                return false;
            }
            i = i + 1;
        }
        assert(self@ =~= other@);
        true
    }
}

/// The identities in a list of signers.
pub open spec fn ids(signers: Seq<AccountId>) -> Seq<Seq<u8>> {
    signers.map_values(|a: AccountId| a@)
}

/// An invocation carries proof of control over `who` when `who` is among its signers.
pub open spec fn signed_by(signers: Seq<Seq<u8>>, who: Seq<u8>) -> bool {
    signers.contains(who)
}

/// Whether the signers of an invocation include `who`.
pub fn is_authorized(signers: &Vec<AccountId>, who: &AccountId) -> (r: bool)
    ensures
        r == signed_by(ids(signers@), who@),
{
    let mut i: usize = 0;
    while i < signers.len()
        invariant
            i <= signers@.len(),
            forall|j: int| 0 <= j < i ==> signers@[j]@ != who@,
        decreases signers@.len() - i,
    {
        if signers[i].same(who) {
            assert(ids(signers@)[i as int] == who@);
            return true;
        }
        i = i + 1;
    }
    assert(!ids(signers@).contains(who@));
    false
}

} // verus!
