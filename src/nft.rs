//! A reputation NFT: one record per user holding a score and a hash of the
//! user's remittance history, written only by the admin or by accounts the
//! admin has authorized as minters.
use vstd::prelude::*;
use crate::account::{ids, is_authorized, signed_by, AccountId};
use crate::store::AccountMap;

verus! {

/// A user's NFT: reputation score and history hash.
#[derive(Debug, Clone, Copy)]
pub struct RemittanceMetadata {
    pub score: u32,
    pub history_hash: [u8; 32],
}

/// Why an NFT operation was refused. A refused operation changes nothing.
#[derive(Debug, Clone, Copy, PartialEq, Eq, Structural)]
pub enum NftError {
    /// An admin is already set.
    AlreadyInitialized,
    /// No admin is set yet.
    NotInitialized,
    /// The call needed the admin's signature and does not carry it.
    Unauthorized,
    /// The user already has an NFT.
    AlreadyMinted,
    /// The user has no NFT.
    NotMinted,
    /// The new score does not fit in a `u32`.
    ScoreOverflow,
}

/// The abstract state of the NFT contract: its admin once set, the minter
/// entries, and each user's NFT.
pub struct NftState {
    pub admin: Option<Seq<u8>>,
    pub minters: Map<Seq<u8>, bool>,
    pub metadata: Map<Seq<u8>, RemittanceMetadata>,
}

/// Whether `m` is listed as a minter; an unlisted account is not.
pub open spec fn minter_flag(minters: Map<Seq<u8>, bool>, m: Seq<u8>) -> bool {
    minters.contains_key(m) && minters[m]
}

/// A write on behalf of `caller` stands when the caller is a listed minter,
/// is the admin, or the call carries the admin's signature.
pub open spec fn may_write(s: NftState, signers: Seq<Seq<u8>>, caller: Seq<u8>) -> bool {
    minter_flag(s.minters, caller) || caller == s.admin->0 || signed_by(signers, s.admin->0)
}

/// Score points earned by a repayment: one per hundred units, the quotient
/// rounded toward zero and then taken modulo 2^32.
pub open spec fn points_for(repayment: int) -> u32 {
    (if repayment >= 0 { repayment / 100 } else { -((-repayment) / 100) }) as u32
}

/// Initialization: the admin is set, once, and listed as a minter.
pub open spec fn initialize_step(s: NftState, admin: Seq<u8>) -> Result<NftState, NftError> {
    if s.admin is Some {
        Err(NftError::AlreadyInitialized)
    } else {
        Ok(NftState { admin: Some(admin), minters: s.minters.insert(admin, true), ..s })
    }
}

/// Sets (`allow`) or removes the minter entry of `m`, on the admin's signature.
pub open spec fn minter_step(s: NftState, signers: Seq<Seq<u8>>, m: Seq<u8>, allow: bool) -> Result<
    NftState,
    NftError,
> {
    if s.admin is None {
        Err(NftError::NotInitialized)
    } else if !signed_by(signers, s.admin->0) {
        Err(NftError::Unauthorized)
    } else if allow {
        Ok(NftState { minters: s.minters.insert(m, true), ..s })
    } else {
        Ok(NftState { minters: s.minters.remove(m), ..s })
    }
}

/// Minting: a user without an NFT receives `meta`.
pub open spec fn mint_step(
    s: NftState,
    signers: Seq<Seq<u8>>,
    caller: Seq<u8>,
    user: Seq<u8>,
    meta: RemittanceMetadata,
) -> Result<NftState, NftError> {
    if s.admin is None {
        Err(NftError::NotInitialized)
    } else if !may_write(s, signers, caller) {
        Err(NftError::Unauthorized)
    } else if s.metadata.contains_key(user) {
        Err(NftError::AlreadyMinted)
    } else {
        Ok(NftState { metadata: s.metadata.insert(user, meta), ..s })
    }
}

/// Score update: the points earned by `repayment` are added, unless the sum
/// overflows a `u32`.
pub open spec fn update_score_step(
    s: NftState,
    signers: Seq<Seq<u8>>,
    caller: Seq<u8>,
    user: Seq<u8>,
    repayment: int,
) -> Result<NftState, NftError> {
    if s.admin is None {
        Err(NftError::NotInitialized)
    } else if !may_write(s, signers, caller) {
        Err(NftError::Unauthorized)
    } else if !s.metadata.contains_key(user) {
        Err(NftError::NotMinted)
    } else if s.metadata[user].score + points_for(repayment) > u32::MAX {
        Err(NftError::ScoreOverflow)
    } else {
        let m = s.metadata[user];
        Ok(
            NftState {
                metadata: s.metadata.insert(
                    user,
                    RemittanceMetadata { score: (m.score + points_for(repayment)) as u32, ..m },
                ),
                ..s
            },
        )
    }
}

/// History update: the hash is replaced, the score kept.
pub open spec fn update_history_step(
    s: NftState,
    signers: Seq<Seq<u8>>,
    caller: Seq<u8>,
    user: Seq<u8>,
    hash: [u8; 32],
) -> Result<NftState, NftError> {
    if s.admin is None {
        Err(NftError::NotInitialized)
    } else if !may_write(s, signers, caller) {
        Err(NftError::Unauthorized)
    } else if !s.metadata.contains_key(user) {
        Err(NftError::NotMinted)
    } else {
        let m = s.metadata[user];
        Ok(
            NftState {
                metadata: s.metadata.insert(user, RemittanceMetadata { history_hash: hash, ..m }),
                ..s
            },
        )
    }
}

/// The state of the NFT contract.
pub struct RemittanceNFT {
    admin: Option<AccountId>,
    minters: AccountMap<bool>,
    metadata: AccountMap<RemittanceMetadata>,
}

impl View for RemittanceNFT {
    type V = NftState;

    closed spec fn view(&self) -> NftState {
        NftState {
            admin: match self.admin {
                Some(a) => Some(a@),
                None => None,
            },
            minters: self.minters@,
            metadata: self.metadata@,
        }
    }
}

impl RemittanceNFT {
    /// Both stores are well formed.
    pub closed spec fn wf(&self) -> bool {
        self.minters.wf() && self.metadata.wf()
    }

    /// A contract with no admin, no minters and no NFTs.
    pub fn new() -> (r: RemittanceNFT)
        ensures
            r.wf(),
            r@.admin is None,
            r@.minters == Map::<Seq<u8>, bool>::empty(),
            r@.metadata == Map::<Seq<u8>, RemittanceMetadata>::empty(),
    {
        RemittanceNFT { admin: None, minters: AccountMap::new(), metadata: AccountMap::new() }
    }

    /// A contract rebuilt from persisted state: its admin if set, the
    /// accounts listed as minters, and the NFT of one user if there is one.
    pub fn restore(
        admin: Option<AccountId>,
        minters: &Vec<AccountId>,
        user: &AccountId,
        metadata: Option<RemittanceMetadata>,
    ) -> (r: RemittanceNFT)
        ensures
            r.wf(),
            r@.admin == match admin {
                Some(a) => Some(a@),
                None => None::<Seq<u8>>,
            },
            forall|k: Seq<u8>| #[trigger] r@.minters.contains_key(k) == ids(minters@).contains(k),
            forall|k: Seq<u8>| #[trigger] r@.minters.contains_key(k) ==> r@.minters[k],
            r@.metadata == match metadata {
                Some(m) => Map::<Seq<u8>, RemittanceMetadata>::empty().insert(user@, m),
                None => Map::<Seq<u8>, RemittanceMetadata>::empty(),
            },
    {
        let mut listed: AccountMap<bool> = AccountMap::new();
        let mut i: usize = 0;
        while i < minters.len()
            invariant
                listed.wf(),
                i <= minters@.len(),
                forall|k: Seq<u8>| #[trigger] listed@.contains_key(k) == ids(minters@.take(i as int)).contains(k),
                forall|k: Seq<u8>| #[trigger] listed@.contains_key(k) ==> listed@[k],
            decreases minters@.len() - i,
        {
            listed.set(&minters[i], true);
            proof {
                let before = ids(minters@.take(i as int));
                let after = ids(minters@.take(i + 1));
                assert(minters@.take(i + 1) =~= minters@.take(i as int).push(minters@[i as int]));
                assert(after =~= before.push(minters@[i as int]@));
                assert forall|k: Seq<u8>| #[trigger] listed@.contains_key(k) == after.contains(k) by {
                    if k == minters@[i as int]@ {
                        assert(after[i as int] == k);
                    } else {
                        if before.contains(k) {
                            let j = choose|j: int| 0 <= j < before.len() && before[j] == k;
                            assert(after[j] == k);
                        }
                        if after.contains(k) {
                            let j = choose|j: int| 0 <= j < after.len() && after[j] == k;
                            assert(before[j] == k);
                        }
                    }
                }
            }
            i = i + 1;
        }
        assert(minters@.take(i as int) =~= minters@);
        let mut metadata_map: AccountMap<RemittanceMetadata> = AccountMap::new();
        if let Some(m) = metadata {
            metadata_map.set(user, m);
        }
        let r = RemittanceNFT { admin, minters: listed, metadata: metadata_map };
        assert(r@.metadata =~= match metadata {
            Some(m) => Map::<Seq<u8>, RemittanceMetadata>::empty().insert(user@, m),
            None => Map::<Seq<u8>, RemittanceMetadata>::empty(),
        });
        r
    }

    /// Sets the admin, who is listed as a minter too; allowed once.
    pub fn initialize(&mut self, admin: &AccountId) -> (r: Result<(), NftError>)
        requires
            old(self).wf(),
        ensures
            final(self).wf(),
            match initialize_step(old(self)@, admin@) {
                Ok(s) => r is Ok && final(self)@ == s,
                Err(e) => r == Err::<(), NftError>(e) && final(self)@ == old(self)@,
            },
    {
        if self.admin.is_some() {
            return Err(NftError::AlreadyInitialized);
        }
        self.admin = Some(admin.clone());
        self.minters.set(admin, true);
        Ok(())
    }

    /// The admin, when the call carries the admin's signature.
    fn signed_admin(&self, signers: &Vec<AccountId>) -> (r: Result<AccountId, NftError>)
        ensures
            match r {
                Ok(a) => self@.admin == Some(a@) && signed_by(ids(signers@), a@),
                Err(e) => (self@.admin is None && e == NftError::NotInitialized) || (
                self@.admin is Some && !signed_by(ids(signers@), self@.admin->0) && e
                    == NftError::Unauthorized),
            },
    {
        match &self.admin {
            None => Err(NftError::NotInitialized),
            Some(a) => if is_authorized(signers, a) {
                Ok(a.clone())
            } else {
                Err(NftError::Unauthorized)
            },
        }
    }

    /// Lists `minter` as allowed to mint and update NFTs; needs the admin's signature.
    pub fn authorize_minter(&mut self, signers: &Vec<AccountId>, minter: &AccountId) -> (r: Result<
        (),
        NftError,
    >)
        requires
            old(self).wf(),
        ensures
            final(self).wf(),
            match minter_step(old(self)@, ids(signers@), minter@, true) {
                Ok(s) => r is Ok && final(self)@ == s,
                Err(e) => r == Err::<(), NftError>(e) && final(self)@ == old(self)@,
            },
    {
        match self.signed_admin(signers) {
            Err(e) => Err(e),
            Ok(_) => {
                self.minters.set(minter, true);
                Ok(())
            },
        }
    }

    /// Removes `minter` from the list; needs the admin's signature.
    pub fn revoke_minter(&mut self, signers: &Vec<AccountId>, minter: &AccountId) -> (r: Result<
        (),
        NftError,
    >)
        requires
            old(self).wf(),
        ensures
            final(self).wf(),
            match minter_step(old(self)@, ids(signers@), minter@, false) {
                Ok(s) => r is Ok && final(self)@ == s,
                Err(e) => r == Err::<(), NftError>(e) && final(self)@ == old(self)@,
            },
    {
        match self.signed_admin(signers) {
            Err(e) => Err(e),
            Ok(_) => {
                self.minters.remove(minter);
                Ok(())
            },
        }
    }

    /// Whether `minter` is listed as a minter.
    pub fn is_authorized_minter(&self, minter: &AccountId) -> (r: bool)
        requires
            self.wf(),
        ensures
            r == minter_flag(self@.minters, minter@),
    {
        match self.minters.get(minter) {
            Some(flag) => flag,
            None => false,
        }
    }

    /// Whether a write by `caller` stands, when an admin is set.
    fn check_writer(&self, signers: &Vec<AccountId>, caller: &AccountId) -> (r: Result<(), NftError>)
        requires
            self.wf(),
        ensures
            match r {
                Ok(_) => self@.admin is Some && may_write(self@, ids(signers@), caller@),
                Err(e) => (self@.admin is None && e == NftError::NotInitialized) || (
                self@.admin is Some && !may_write(self@, ids(signers@), caller@) && e
                    == NftError::Unauthorized),
            },
    {
        let listed = self.is_authorized_minter(caller);
        match &self.admin {
            None => Err(NftError::NotInitialized),
            Some(a) => if listed || caller.same(a) || is_authorized(signers, a) {
                Ok(())
            } else {
                Err(NftError::Unauthorized)
            },
        }
    }

    /// Gives `user` an NFT with the given score and history hash, on behalf
    /// of `caller`. A user holds at most one.
    pub fn mint(
        &mut self,
        signers: &Vec<AccountId>,
        caller: &AccountId,
        user: &AccountId,
        initial_score: u32,
        history_hash: [u8; 32],
    ) -> (r: Result<(), NftError>)
        requires
            old(self).wf(),
        ensures
            final(self).wf(),
            match mint_step(
                old(self)@,
                ids(signers@),
                caller@,
                user@,
                RemittanceMetadata { score: initial_score, history_hash },
            ) {
                Ok(s) => r is Ok && final(self)@ == s,
                Err(e) => r == Err::<(), NftError>(e) && final(self)@ == old(self)@,
            },
    {
        if let Err(e) = self.check_writer(signers, caller) {
            return Err(e);
        }
        if self.metadata.contains_key(user) {
            return Err(NftError::AlreadyMinted);
        }
        self.metadata.set(user, RemittanceMetadata { score: initial_score, history_hash });
        Ok(())
    }

    /// The NFT of `user`, if any.
    pub fn get_metadata(&self, user: &AccountId) -> (r: Option<RemittanceMetadata>)
        requires
            self.wf(),
        ensures
            r == (if self@.metadata.contains_key(user@) {
                Some(self@.metadata[user@])
            } else {
                None::<RemittanceMetadata>
            }),
    {
        self.metadata.get(user)
    }

    /// The score of `user`; zero when the user has no NFT.
    pub fn get_score(&self, user: &AccountId) -> (r: u32)
        requires
            self.wf(),
        ensures
            r == (if self@.metadata.contains_key(user@) { self@.metadata[user@].score } else { 0 }),
    {
        match self.metadata.get(user) {
            Some(m) => m.score,
            None => 0,
        }
    }

    /// Adds the points earned by a repayment of `repayment_amount` to the
    /// score of `user`, on behalf of `caller`.
    pub fn update_score(
        &mut self,
        signers: &Vec<AccountId>,
        caller: &AccountId,
        user: &AccountId,
        repayment_amount: i128,
    ) -> (r: Result<(), NftError>)
        requires
            old(self).wf(),
        ensures
            final(self).wf(),
            match update_score_step(old(self)@, ids(signers@), caller@, user@, repayment_amount as int) {
                Ok(s) => r is Ok && final(self)@ == s,
                Err(e) => r == Err::<(), NftError>(e) && final(self)@ == old(self)@,
            },
    {
        if let Err(e) = self.check_writer(signers, caller) {
            return Err(e);
        }
        let m = match self.metadata.get(user) {
            Some(m) => m,
            None => return Err(NftError::NotMinted),
        };
        let points = (repayment_amount / 100) as u32;
        match m.score.checked_add(points) {
            None => Err(NftError::ScoreOverflow),
            Some(score) => {
                self.metadata.set(user, RemittanceMetadata { score, history_hash: m.history_hash });
                Ok(())
            },
        }
    }

    /// Replaces the history hash of `user`'s NFT, on behalf of `caller`.
    pub fn update_history_hash(
        &mut self,
        signers: &Vec<AccountId>,
        caller: &AccountId,
        user: &AccountId,
        new_history_hash: [u8; 32],
    ) -> (r: Result<(), NftError>)
        requires
            old(self).wf(),
        ensures
            final(self).wf(),
            match update_history_step(old(self)@, ids(signers@), caller@, user@, new_history_hash) {
                Ok(s) => r is Ok && final(self)@ == s,
                Err(e) => r == Err::<(), NftError>(e) && final(self)@ == old(self)@,
            },
    {
        if let Err(e) = self.check_writer(signers, caller) {
            return Err(e);
        }
        let m = match self.metadata.get(user) {
            Some(m) => m,
            None => return Err(NftError::NotMinted),
        };
        self.metadata.set(user, RemittanceMetadata { score: m.score, history_hash: new_history_hash });
        Ok(())
    }
}

} // verus!
