//! The deposit ledger of a lending pool.
//!
//! The pool credits each depositor with what they paid in and lets them take
//! it back, never more than their own record and never more than the pool's
//! live token balance. Each operation is first stated as a transition over
//! [`PoolState`]; the executable methods are proved to follow it.
use vstd::prelude::*;
use crate::account::{ids, is_authorized, signed_by, AccountId};
use crate::store::AccountMap;

verus! {

/// Why a pool operation was refused. A refused operation changes nothing.
#[derive(Debug, Clone, Copy, PartialEq, Eq, Structural)]
pub enum PoolError {
    /// The pool already has its token.
    AlreadyInitialized,
    /// The pool has no token yet.
    NotInitialized,
    /// The amount is zero or negative.
    InvalidAmount,
    /// The withdrawal exceeds the depositor's record.
    InsufficientBalance,
    /// The withdrawal exceeds the tokens the pool holds.
    InsufficientLiquidity,
    /// The call carries no proof of control over the depositor.
    Unauthorized,
}

/// A movement of `amount` units of `token` from `from` to `to`, which the
/// host must carry out for the operation that asked for it to stand.
#[derive(Debug)]
pub struct Transfer {
    pub token: AccountId,
    pub from: AccountId,
    pub to: AccountId,
    pub amount: i128,
}

/// A transfer as plain values.
pub struct TransferView {
    pub token: Seq<u8>,
    pub from: Seq<u8>,
    pub to: Seq<u8>,
    pub amount: int,
}

impl View for Transfer {
    type V = TransferView;

    open spec fn view(&self) -> TransferView {
        TransferView { token: self.token@, from: self.from@, to: self.to@, amount: self.amount as int }
    }
}

/// The abstract state of a pool: its own account, its token once set, and
/// each depositor's record.
pub struct PoolState {
    pub pool: Seq<u8>,
    pub token: Option<Seq<u8>>,
    pub deposits: Map<Seq<u8>, int>,
}

/// A depositor's record; an account without one has a record of zero.
pub open spec fn record(deposits: Map<Seq<u8>, int>, d: Seq<u8>) -> int {
    if deposits.contains_key(d) { deposits[d] } else { 0 }
}

/// No record is negative.
pub open spec fn records_valid(s: PoolState) -> bool {
    forall|k: Seq<u8>| #[trigger] s.deposits.contains_key(k) ==> s.deposits[k] >= 0
}

/// Initialization: the token is set, once.
pub open spec fn initialize_step(s: PoolState, token: Seq<u8>) -> Result<PoolState, PoolError> {
    if s.token is Some {
        Err(PoolError::AlreadyInitialized)
    } else {
        Ok(PoolState { token: Some(token), ..s })
    }
}

/// Deposit: the record grows by `amount`, and `amount` moves from the
/// depositor to the pool.
pub open spec fn deposit_step(s: PoolState, signed: bool, d: Seq<u8>, amount: int) -> Result<
    (PoolState, TransferView),
    PoolError,
> {
    if amount <= 0 {
        Err(PoolError::InvalidAmount)
    } else if !signed {
        Err(PoolError::Unauthorized)
    } else if s.token is None {
        Err(PoolError::NotInitialized)
    } else {
        Ok(
            (
                PoolState { deposits: s.deposits.insert(d, record(s.deposits, d) + amount), ..s },
                TransferView { token: s.token->0, from: d, to: s.pool, amount },
            ),
        )
    }
}

/// Withdrawal against the pool's live token balance `liquidity`: the record
/// shrinks by `amount`, and `amount` moves from the pool to the depositor.
pub open spec fn withdraw_step(
    s: PoolState,
    signed: bool,
    d: Seq<u8>,
    amount: int,
    liquidity: int,
) -> Result<(PoolState, TransferView), PoolError> {
    if amount <= 0 {
        Err(PoolError::InvalidAmount)
    } else if !signed {
        Err(PoolError::Unauthorized)
    } else if s.token is None {
        Err(PoolError::NotInitialized)
    } else if record(s.deposits, d) < amount {
        Err(PoolError::InsufficientBalance)
    } else if liquidity < amount {
        Err(PoolError::InsufficientLiquidity)
    } else {
        Ok(
            (
                PoolState { deposits: s.deposits.insert(d, record(s.deposits, d) - amount), ..s },
                TransferView { token: s.token->0, from: s.pool, to: d, amount },
            ),
        )
    }
}

/// One call made on a single depositor's behalf, with what the host supplied
/// to it: whether the depositor signed, and for a withdrawal the pool's live
/// token balance.
pub enum PoolEvent {
    Deposit { signed: bool, amount: int },
    Withdraw { signed: bool, amount: int, liquidity: int },
}

/// The outcome of one event on depositor `d`.
pub open spec fn event_result(s: PoolState, d: Seq<u8>, e: PoolEvent) -> Result<
    (PoolState, TransferView),
    PoolError,
> {
    match e {
        PoolEvent::Deposit { signed, amount } => deposit_step(s, signed, d, amount),
        PoolEvent::Withdraw { signed, amount, liquidity } => withdraw_step(
            s,
            signed,
            d,
            amount,
            liquidity,
        ),
    }
}

/// The state after an event: the new state if it succeeded, else the old one.
pub open spec fn after_event(s: PoolState, d: Seq<u8>, e: PoolEvent) -> PoolState {
    match event_result(s, d, e) {
        Ok((s2, _)) => s2,
        Err(_) => s,
    }
}

/// The state after a sequence of events on depositor `d`.
pub open spec fn run(s: PoolState, d: Seq<u8>, evs: Seq<PoolEvent>) -> PoolState
    decreases evs.len(),
{
    if evs.len() == 0 {
        s
    } else {
        after_event(run(s, d, evs.drop_last()), d, evs.last())
    }
}

/// The sum of the amounts of the deposits among `evs` that succeeded.
pub open spec fn deposited(s: PoolState, d: Seq<u8>, evs: Seq<PoolEvent>) -> int
    decreases evs.len(),
{
    if evs.len() == 0 {
        0
    } else {
        let prev = run(s, d, evs.drop_last());
        let here = match evs.last() {
            PoolEvent::Deposit { amount, .. } => if event_result(prev, d, evs.last()) is Ok {
                amount
            } else {
                0
            },
            PoolEvent::Withdraw { .. } => 0,
        };
        deposited(s, d, evs.drop_last()) + here
    }
}

/// The sum of the amounts of the withdrawals among `evs` that succeeded.
pub open spec fn withdrawn(s: PoolState, d: Seq<u8>, evs: Seq<PoolEvent>) -> int
    decreases evs.len(),
{
    if evs.len() == 0 {
        0
    } else {
        let prev = run(s, d, evs.drop_last());
        let here = match evs.last() {
            PoolEvent::Withdraw { amount, .. } => if event_result(prev, d, evs.last()) is Ok {
                amount
            } else {
                0
            },
            PoolEvent::Deposit { .. } => 0,
        };
        withdrawn(s, d, evs.drop_last()) + here
    }
}

/// After any sequence of deposits and withdrawals on one depositor, their
/// record is what it was, plus what was deposited, minus what was withdrawn
/// by the calls that succeeded; every other record is untouched.
pub proof fn lemma_record_is_net_of_calls(s: PoolState, d: Seq<u8>, evs: Seq<PoolEvent>)
    ensures
        record(run(s, d, evs).deposits, d) == record(s.deposits, d) + deposited(s, d, evs)
            - withdrawn(s, d, evs),
        forall|x: Seq<u8>| x != d ==> record(#[trigger] run(s, d, evs).deposits, x) == record(s.deposits, x),
    decreases evs.len(),
{
    if evs.len() > 0 {
        lemma_record_is_net_of_calls(s, d, evs.drop_last());
    }
}

/// No sequence of calls drives a record below zero.
pub proof fn lemma_records_stay_valid(s: PoolState, d: Seq<u8>, evs: Seq<PoolEvent>)
    requires
        records_valid(s),
    ensures
        records_valid(run(s, d, evs)),
        record(run(s, d, evs).deposits, d) >= 0,
    decreases evs.len(),
{
    if evs.len() > 0 {
        lemma_records_stay_valid(s, d, evs.drop_last());
        let prev = run(s, d, evs.drop_last());
        let next = run(s, d, evs);
        assert forall|k: Seq<u8>| #[trigger] next.deposits.contains_key(k) implies next.deposits[k] >= 0 by {
            if k != d {
                assert(prev.deposits.contains_key(k));
            }
        }
    }
}

/// An account's token balance; an account never credited holds zero.
pub open spec fn balance(b: Map<Seq<u8>, int>, a: Seq<u8>) -> int {
    if b.contains_key(a) { b[a] } else { 0 }
}

/// Token balances after a transfer has been carried out.
pub open spec fn after_transfer(b: Map<Seq<u8>, int>, t: TransferView) -> Map<Seq<u8>, int> {
    let b1 = b.insert(t.from, balance(b, t.from) - t.amount);
    b1.insert(t.to, balance(b1, t.to) + t.amount)
}

/// A deposit of `n` followed by a withdrawal of `n`, with the pool's balance
/// untouched in between, succeeds and restores every record and every token
/// balance.
pub proof fn lemma_round_trip(s: PoolState, d: Seq<u8>, n: int, b: Map<Seq<u8>, int>)
    requires
        records_valid(s),
        deposit_step(s, true, d, n) is Ok,
        balance(b, d) >= n,
        balance(b, s.pool) >= 0,
    ensures
        ({
            let (s1, t1) = deposit_step(s, true, d, n)->Ok_0;
            let b1 = after_transfer(b, t1);
            let w = withdraw_step(s1, true, d, n, balance(b1, s.pool));
            &&& w is Ok
            &&& forall|x: Seq<u8>| #[trigger] record(w->Ok_0.0.deposits, x) == record(s.deposits, x)
            &&& forall|x: Seq<u8>| #[trigger] balance(after_transfer(b1, w->Ok_0.1), x) == balance(b, x)
        }),
{
    let (s1, t1) = deposit_step(s, true, d, n)->Ok_0;
    let b1 = after_transfer(b, t1);
    assert(balance(b1, s.pool) >= n);
    let w = withdraw_step(s1, true, d, n, balance(b1, s.pool));
    assert(w is Ok);
    let (s2, t2) = w->Ok_0;
    assert(t2.from == t1.to && t2.to == t1.from && t2.amount == t1.amount);
    assert forall|x: Seq<u8>| #[trigger] record(s2.deposits, x) == record(s.deposits, x) by {}
    assert forall|x: Seq<u8>| #[trigger] balance(after_transfer(b1, t2), x) == balance(b, x) by {}
}

/// A deposit or withdrawal of zero or less is refused as an invalid amount.
pub proof fn lemma_non_positive_amount_rejected(
    s: PoolState,
    signed: bool,
    d: Seq<u8>,
    amount: int,
    liquidity: int,
)
    requires
        amount <= 0,
    ensures
        deposit_step(s, signed, d, amount) == Err::<(PoolState, TransferView), PoolError>(
            PoolError::InvalidAmount,
        ),
        withdraw_step(s, signed, d, amount, liquidity) == Err::<(PoolState, TransferView), PoolError>(
            PoolError::InvalidAmount,
        ),
{
}

/// A signed withdrawal of more than the depositor's record is refused for
/// want of balance, whatever the pool holds.
pub proof fn lemma_overdraw_rejected(s: PoolState, d: Seq<u8>, amount: int, liquidity: int)
    requires
        records_valid(s),
        s.token is Some,
        amount > record(s.deposits, d),
    ensures
        withdraw_step(s, true, d, amount, liquidity) == Err::<(PoolState, TransferView), PoolError>(
            PoolError::InsufficientBalance,
        ),
{
}

/// A signed withdrawal that the record covers but the pool's live balance
/// does not is refused for want of liquidity.
pub proof fn lemma_illiquid_pool_rejected(s: PoolState, d: Seq<u8>, amount: int, liquidity: int)
    requires
        s.token is Some,
        0 < amount <= record(s.deposits, d),
        liquidity < amount,
    ensures
        withdraw_step(s, true, d, amount, liquidity) == Err::<(PoolState, TransferView), PoolError>(
            PoolError::InsufficientLiquidity,
        ),
{
}

/// A call with a positive amount that the depositor did not sign is refused
/// as unauthorized; a refused call leaves the pool as it was.
pub proof fn lemma_unsigned_call_rejected(s: PoolState, d: Seq<u8>, amount: int, liquidity: int)
    requires
        amount > 0,
    ensures
        deposit_step(s, false, d, amount) == Err::<(PoolState, TransferView), PoolError>(
            PoolError::Unauthorized,
        ),
        withdraw_step(s, false, d, amount, liquidity) == Err::<(PoolState, TransferView), PoolError>(
            PoolError::Unauthorized,
        ),
{
}

/// A lending pool's ledger.
pub struct LendingPool {
    pool: AccountId,
    token: Option<AccountId>,
    deposits: AccountMap<i128>,
}

impl View for LendingPool {
    type V = PoolState;

    closed spec fn view(&self) -> PoolState {
        PoolState {
            pool: self.pool@,
            token: match self.token {
                Some(t) => Some(t@),
                None => None,
            },
            deposits: self.deposits@.map_values(|v: i128| v as int),
        }
    }
}

impl LendingPool {
    /// The store is well formed and no record is negative.
    pub closed spec fn wf(&self) -> bool {
        &&& self.deposits.wf()
        &&& records_valid(self@)
    }

    /// A pool whose own account is `pool`, with no token and no records.
    pub fn new(pool: AccountId) -> (r: LendingPool)
        ensures
            r.wf(),
            r@.pool == pool@,
            r@.token is None,
            r@.deposits == Map::<Seq<u8>, int>::empty(),
    {
        let r = LendingPool { pool, token: None, deposits: AccountMap::new() };
        assert(r@.deposits =~= Map::<Seq<u8>, int>::empty());
        r
    }

    /// A pool rebuilt from persisted state: its account, its token if set,
    /// and the stored record of one depositor. A negative record is refused.
    pub fn restore(pool: AccountId, token: Option<AccountId>, depositor: &AccountId, amount: i128) -> (r:
        Option<LendingPool>)
        ensures
            match r {
                Some(p) => {
                    &&& amount >= 0
                    &&& p.wf()
                    &&& p@.pool == pool@
                    &&& p@.token == match token {
                        Some(t) => Some(t@),
                        None => None::<Seq<u8>>,
                    }
                    &&& p@.deposits == Map::<Seq<u8>, int>::empty().insert(depositor@, amount as int)
                },
                None => amount < 0,
            },
    {
        if amount < 0 {
            return None;
        }
        let mut deposits = AccountMap::new();
        deposits.set(depositor, amount);
        let p = LendingPool { pool, token, deposits };
        assert(p@.deposits =~= Map::<Seq<u8>, int>::empty().insert(depositor@, amount as int));
        Some(p)
    }

    /// Sets the token the pool accepts; allowed once.
    pub fn initialize(&mut self, token: &AccountId) -> (r: Result<(), PoolError>)
        requires
            old(self).wf(),
        ensures
            final(self).wf(),
            match initialize_step(old(self)@, token@) {
                Ok(s) => r is Ok && final(self)@ == s,
                Err(e) => r == Err::<(), PoolError>(e) && final(self)@ == old(self)@,
            },
    {
        if self.token.is_some() {
            return Err(PoolError::AlreadyInitialized);
        }
        self.token = Some(token.clone());
        Ok(())
    }

    fn record_of(&self, d: &AccountId) -> (r: i128)
        requires
            self.wf(),
        ensures
            r == record(self@.deposits, d@),
            r >= 0,
    {
        match self.deposits.get(d) {
            Some(v) => {
                assert(self@.deposits.contains_key(d@));
                v
            },
            None => 0,
        }
    }

    /// Stores `v` as the record of `d`.
    fn put_record(&mut self, d: &AccountId, v: i128)
        requires
            old(self).wf(),
            v >= 0,
        ensures
            final(self).wf(),
            final(self)@ == (PoolState {
                deposits: old(self)@.deposits.insert(d@, v as int),
                ..old(self)@
            }),
    {
        self.deposits.set(d, v);
        assert(self@.deposits =~= old(self)@.deposits.insert(d@, v as int));
    }

    /// Credits `amount` to `depositor`, who must have signed the call.
    /// On success the returned transfer, from the depositor to the pool, is
    /// owed by the host; if it fails the whole call is to be discarded.
    pub fn deposit(&mut self, signers: &Vec<AccountId>, depositor: &AccountId, amount: i128) -> (r:
        Result<Transfer, PoolError>)
        requires
            old(self).wf(),
            record(old(self)@.deposits, depositor@) + amount <= i128::MAX,
        ensures
            final(self).wf(),
            match (deposit_step(old(self)@, signed_by(ids(signers@), depositor@), depositor@, amount as int), r) {
                (Ok((s, t)), Ok(x)) => final(self)@ == s && x@ == t,
                (Err(e), Err(x)) => x == e && final(self)@ == old(self)@,
                _ => false,
            },
    {
        if amount <= 0 {
            return Err(PoolError::InvalidAmount);
        }
        if !is_authorized(signers, depositor) {
            return Err(PoolError::Unauthorized);
        }
        let token = match &self.token {
            Some(t) => t.clone(),
            None => return Err(PoolError::NotInitialized),
        };
        let current = self.record_of(depositor);
        self.put_record(depositor, current + amount);
        Ok(Transfer { token, from: depositor.clone(), to: self.pool.clone(), amount })
    }

    /// Debits `amount` from `depositor`, who must have signed the call, given
    /// the pool's live token balance `pool_balance`. On success the returned
    /// transfer, from the pool to the depositor, is owed by the host; if it
    /// fails the whole call is to be discarded.
    pub fn withdraw(
        &mut self,
        signers: &Vec<AccountId>,
        depositor: &AccountId,
        amount: i128,
        pool_balance: i128,
    ) -> (r: Result<Transfer, PoolError>)
        requires
            old(self).wf(),
        ensures
            final(self).wf(),
            match (
                withdraw_step(
                    old(self)@,
                    signed_by(ids(signers@), depositor@),
                    depositor@,
                    amount as int,
                    pool_balance as int,
                ),
                r,
            ) {
                (Ok((s, t)), Ok(x)) => final(self)@ == s && x@ == t,
                (Err(e), Err(x)) => x == e && final(self)@ == old(self)@,
                _ => false,
            },
    {
        if amount <= 0 {
            return Err(PoolError::InvalidAmount);
        }
        if !is_authorized(signers, depositor) {
            return Err(PoolError::Unauthorized);
        }
        let token = match &self.token {
            Some(t) => t.clone(),
            None => return Err(PoolError::NotInitialized),
        };
        let current = self.record_of(depositor);
        if current < amount {
            return Err(PoolError::InsufficientBalance);
        }
        if pool_balance < amount {
            return Err(PoolError::InsufficientLiquidity);
        }
        self.put_record(depositor, current - amount);
        Ok(Transfer { token, from: self.pool.clone(), to: depositor.clone(), amount })
    }

    /// The record of `depositor`; zero when there is none.
    pub fn get_deposit(&self, depositor: &AccountId) -> (r: i128)
        requires
            self.wf(),
        ensures
            r == record(self@.deposits, depositor@),
            r >= 0,
    {
        self.record_of(depositor)
    }

    /// The token the pool accepts, once set.
    pub fn token(&self) -> (r: Option<AccountId>)
        ensures
            match r {
                Some(t) => self@.token == Some(t@),
                None => self@.token is None,
            },
    {
        match &self.token {
            Some(t) => Some(t.clone()),
            None => None,
        }
    }

    /// The pool's own account.
    pub fn address(&self) -> (r: AccountId)
        ensures
            r@ == self@.pool,
    {
        self.pool.clone()
    }
}

} // verus!
