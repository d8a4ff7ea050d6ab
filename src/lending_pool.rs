//! The ledger pool: depositors' balances, held against the pool's custody of
//! an outside token.
use vstd::prelude::*;
use vstd::hash_map::HashMapWithView;
use crate::types::{Address, Error, Event, Transfer, has_signed};

verus! {

broadcast use vstd::std_specs::hash::group_hash_axioms;

/// The ledger pool as a mathematical value.
pub struct PoolState {
    pub address: Address,
    pub admin: Option<Address>,
    pub token: Option<Address>,
    pub deposits: Map<u64, i128>,
}

/// One deposit or withdrawal by a depositor, with what the host supplied to it:
/// the identities that authorized it and, for a withdrawal, the pool's token balance.
pub struct PoolCall {
    pub withdraw: bool,
    pub auth: Seq<Address>,
    pub amount: i128,
    pub liquidity: i128,
}

impl PoolState {
    /// A balance record is present exactly when its value is strictly positive.
    pub open spec fn wf(self) -> bool {
        forall|k: u64| #[trigger] self.deposits.contains_key(k) ==> self.deposits[k] > 0
    }

    /// The tracked balance of `p`: 0 when no record exists.
    pub open spec fn balance(self, p: Address) -> int {
        if self.deposits.contains_key(p.id) {
            self.deposits[p.id] as int
        } else {
            0
        }
    }

    /// The state with the balance of `p` set to `b`; a zero balance has no record.
    pub open spec fn with_balance(self, p: Address, b: int) -> PoolState {
        if b == 0 {
            PoolState { deposits: self.deposits.remove(p.id), ..self }
        } else {
            PoolState { deposits: self.deposits.insert(p.id, b as i128), ..self }
        }
    }

    pub open spec fn deposit_error(self, auth: Seq<Address>, p: Address, amount: i128) -> Option<Error> {
        if !auth.contains(p) {
            Some(Error::Unauthorized)
        } else if amount <= 0 {
            Some(Error::InvalidAmount)
        } else if self.token is None {
            Some(Error::NotInitialized)
        } else if self.balance(p) + amount > i128::MAX {
            Some(Error::ArithmeticOverflow)
        } else {
            None
        }
    }

    pub open spec fn withdraw_error(
        self,
        auth: Seq<Address>,
        p: Address,
        amount: i128,
        liquidity: i128,
    ) -> Option<Error> {
        if !auth.contains(p) {
            Some(Error::Unauthorized)
        } else if amount <= 0 {
            Some(Error::InvalidAmount)
        } else if amount > self.balance(p) {
            Some(Error::InsufficientBalance)
        } else if self.token is None {
            Some(Error::NotInitialized)
        } else if liquidity < amount {
            Some(Error::InsufficientLiquidity)
        } else {
            None
        }
    }

    pub open spec fn call_error(self, p: Address, c: PoolCall) -> Option<Error> {
        if c.withdraw {
            self.withdraw_error(c.auth, p, c.amount, c.liquidity)
        } else {
            self.deposit_error(c.auth, p, c.amount)
        }
    }

    /// The change that call `c` by `p` makes to the balance of `p`.
    pub open spec fn call_flow(self, p: Address, c: PoolCall) -> int {
        if self.call_error(p, c) is Some {
            0
        } else if c.withdraw {
            -c.amount
        } else {
            c.amount as int
        }
    }

    pub open spec fn after_call(self, p: Address, c: PoolCall) -> PoolState {
        if self.call_error(p, c) is Some {
            self
        } else {
            self.with_balance(p, self.balance(p) + self.call_flow(p, c))
        }
    }
}

/// The state after the calls `cs` by `p`, in order.
pub open spec fn replay(s: PoolState, p: Address, cs: Seq<PoolCall>) -> PoolState
    decreases cs.len(),
{
    if cs.len() == 0 {
        s
    } else {
        replay(s, p, cs.drop_last()).after_call(p, cs.last())
    }
}

/// The sum of the amounts deposited, less those withdrawn, by the calls of
/// `cs` that succeeded.
pub open spec fn net_flow(s: PoolState, p: Address, cs: Seq<PoolCall>) -> int
    decreases cs.len(),
{
    if cs.len() == 0 {
        0
    } else {
        net_flow(s, p, cs.drop_last()) + replay(s, p, cs.drop_last()).call_flow(p, cs.last())
    }
}

/// Over any sequence of deposits and withdrawals by one depositor, the
/// tracked balance is the starting balance plus the successful deposits less
/// the successful withdrawals, and it never becomes negative.
pub proof fn lemma_balance_is_net_flow(s: PoolState, p: Address, cs: Seq<PoolCall>)
    requires
        s.wf(),
    ensures
        replay(s, p, cs).wf(),
        replay(s, p, cs).balance(p) == s.balance(p) + net_flow(s, p, cs),
        replay(s, p, cs).balance(p) >= 0,
    decreases cs.len(),
{
    if cs.len() > 0 {
        lemma_balance_is_net_flow(s, p, cs.drop_last());
        let t = replay(s, p, cs.drop_last());
        lemma_after_call(t, p, cs.last());
    }
}

proof fn lemma_after_call(s: PoolState, p: Address, c: PoolCall)
    requires
        s.wf(),
    ensures
        s.after_call(p, c).wf(),
        s.after_call(p, c).balance(p) == s.balance(p) + s.call_flow(p, c),
        s.after_call(p, c).balance(p) >= 0,
{
    if s.balance(p) < 0 {
        assert(s.deposits[p.id] > 0);
    }
}

/// A withdrawal of a positive amount, authorized by the depositor, is refused
/// with `InsufficientBalance` when the amount exceeds the tracked balance; when
/// it does not, an initialized pool refuses it with `InsufficientLiquidity`
/// whenever the amount exceeds the pool's token balance.
pub proof fn lemma_withdraw_refusals(
    s: PoolState,
    auth: Seq<Address>,
    p: Address,
    amount: i128,
    liquidity: i128,
)
    requires
        auth.contains(p),
        amount > 0,
    ensures
        amount > s.balance(p) ==> s.withdraw_error(auth, p, amount, liquidity) == Some(
            Error::InsufficientBalance,
        ),
        amount <= s.balance(p) && s.token is Some && liquidity < amount ==> s.withdraw_error(
            auth, p, amount, liquidity) == Some(Error::InsufficientLiquidity),
{
}

/// A deposit into an empty record, followed by the withdrawal of the same
/// amount, leaves no record behind.
pub proof fn lemma_deposit_withdraw_round_trip(
    s: PoolState,
    p: Address,
    auth: Seq<Address>,
    amount: i128,
    liquidity: i128,
)
    requires
        s.wf(),
        !s.deposits.contains_key(p.id),
        s.deposit_error(auth, p, amount) is None,
        liquidity >= amount,
    ensures
        ({
            let d = s.with_balance(p, s.balance(p) + amount);
            &&& d.withdraw_error(auth, p, amount, liquidity) is None
            &&& d.with_balance(p, d.balance(p) - amount).deposits == s.deposits
            &&& d.with_balance(p, d.balance(p) - amount).balance(p) == 0
        }),
{
    let d = s.with_balance(p, s.balance(p) + amount);
    assert(d.with_balance(p, d.balance(p) - amount).deposits =~= s.deposits);
}

/// The ledger pool. Its fields are its durable storage; `address` is the
/// identity under which the pool holds the token.
pub struct LendingPool {
    pub address: Address,
    pub admin: Option<Address>,
    pub token: Option<Address>,
    pub deposits: HashMapWithView<u64, i128>,
}

impl View for LendingPool {
    type V = PoolState;

    open spec fn view(&self) -> PoolState {
        PoolState {
            address: self.address,
            admin: self.admin,
            token: self.token,
            deposits: self.deposits@,
        }
    }
}

impl LendingPool {
    /// A pool at `address` with no records, not yet initialized.
    pub fn new(address: Address) -> (r: Self)
        ensures
            r@.address == address,
            r@.admin is None,
            r@.token is None,
            r@.deposits == Map::<u64, i128>::empty(),
            r@.wf(),
    {
        LendingPool { address, admin: None, token: None, deposits: HashMapWithView::new() }
    }

    fn read_token(&self) -> (r: Result<Address, Error>)
        ensures
            match r {
                Ok(t) => self.token == Some(t),
                Err(e) => self.token is None && e == Error::NotInitialized,
            },
    {
        match self.token {
            Some(t) => Ok(t),
            None => Err(Error::NotInitialized),
        }
    }

    /// One-time setup: records the admin and the token the pool holds.
    pub fn initialize(&mut self, admin: Address, token: Address) -> (r: Result<(), Error>)
        ensures
            r is Ok <==> old(self)@.admin is None,
            match r {
                Ok(_) => final(self)@ == (PoolState {
                    admin: Some(admin),
                    token: Some(token),
                    ..old(self)@
                }),
                Err(e) => e == Error::AlreadyInitialized && final(self)@ == old(self)@,
            },
    {
        if self.admin.is_some() {
            return Err(Error::AlreadyInitialized);
        }
        self.admin = Some(admin);
        self.token = Some(token);
        Ok(())
    }

    /// Hands the admin role to `new_admin`, on the current admin's authorization.
    pub fn set_admin(&mut self, auth: &[Address], new_admin: Address) -> (r: Result<(), Error>)
        ensures
            match old(self)@.admin {
                None => r == Err::<(), Error>(Error::NotInitialized),
                Some(a) => if auth@.contains(a) {
                    r is Ok
                } else {
                    r == Err::<(), Error>(Error::Unauthorized)
                },
            },
            match r {
                Ok(_) => final(self)@ == (PoolState { admin: Some(new_admin), ..old(self)@ }),
                Err(_) => final(self)@ == old(self)@,
            },
    {
        let admin = match self.admin {
            Some(a) => a,
            None => return Err(Error::NotInitialized),
        };
        if !has_signed(auth, admin) {
            return Err(Error::Unauthorized);
        }
        self.admin = Some(new_admin);
        Ok(())
    }

    /// The tracked balance of `provider`; 0 when it has no record.
    pub fn get_deposit(&self, provider: Address) -> (r: i128)
        ensures
            r == self@.balance(provider),
    {
        match self.deposits.get(&provider.id) {
            Some(b) => *b,
            None => 0,
        }
    }

    /// The token the pool holds.
    pub fn get_token(&self) -> (r: Result<Address, Error>)
        ensures
            match r {
                Ok(t) => self@.token == Some(t),
                Err(e) => self@.token is None && e == Error::NotInitialized,
            },
    {
        self.read_token()
    }

    /// Credits `provider` with `amount`, returning the transfer into the pool's
    /// custody that the host must perform and the event to publish.
    pub fn deposit(&mut self, auth: &[Address], provider: Address, amount: i128, now: u64) -> (r:
        Result<(Transfer, Event), Error>)
        requires
            old(self)@.wf(),
        ensures
            final(self)@.wf(),
            final(self)@ == old(self)@.after_call(
                provider,
                (PoolCall { withdraw: false, auth: auth@, amount, liquidity: 0 }),
            ),
            r is Ok <==> old(self)@.deposit_error(auth@, provider, amount) is None,
            match r {
                Ok((t, e)) => {
                    &&& final(self)@ == old(self)@.with_balance(
                        provider,
                        old(self)@.balance(provider) + amount,
                    )
                    &&& t == (Transfer {
                        token: old(self)@.token.unwrap(),
                        from: provider,
                        to: old(self)@.address,
                        amount,
                    })
                    &&& e == (Event::Deposited { provider, amount, timestamp: now })
                },
                Err(e) => old(self)@.deposit_error(auth@, provider, amount) == Some(e)
                    && final(self)@ == old(self)@,
            },
    {
        if !has_signed(auth, provider) {
            return Err(Error::Unauthorized);
        }
        if amount <= 0 {
            return Err(Error::InvalidAmount);
        }
        let token = self.read_token()?;
        let current = self.get_deposit(provider);
        let updated = match current.checked_add(amount) {
            Some(v) => v,
            None => return Err(Error::ArithmeticOverflow),
        };
        self.deposits.insert(provider.id, updated);
        Ok(
            (
                Transfer { token, from: provider, to: self.address, amount },
                Event::Deposited { provider, amount, timestamp: now },
            ),
        )
    }

    /// Debits `provider` with `amount`, given `liquidity`, the pool's balance of
    /// its token; returns the transfer out of custody that the host must perform
    /// and the event to publish.
    pub fn withdraw(
        &mut self,
        auth: &[Address],
        provider: Address,
        amount: i128,
        liquidity: i128,
        now: u64,
    ) -> (r: Result<(Transfer, Event), Error>)
        requires
            old(self)@.wf(),
        ensures
            final(self)@.wf(),
            final(self)@ == old(self)@.after_call(
                provider,
                (PoolCall { withdraw: true, auth: auth@, amount, liquidity }),
            ),
            r is Ok <==> old(self)@.withdraw_error(auth@, provider, amount, liquidity) is None,
            match r {
                Ok((t, e)) => {
                    &&& final(self)@ == old(self)@.with_balance(
                        provider,
                        old(self)@.balance(provider) - amount,
                    )
                    &&& t == (Transfer {
                        token: old(self)@.token.unwrap(),
                        from: old(self)@.address,
                        to: provider,
                        amount,
                    })
                    &&& e == (Event::Withdrawn { provider, amount, timestamp: now })
                },
                Err(e) => old(self)@.withdraw_error(auth@, provider, amount, liquidity) == Some(e)
                    && final(self)@ == old(self)@,
            },
    {
        if !has_signed(auth, provider) {
            return Err(Error::Unauthorized);
        }
        if amount <= 0 {
            return Err(Error::InvalidAmount);
        }
        let current = self.get_deposit(provider);
        if current < amount {
            return Err(Error::InsufficientBalance);
        }
        let token = self.read_token()?;
        if liquidity < amount {
            return Err(Error::InsufficientLiquidity);
        }
        let updated = current - amount;
        if updated == 0 {
            self.deposits.remove(&provider.id);
        } else {
            self.deposits.insert(provider.id, updated);
        }
        Ok(
            (
                Transfer { token, from: self.address, to: provider, amount },
                Event::Withdrawn { provider, amount, timestamp: now },
            ),
        )
    }
}

} // verus!
