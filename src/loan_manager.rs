//! The loan gatekeeper: admits loan requests by the borrower's reputation
//! score and credits repayments back to the registry.
use vstd::prelude::*;
use crate::types::{Address, Error, Event, has_signed};
use crate::remittance_nft::{RegistryState, RemittanceMetadata, RemittanceNFT};

verus! {

/// The lowest score at which a loan request is admitted.
pub const MIN_LOAN_SCORE: u32 = 500;

/// The smallest repayment that earns a score point; smaller ones are not
/// passed on to the registry.
pub const MIN_SCORED_REPAYMENT: i128 = 100;

/// The loan gatekeeper. `address` is the identity under which it acts on the
/// registry; `nft_contract` is the registry it was set up with.
pub struct LoanManager {
    pub address: Address,
    pub nft_contract: Option<Address>,
}

impl LoanManager {
    /// Whether `reg` is the registry this gatekeeper was set up with, when it
    /// was set up with one.
    pub open spec fn serves(&self, reg: RegistryState) -> bool {
        self.nft_contract is Some ==> self.nft_contract == Some(reg.address)
    }

    /// Why a loan request is refused, given the borrower's score, if it is.
    pub open spec fn admission_error(&self, amount: i128, score: u32) -> Option<Error> {
        if amount <= 0 {
            Some(Error::InvalidAmount)
        } else if self.nft_contract is None {
            Some(Error::NotInitialized)
        } else if score < MIN_LOAN_SCORE {
            Some(Error::ScoreTooLow)
        } else {
            None
        }
    }

    pub open spec fn request_error(&self, reg: RegistryState, borrower: Address, amount: i128) -> Option<Error> {
        self.admission_error(amount, reg.score_of(borrower))
    }

    /// Why a repayment is refused before the registry is consulted, if it is.
    pub open spec fn settle_error(&self, auth: Seq<Address>, borrower: Address, amount: i128) -> Option<Error> {
        if !auth.contains(borrower) {
            Some(Error::Unauthorized)
        } else if amount <= 0 {
            Some(Error::InvalidAmount)
        } else if amount >= MIN_SCORED_REPAYMENT && self.nft_contract is None {
            Some(Error::NotInitialized)
        } else {
            None
        }
    }

    pub open spec fn repay_error(
        &self,
        reg: RegistryState,
        auth: Seq<Address>,
        borrower: Address,
        amount: i128,
    ) -> Option<Error> {
        if self.settle_error(auth, borrower, amount) is Some {
            self.settle_error(auth, borrower, amount)
        } else if amount < MIN_SCORED_REPAYMENT {
            None
        } else {
            reg.score_error(seq![self.address], borrower, amount, Some(self.address))
        }
    }

    /// A gatekeeper acting as `address`, not yet set up.
    pub fn new(address: Address) -> (r: Self)
        ensures
            r.address == address,
            r.nft_contract is None,
    {
        LoanManager { address, nft_contract: None }
    }

    fn nft(&self) -> (r: Result<Address, Error>)
        ensures
            match r {
                Ok(a) => self.nft_contract == Some(a),
                Err(e) => self.nft_contract is None && e == Error::NotInitialized,
            },
    {
        match self.nft_contract {
            Some(a) => Ok(a),
            None => Err(Error::NotInitialized),
        }
    }

    /// One-time setup: records the registry to consult.
    pub fn initialize(&mut self, nft_contract: Address) -> (r: Result<(), Error>)
        ensures
            r is Ok <==> old(self).nft_contract is None,
            match r {
                Ok(_) => final(self).nft_contract == Some(nft_contract),
                Err(e) => e == Error::AlreadyInitialized && final(self).nft_contract == old(self).nft_contract,
            },
            final(self).address == old(self).address,
    {
        if self.nft_contract.is_some() {
            return Err(Error::AlreadyInitialized);
        }
        self.nft_contract = Some(nft_contract);
        Ok(())
    }

    /// Decides a loan request of `amount` by `borrower` whose score in the
    /// registry is `score`.
    pub fn admit_request(&self, borrower: Address, amount: i128, score: u32) -> (r: Result<Event, Error>)
        ensures
            r is Ok <==> self.admission_error(amount, score) is None,
            match r {
                Ok(e) => e == (Event::LoanRequested { borrower, amount }),
                Err(e) => self.admission_error(amount, score) == Some(e),
            },
    {
        if amount <= 0 {
            return Err(Error::InvalidAmount);
        }
        self.nft()?;
        if score < MIN_LOAN_SCORE {
            return Err(Error::ScoreTooLow);
        }
        Ok(Event::LoanRequested { borrower, amount })
    }

    /// Decides the part of a repayment of `amount` by `borrower` that needs no
    /// registry: the registry to credit, or `None` when the amount earns no point.
    pub fn settle_repayment(&self, auth: &[Address], borrower: Address, amount: i128) -> (r: Result<
        Option<Address>,
        Error,
    >)
        ensures
            r is Ok <==> self.settle_error(auth@, borrower, amount) is None,
            match r {
                Ok(target) => if amount >= MIN_SCORED_REPAYMENT {
                    target == self.nft_contract && target is Some
                } else {
                    target is None
                },
                Err(e) => self.settle_error(auth@, borrower, amount) == Some(e),
            },
    {
        if !has_signed(auth, borrower) {
            return Err(Error::Unauthorized);
        }
        if amount <= 0 {
            return Err(Error::InvalidAmount);
        }
        if amount < MIN_SCORED_REPAYMENT {
            return Ok(None);
        }
        let nft = self.nft()?;
        Ok(Some(nft))
    }

    /// Admits a loan request of `amount` by `borrower` when their score in
    /// `registry` reaches the threshold. Reading the score migrates a legacy
    /// record; a refused request leaves the registry as it was.
    pub fn request_loan(&self, registry: &mut RemittanceNFT, borrower: Address, amount: i128) -> (r:
        Result<Event, Error>)
        requires
            self.serves(old(registry)@),
        ensures
            r is Ok <==> self.request_error(old(registry)@, borrower, amount) is None,
            match r {
                Ok(e) => e == (Event::LoanRequested { borrower, amount }) && final(registry)@ == old(registry)@.migrated(borrower),
                Err(e) => self.request_error(old(registry)@, borrower, amount) == Some(e) && final(registry)@ == old(registry)@,
            },
    {
        let score = match registry.lookup(borrower) {
            Some(m) => m.score,
            None => 0,
        };
        let event = self.admit_request(borrower, amount, score)?;
        registry.get_score(borrower);
        Ok(event)
    }

    /// Approves a loan; no state is kept for it.
    pub fn approve_loan(&self, loan_id: u32) -> (r: Event)
        ensures
            r == (Event::LoanApproved { loan_id }),
    {
        Event::LoanApproved { loan_id }
    }

    /// Records a repayment of `amount` by `borrower`. A repayment of at least
    /// the scored minimum is credited to the borrower's score in `registry`,
    /// with this gatekeeper acting as an authorized minter.
    pub fn repay(&self, registry: &mut RemittanceNFT, auth: &[Address], borrower: Address, amount: i128) -> (r:
        Result<Event, Error>)
        requires
            self.serves(old(registry)@),
        ensures
            r is Ok <==> self.repay_error(old(registry)@, auth@, borrower, amount) is None,
            match r {
                Ok(e) => {
                    &&& e == (Event::LoanRepaid { borrower, amount })
                    &&& amount < MIN_SCORED_REPAYMENT ==> final(registry)@ == old(registry)@
                    &&& amount >= MIN_SCORED_REPAYMENT ==> final(registry)@ == old(registry)@.migrated(borrower).with_record(
                        borrower,
                        (RemittanceMetadata {
                            score: (old(registry)@.score_of(borrower) + amount / 100) as u32,
                            history_hash: old(registry)@.resolved(borrower).unwrap().history_hash,
                        }),
                    )
                },
                Err(e) => self.repay_error(old(registry)@, auth@, borrower, amount) == Some(e)
                    && final(registry)@ == old(registry)@,
            },
    {
        if self.settle_repayment(auth, borrower, amount)?.is_some() {
            let signer = [self.address];
            assert(signer@ =~= seq![self.address]);
            registry.update_score(&signer, borrower, amount, Some(self.address))?;
        }
        Ok(Event::LoanRepaid { borrower, amount })
    }
}

} // verus!
