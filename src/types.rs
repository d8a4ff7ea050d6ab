use vstd::prelude::*;

verus! {

/// An authenticatable principal (an account or a component), named by a number.
#[derive(Clone, Copy, Debug, PartialEq, Eq, Structural, Hash)]
pub struct Address {
    pub id: u64,
}

/// Every way an operation of the protocol can fail. A failed operation leaves
/// the state of every component it touched as it was.
#[derive(Clone, Copy, Debug, PartialEq, Eq, Structural)]
pub enum Error {
    AlreadyInitialized,
    NotInitialized,
    InvalidAmount,
    ArithmeticOverflow,
    ArithmeticUnderflow,
    InsufficientBalance,
    InsufficientLiquidity,
    Unauthorized,
    AlreadyEnrolled,
    NotEnrolled,
    ScoreTooLow,
}

/// A movement of the pool's token that the host must perform for an operation
/// to take effect.
#[derive(Clone, Copy, Debug, PartialEq, Eq, Structural)]
pub struct Transfer {
    pub token: Address,
    pub from: Address,
    pub to: Address,
    pub amount: i128,
}

/// What an operation announces to observers once it has succeeded.
#[derive(Clone, Copy, Debug, PartialEq, Eq, Structural)]
pub enum Event {
    Deposited { provider: Address, amount: i128, timestamp: u64 },
    Withdrawn { provider: Address, amount: i128, timestamp: u64 },
    LoanRequested { borrower: Address, amount: i128 },
    LoanApproved { loan_id: u32 },
    LoanRepaid { borrower: Address, amount: i128 },
}

/// Whether `who` is among the identities that authorized the current invocation.
pub fn has_signed(auth: &[Address], who: Address) -> (r: bool)
    ensures
        r == auth@.contains(who),
{
    let mut i: usize = 0;
    while i < auth.len()
        invariant
            0 <= i <= auth@.len(),
            forall|j: int| 0 <= j < i ==> auth@[j] != who,
        decreases auth@.len() - i,
    {
        if auth[i] == who {
            assert(auth@[i as int] == who);
            return true;
        }
        i += 1;
    }
    false
}

} // verus!
