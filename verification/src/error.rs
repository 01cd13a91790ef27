//! The errors that the four operations report.

use vstd::prelude::*;
use crate::ledger::LedgerError;

verus! {

/// Why an operation on an agreement failed. A failed operation has moved
/// nothing and has left the agreement as it was.
#[derive(Clone, Copy, Debug, PartialEq, Eq, Structural)]
pub enum NftLendingError {
    /// An agreement cannot be opened for a loan of nothing.
    LoanCannotBeZero,
    /// An agreement cannot be opened on no collateral.
    CollateralCannotBeZero,
    /// The agreement is not what the caller takes it to be: its terms or
    /// balances differ from the expected ones, or it is not in the state
    /// that the operation needs.
    UnexpectedLoanAgreement,
    /// The collateral is still out on loan and the deadline has not come.
    DefaultAtIsNotReached,
    /// The agreement names a lender, and the caller is someone else.
    IncorrectBorrower,
    /// The ledger refused a transfer: the source holds too little.
    InsufficientBalance,
    /// The caller is not the party that the operation belongs to, or the
    /// ledger refused a transfer for want of authority.
    Unauthorized,
}

impl NftLendingError {
    /// The error that reports a refusal of the ledger.
    pub open spec fn of_ledger(refusal: LedgerError) -> NftLendingError {
        match refusal {
            LedgerError::InsufficientBalance => NftLendingError::InsufficientBalance,
            LedgerError::Unauthorized => NftLendingError::Unauthorized,
        }
    }

    /// Passes a refusal of the ledger on under the same name.
    pub fn from_ledger(refusal: LedgerError) -> (error: NftLendingError)
        ensures
            error == Self::of_ledger(refusal),
    {
        match refusal {
            LedgerError::InsufficientBalance => NftLendingError::InsufficientBalance,
            LedgerError::Unauthorized => NftLendingError::Unauthorized,
        }
    }

    /// The text of each error.
    pub open spec fn message_text(self) -> Seq<char> {
        match self {
            NftLendingError::LoanCannotBeZero => "Loan cannot be zero"@,
            NftLendingError::CollateralCannotBeZero => "Collateral cannot be zero"@,
            NftLendingError::UnexpectedLoanAgreement => "Unexpected loan agreement"@,
            NftLendingError::DefaultAtIsNotReached => "Default at is not reached"@,
            NftLendingError::IncorrectBorrower => "Incorrect borrower"@,
            NftLendingError::InsufficientBalance => "Insufficient balance"@,
            NftLendingError::Unauthorized => "Unauthorized"@,
        }
    }

    /// A short description of the error for a reader.
    pub fn message(&self) -> (text: &'static str)
        ensures
            text@ == self.message_text(),
    {
        match self {
            NftLendingError::LoanCannotBeZero => "Loan cannot be zero",
            NftLendingError::CollateralCannotBeZero => "Collateral cannot be zero",
            NftLendingError::UnexpectedLoanAgreement => "Unexpected loan agreement",
            NftLendingError::DefaultAtIsNotReached => "Default at is not reached",
            NftLendingError::IncorrectBorrower => "Incorrect borrower",
            NftLendingError::InsufficientBalance => "Insufficient balance",
            NftLendingError::Unauthorized => "Unauthorized",
        }
    }
}

} // verus!
