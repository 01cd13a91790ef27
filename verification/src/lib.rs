//! A collateralized-loan escrow: a borrower locks collateral into custody, a
//! lender funds a loan against it, and the agreement ends either with the
//! borrower's repayment or, once the deadline has passed, with the lender's
//! claim on what custody still holds.
//!
//! - [`identity`]: the 32-byte identities of parties and accounts.
//! - [`custody`]: the custodian authority and the custody accounts of an
//!   agreement, derived from the agreement's identity.
//! - [`ledger`]: accounts with owners and balances, and atomic transfers.
//! - [`agreement`]: the record of one agreement.
//! - [`lifecycle`]: opening, funding, repaying and closing an agreement.
//! - [`laws`]: what holds of every agreement through any series of
//!   operations.
//! - [`error`]: why an operation fails.

pub mod agreement;
pub mod custody;
pub mod error;
pub mod identity;
pub mod laws;
pub mod ledger;
pub mod lifecycle;

pub use agreement::{AgreementState, LoanAgreement};
pub use custody::{Custody, CustodyAccounts, CustodySlot};
pub use error::NftLendingError;
pub use identity::Identity;
pub use ledger::{Ledger, LedgerError, Transfer};
pub use lifecycle::{
    close, initialize, lender, plan_close, plan_initialize, plan_lender, plan_repay, repay, Close,
    Initialize, Lender, Repay,
};
