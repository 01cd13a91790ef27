//! The record of one loan agreement.

use vstd::prelude::*;
use crate::custody::{Custody, CustodyAccounts};
use crate::identity::Identity;

verus! {

/// The terms of an agreement and how far it has come.
#[derive(Clone, Copy, Debug, PartialEq, Eq)]
pub struct AgreementState {
    /// The custodian and the custody accounts of the agreement, which also
    /// name the agreement itself.
    pub custody: CustodyAccounts,
    /// Who supplied the collateral and receives the principal.
    pub borrower: Identity,
    /// Who may fund the agreement, if that is restricted; once the agreement
    /// is funded, who funded it.
    pub lender: Option<Identity>,
    /// The principal that the borrower receives when the agreement is funded.
    pub loan_amount: u64,
    /// The collateral that the borrower locked.
    pub collateral_amount: u64,
    /// The time from which unredeemed collateral falls to the lender.
    pub deadline: i64,
    /// Whether a lender has funded the agreement.
    pub funded: bool,
}

impl AgreementState {
    /// Both amounts are positive, and the custody accounts are three
    /// different accounts.
    pub open spec fn wf(self) -> bool {
        &&& self.loan_amount > 0
        &&& self.collateral_amount > 0
        &&& self.custody.distinct()
    }

    /// What is agreed once and for all: everything but the lender and the
    /// `funded` flag agrees between the two states.
    pub open spec fn same_terms(self, other: AgreementState) -> bool {
        &&& self.custody == other.custody
        &&& self.borrower == other.borrower
        &&& self.loan_amount == other.loan_amount
        &&& self.collateral_amount == other.collateral_amount
        &&& self.deadline == other.deadline
    }
}

/// One loan agreement. Its amounts are positive for as long as it exists.
#[derive(Clone, Copy, Debug)]
pub struct LoanAgreement {
    state: AgreementState,
}

impl View for LoanAgreement {
    type V = AgreementState;

    closed spec fn view(&self) -> AgreementState {
        self.state
    }
}

impl LoanAgreement {
    #[verifier::type_invariant]
    spec fn inv(self) -> bool {
        self.state.wf()
    }

    /// The record of an agreement that is known by its parts, as when it is
    /// read back from where it was stored. It is `None` exactly when one of
    /// the amounts is zero.
    pub fn from_parts(
        custody: &Custody,
        borrower: Identity,
        lender: Option<Identity>,
        loan_amount: u64,
        collateral_amount: u64,
        deadline: i64,
        funded: bool,
    ) -> (agreement: Option<LoanAgreement>)
        ensures
            agreement is Some <==> loan_amount > 0 && collateral_amount > 0,
            agreement matches Some(a) ==> a@ == (AgreementState {
                custody: custody@,
                borrower,
                lender,
                loan_amount,
                collateral_amount,
                deadline,
                funded,
            }) && a@.wf(),
    {
        if loan_amount == 0 || collateral_amount == 0 {
            None
        } else {
            let accounts = custody.accounts();
            Some(
                LoanAgreement {
                    state: AgreementState {
                        custody: accounts,
                        borrower,
                        lender,
                        loan_amount,
                        collateral_amount,
                        deadline,
                        funded,
                    },
                },
            )
        }
    }

    /// The record of a newly opened agreement.
    pub(crate) fn opened(
        custody: &Custody,
        borrower: Identity,
        lender: Option<Identity>,
        loan_amount: u64,
        collateral_amount: u64,
        deadline: i64,
    ) -> (agreement: LoanAgreement)
        requires
            loan_amount > 0,
            collateral_amount > 0,
        ensures
            agreement@ == (AgreementState {
                custody: custody@,
                borrower,
                lender,
                loan_amount,
                collateral_amount,
                deadline,
                funded: false,
            }),
            agreement@.wf(),
    {
        let accounts = custody.accounts();
        LoanAgreement {
            state: AgreementState {
                custody: accounts,
                borrower,
                lender,
                loan_amount,
                collateral_amount,
                deadline,
                funded: false,
            },
        }
    }

    /// The record of this agreement once `lender` has funded it.
    pub(crate) fn funded_by(&self, lender: Identity) -> (agreement: LoanAgreement)
        ensures
            agreement@ == (AgreementState { lender: Some(lender), funded: true, ..self@ }),
            agreement@.wf(),
    {
        proof {
            use_type_invariant(self);
        }
        LoanAgreement {
            state: AgreementState {
                custody: self.state.custody,
                borrower: self.state.borrower,
                lender: Some(lender),
                loan_amount: self.state.loan_amount,
                collateral_amount: self.state.collateral_amount,
                deadline: self.state.deadline,
                funded: true,
            },
        }
    }

    /// The terms and state of the agreement.
    pub fn state(&self) -> (state: AgreementState)
        ensures
            state == self@,
            state.wf(),
    {
        proof {
            use_type_invariant(self);
        }
        self.state
    }

    /// The identity of the agreement.
    pub fn id(&self) -> (id: Identity)
        ensures
            id == self@.custody.agreement,
    {
        self.state.custody.agreement
    }

    /// Who supplied the collateral and receives the principal.
    pub fn borrower(&self) -> (borrower: Identity)
        ensures
            borrower == self@.borrower,
    {
        self.state.borrower
    }

    /// Who may fund the agreement, if that is restricted, or who funded it.
    pub fn lender(&self) -> (lender: Option<Identity>)
        ensures
            lender == self@.lender,
    {
        self.state.lender
    }

    /// The principal of the loan, which is never zero.
    pub fn loan_amount(&self) -> (amount: u64)
        ensures
            amount == self@.loan_amount,
            amount > 0,
    {
        proof {
            use_type_invariant(self);
        }
        self.state.loan_amount
    }

    /// The collateral of the loan, which is never zero.
    pub fn collateral_amount(&self) -> (amount: u64)
        ensures
            amount == self@.collateral_amount,
            amount > 0,
    {
        proof {
            use_type_invariant(self);
        }
        self.state.collateral_amount
    }

    /// The time from which unredeemed collateral falls to the lender.
    pub fn deadline(&self) -> (deadline: i64)
        ensures
            deadline == self@.deadline,
    {
        self.state.deadline
    }

    /// Whether a lender has funded the agreement.
    pub fn funded(&self) -> (funded: bool)
        ensures
            funded == self@.funded,
    {
        self.state.funded
    }
}

} // verus!
