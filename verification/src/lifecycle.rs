//! The four operations on an agreement: opening it, funding it, repaying
//! the loan, and closing it out.
//!
//! Each operation first decides, from the agreement and the balances it is
//! shown, whether it may go ahead and which transfers it then asks for. The
//! transfers of one operation are carried out together or not at all, and
//! the agreement changes only when they were carried out.

use vstd::prelude::*;
use crate::agreement::{AgreementState, LoanAgreement};
use crate::custody::Custody;
use crate::error::NftLendingError;
use crate::identity::Identity;
use crate::ledger::{balance, run_transfers, Holding, Ledger, Transfer};

verus! {

/// Who opens an agreement, and with which accounts.
#[derive(Clone, Copy, Debug)]
pub struct Initialize {
    /// The custody of the agreement to open.
    pub custody: Custody,
    /// The borrower, who opens the agreement.
    pub borrower: Identity,
    /// The borrower's account that the collateral comes from.
    pub borrower_token_account: Identity,
}

/// Who funds an agreement, and with which accounts.
#[derive(Clone, Copy, Debug)]
pub struct Lender {
    /// The caller, who lends.
    pub lender: Identity,
    /// The lender's account that the principal comes from.
    pub lender_token_account: Identity,
    /// The borrower's account that receives the principal.
    pub borrower_loan_token_account: Identity,
}

/// Who repays a loan, and with which accounts.
#[derive(Clone, Copy, Debug)]
pub struct Repay {
    /// The caller, who must be the borrower of the agreement.
    pub borrower: Identity,
    /// The borrower's account that the principal is repaid from.
    pub borrower_loan_token_account: Identity,
    /// The borrower's account that receives the collateral back.
    pub borrower_collateral_token_account: Identity,
}

/// Who closes an agreement out, and with which accounts.
#[derive(Clone, Copy, Debug)]
pub struct Close {
    /// The caller, who must be the lender of the agreement if it has one.
    pub lender: Identity,
    /// The lender's account that receives what the vault holds.
    pub lender_loan_token_account: Identity,
    /// The lender's account that receives what is left of the collateral.
    pub lender_collateral_token_account: Identity,
}

/// The outcome of an operation that was not refused on its own grounds: the
/// holdings after its transfers, or the ledger's refusal under the same name.
pub open spec fn carried_out(
    holdings: Map<Identity, Holding>,
    refusal: Option<NftLendingError>,
    orders: Seq<Transfer>,
) -> Result<Map<Identity, Holding>, NftLendingError> {
    match refusal {
        Some(error) => Err(error),
        None => match run_transfers(holdings, orders) {
            Ok(after) => Ok(after),
            Err(refused) => Err(NftLendingError::of_ledger(refused)),
        },
    }
}

/// Why an agreement cannot be opened on these amounts, if it cannot.
pub open spec fn opening_refusal(loan_amount: u64, collateral_amount: u64) -> Option<
    NftLendingError,
> {
    if loan_amount == 0 {
        Some(NftLendingError::LoanCannotBeZero)
    } else if collateral_amount == 0 {
        Some(NftLendingError::CollateralCannotBeZero)
    } else {
        None
    }
}

/// The agreement that opening creates: the given terms, not yet funded.
pub open spec fn opened_agreement(
    ctx: Initialize,
    loan_amount: u64,
    collateral_amount: u64,
    deadline: i64,
    lender: Option<Identity>,
) -> AgreementState {
    AgreementState {
        custody: ctx.custody@,
        borrower: ctx.borrower,
        lender,
        loan_amount,
        collateral_amount,
        deadline,
        funded: false,
    }
}

/// The transfer of opening: the collateral goes from the borrower's account
/// into the vault that waits for a lender, on the borrower's word.
pub open spec fn opening_orders(ctx: Initialize, collateral_amount: u64) -> Seq<Transfer> {
    seq![
        Transfer {
            from: ctx.borrower_token_account,
            to: ctx.custody@.nft_vault,
            authority: ctx.borrower,
            amount: collateral_amount,
        },
    ]
}

/// The agreement and the holdings after opening, or why it failed.
pub open spec fn open_outcome(
    ctx: Initialize,
    holdings: Map<Identity, Holding>,
    loan_amount: u64,
    collateral_amount: u64,
    deadline: i64,
    lender: Option<Identity>,
) -> Result<(AgreementState, Map<Identity, Holding>), NftLendingError> {
    match carried_out(
        holdings,
        opening_refusal(loan_amount, collateral_amount),
        opening_orders(ctx, collateral_amount),
    ) {
        Ok(after) => Ok(
            (opened_agreement(ctx, loan_amount, collateral_amount, deadline, lender), after),
        ),
        Err(error) => Err(error),
    }
}

/// Why the caller cannot fund the agreement, if they cannot. A lender named
/// by the agreement shuts everyone else out; after that the agreement must
/// be unfunded and must be what the caller expects, in its collateral and in
/// what the waiting vault holds.
pub open spec fn funding_refusal(
    agreement: AgreementState,
    ctx: Lender,
    expected_collateral: u64,
    expected_vault_balance: u64,
    vault_balance: nat,
) -> Option<NftLendingError> {
    if agreement.lender is Some && agreement.lender != Some(ctx.lender) {
        Some(NftLendingError::IncorrectBorrower)
    } else if agreement.funded || expected_collateral != agreement.collateral_amount
        || expected_vault_balance != vault_balance {
        Some(NftLendingError::UnexpectedLoanAgreement)
    } else {
        None
    }
}

/// The transfers of funding: the collateral moves from the waiting vault
/// into the locked account on the custodian's word, then the principal
/// moves from the lender to the borrower on the lender's word.
pub open spec fn funding_orders(agreement: AgreementState, ctx: Lender) -> Seq<Transfer> {
    seq![
        Transfer {
            from: agreement.custody.nft_vault,
            to: agreement.custody.collateral,
            authority: agreement.custody.authority,
            amount: agreement.collateral_amount,
        },
        Transfer {
            from: ctx.lender_token_account,
            to: ctx.borrower_loan_token_account,
            authority: ctx.lender,
            amount: agreement.loan_amount,
        },
    ]
}

/// The agreement after funding: funded, with the caller as its lender.
pub open spec fn funded_agreement(agreement: AgreementState, ctx: Lender) -> AgreementState {
    AgreementState { lender: Some(ctx.lender), funded: true, ..agreement }
}

/// The agreement and the holdings after funding, or why it failed.
pub open spec fn fund_outcome(
    agreement: AgreementState,
    ctx: Lender,
    holdings: Map<Identity, Holding>,
    expected_collateral: u64,
    expected_vault_balance: u64,
) -> Result<(AgreementState, Map<Identity, Holding>), NftLendingError> {
    match carried_out(
        holdings,
        funding_refusal(
            agreement,
            ctx,
            expected_collateral,
            expected_vault_balance,
            balance(holdings, agreement.custody.nft_vault),
        ),
        funding_orders(agreement, ctx),
    ) {
        Ok(after) => Ok((funded_agreement(agreement, ctx), after)),
        Err(error) => Err(error),
    }
}

/// Why the caller cannot repay, if they cannot: only the borrower repays,
/// and only a funded agreement.
pub open spec fn repayment_refusal(agreement: AgreementState, ctx: Repay) -> Option<
    NftLendingError,
> {
    if ctx.borrower != agreement.borrower {
        Some(NftLendingError::Unauthorized)
    } else if !agreement.funded {
        Some(NftLendingError::UnexpectedLoanAgreement)
    } else {
        None
    }
}

/// The transfers of repaying: the principal moves from the borrower into the
/// vault on the borrower's word, then all that the locked account holds
/// moves back to the borrower on the custodian's word.
pub open spec fn repayment_orders(agreement: AgreementState, ctx: Repay, collateral_balance: u64)
    -> Seq<Transfer> {
    seq![
        Transfer {
            from: ctx.borrower_loan_token_account,
            to: agreement.custody.vault,
            authority: ctx.borrower,
            amount: agreement.loan_amount,
        },
        Transfer {
            from: agreement.custody.collateral,
            to: ctx.borrower_collateral_token_account,
            authority: agreement.custody.authority,
            amount: collateral_balance,
        },
    ]
}

/// The holdings after repaying, or why it failed. The agreement stays as it
/// is either way.
pub open spec fn repay_outcome(
    agreement: AgreementState,
    ctx: Repay,
    holdings: Map<Identity, Holding>,
) -> Result<Map<Identity, Holding>, NftLendingError> {
    carried_out(
        holdings,
        repayment_refusal(agreement, ctx),
        repayment_orders(
            agreement,
            ctx,
            balance(holdings, agreement.custody.collateral) as u64,
        ),
    )
}

/// Why the caller cannot close the agreement out, if they cannot. While
/// collateral is out on loan it cannot be taken before the deadline; apart
/// from that, an agreement with a lender is closed by that lender only.
pub open spec fn settlement_refusal(
    agreement: AgreementState,
    ctx: Close,
    collateral_balance: nat,
    now: i64,
) -> Option<NftLendingError> {
    if agreement.funded && collateral_balance > 0 && now < agreement.deadline {
        Some(NftLendingError::DefaultAtIsNotReached)
    } else if agreement.lender is Some && agreement.lender != Some(ctx.lender) {
        Some(NftLendingError::Unauthorized)
    } else {
        None
    }
}

/// The transfers of closing: all that the locked account holds and all that
/// the vault holds move to the lender, both on the custodian's word.
pub open spec fn settlement_orders(
    agreement: AgreementState,
    ctx: Close,
    collateral_balance: u64,
    vault_balance: u64,
) -> Seq<Transfer> {
    seq![
        Transfer {
            from: agreement.custody.collateral,
            to: ctx.lender_collateral_token_account,
            authority: agreement.custody.authority,
            amount: collateral_balance,
        },
        Transfer {
            from: agreement.custody.vault,
            to: ctx.lender_loan_token_account,
            authority: agreement.custody.authority,
            amount: vault_balance,
        },
    ]
}

/// The holdings after closing at the time `now`, or why it failed.
pub open spec fn close_outcome(
    agreement: AgreementState,
    ctx: Close,
    holdings: Map<Identity, Holding>,
    now: i64,
) -> Result<Map<Identity, Holding>, NftLendingError> {
    carried_out(
        holdings,
        settlement_refusal(agreement, ctx, balance(holdings, agreement.custody.collateral), now),
        settlement_orders(
            agreement,
            ctx,
            balance(holdings, agreement.custody.collateral) as u64,
            balance(holdings, agreement.custody.vault) as u64,
        ),
    )
}

/// Decides on the opening of an agreement: the new record and the transfer
/// to ask for, or the refusal.
pub fn plan_initialize(
    ctx: &Initialize,
    loan_amount: u64,
    collateral_amount: u64,
    deadline: i64,
    lender: Option<Identity>,
) -> (plan: Result<(LoanAgreement, Vec<Transfer>), NftLendingError>)
    ensures
        match opening_refusal(loan_amount, collateral_amount) {
            Some(error) => plan matches Err(e) && e == error,
            None => plan matches Ok(p) && p.0@ == opened_agreement(
                *ctx,
                loan_amount,
                collateral_amount,
                deadline,
                lender,
            ) && p.0@.wf() && p.1@ == opening_orders(*ctx, collateral_amount),
        },
{
    if loan_amount == 0 {
        return Err(NftLendingError::LoanCannotBeZero);
    }
    if collateral_amount == 0 {
        return Err(NftLendingError::CollateralCannotBeZero);
    }
    let custody = ctx.custody.accounts();
    let agreement = LoanAgreement::opened(
        &ctx.custody,
        ctx.borrower,
        lender,
        loan_amount,
        collateral_amount,
        deadline,
    );
    let mut orders: Vec<Transfer> = Vec::new();
    orders.push(
        Transfer {
            from: ctx.borrower_token_account,
            to: custody.nft_vault,
            authority: ctx.borrower,
            amount: collateral_amount,
        },
    );
    assert(orders@ =~= opening_orders(*ctx, collateral_amount));
    Ok((agreement, orders))
}

/// Decides on the funding of an agreement, given what the waiting vault
/// holds: the record as it will be and the transfers to ask for, or the
/// refusal.
pub fn plan_lender(
    ctx: &Lender,
    agreement: &LoanAgreement,
    expected_collateral: u64,
    expected_vault_balance: u64,
    vault_balance: u64,
) -> (plan: Result<(LoanAgreement, Vec<Transfer>), NftLendingError>)
    ensures
        match funding_refusal(
            agreement@,
            *ctx,
            expected_collateral,
            expected_vault_balance,
            vault_balance as nat,
        ) {
            Some(error) => plan matches Err(e) && e == error,
            None => plan matches Ok(p) && p.0@ == funded_agreement(agreement@, *ctx) && p.0@.wf()
                && p.1@ == funding_orders(agreement@, *ctx),
        },
{
    let state = agreement.state();
    match state.lender {
        Some(named) => {
            if !(named == ctx.lender) {
                return Err(NftLendingError::IncorrectBorrower);
            }
        },
        None => {},
    }
    if state.funded || expected_collateral != state.collateral_amount || expected_vault_balance
        != vault_balance {
        return Err(NftLendingError::UnexpectedLoanAgreement);
    }
    let next = agreement.funded_by(ctx.lender);
    let mut orders: Vec<Transfer> = Vec::new();
    orders.push(
        Transfer {
            from: state.custody.nft_vault,
            to: state.custody.collateral,
            authority: state.custody.authority,
            amount: state.collateral_amount,
        },
    );
    orders.push(
        Transfer {
            from: ctx.lender_token_account,
            to: ctx.borrower_loan_token_account,
            authority: ctx.lender,
            amount: state.loan_amount,
        },
    );
    assert(orders@ =~= funding_orders(agreement@, *ctx));
    Ok((next, orders))
}

/// Decides on a repayment, given what the locked account holds: the
/// transfers to ask for, or the refusal.
pub fn plan_repay(ctx: &Repay, agreement: &LoanAgreement, collateral_balance: u64) -> (plan:
    Result<Vec<Transfer>, NftLendingError>)
    ensures
        match repayment_refusal(agreement@, *ctx) {
            Some(error) => plan matches Err(e) && e == error,
            None => plan matches Ok(orders) && orders@ == repayment_orders(
                agreement@,
                *ctx,
                collateral_balance,
            ),
        },
{
    let state = agreement.state();
    if !(ctx.borrower == state.borrower) {
        return Err(NftLendingError::Unauthorized);
    }
    if !state.funded {
        return Err(NftLendingError::UnexpectedLoanAgreement);
    }
    let mut orders: Vec<Transfer> = Vec::new();
    orders.push(
        Transfer {
            from: ctx.borrower_loan_token_account,
            to: state.custody.vault,
            authority: ctx.borrower,
            amount: state.loan_amount,
        },
    );
    orders.push(
        Transfer {
            from: state.custody.collateral,
            to: ctx.borrower_collateral_token_account,
            authority: state.custody.authority,
            amount: collateral_balance,
        },
    );
    assert(orders@ =~= repayment_orders(agreement@, *ctx, collateral_balance));
    Ok(orders)
}

/// Decides on the closing of an agreement at the time `now`, given what the
/// locked account and the vault hold: the transfers to ask for, or the
/// refusal.
pub fn plan_close(
    ctx: &Close,
    agreement: &LoanAgreement,
    collateral_balance: u64,
    vault_balance: u64,
    now: i64,
) -> (plan: Result<Vec<Transfer>, NftLendingError>)
    ensures
        match settlement_refusal(agreement@, *ctx, collateral_balance as nat, now) {
            Some(error) => plan matches Err(e) && e == error,
            None => plan matches Ok(orders) && orders@ == settlement_orders(
                agreement@,
                *ctx,
                collateral_balance,
                vault_balance,
            ),
        },
{
    let state = agreement.state();
    if state.funded && collateral_balance > 0 && now < state.deadline {
        return Err(NftLendingError::DefaultAtIsNotReached);
    }
    match state.lender {
        Some(named) => {
            if !(named == ctx.lender) {
                return Err(NftLendingError::Unauthorized);
            }
        },
        None => {},
    }
    let mut orders: Vec<Transfer> = Vec::new();
    orders.push(
        Transfer {
            from: state.custody.collateral,
            to: ctx.lender_collateral_token_account,
            authority: state.custody.authority,
            amount: collateral_balance,
        },
    );
    orders.push(
        Transfer {
            from: state.custody.vault,
            to: ctx.lender_loan_token_account,
            authority: state.custody.authority,
            amount: vault_balance,
        },
    );
    assert(orders@ =~= settlement_orders(agreement@, *ctx, collateral_balance, vault_balance));
    Ok(orders)
}

/// Opens an agreement: the borrower's collateral moves into custody and the
/// record of the agreement is created, unfunded. On failure nothing moves.
pub fn initialize(
    ctx: &Initialize,
    ledger: &mut Ledger,
    loan_amount: u64,
    collateral_amount: u64,
    deadline: i64,
    lender: Option<Identity>,
) -> (opened: Result<LoanAgreement, NftLendingError>)
    ensures
        match open_outcome(
            *ctx,
            old(ledger)@,
            loan_amount,
            collateral_amount,
            deadline,
            lender,
        ) {
            Ok(outcome) => opened matches Ok(agreement) && agreement@ == outcome.0
                && agreement@.wf() && final(ledger)@ == outcome.1,
            Err(error) => opened matches Err(e) && e == error && final(ledger)@ == old(ledger)@,
        },
        loan_amount == 0 ==> (opened matches Err(e) && e == NftLendingError::LoanCannotBeZero),
        loan_amount != 0 && collateral_amount == 0 ==> (opened matches Err(e) && e
            == NftLendingError::CollateralCannotBeZero),
        final(ledger).total_supply() == old(ledger).total_supply(),
{
    match plan_initialize(ctx, loan_amount, collateral_amount, deadline, lender) {
        Err(error) => Err(error),
        Ok((agreement, orders)) => match ledger.execute(&orders) {
            Ok(()) => Ok(agreement),
            Err(refused) => Err(NftLendingError::from_ledger(refused)),
        },
    }
}

/// Funds an agreement: the collateral is locked, the principal goes to the
/// borrower, and the agreement becomes funded with the caller as its
/// lender. On failure nothing moves and the agreement stays as it was.
pub fn lender(
    ctx: &Lender,
    agreement: &mut LoanAgreement,
    ledger: &mut Ledger,
    expected_collateral: u64,
    expected_vault_balance: u64,
) -> (funded: Result<(), NftLendingError>)
    ensures
        match fund_outcome(
            old(agreement)@,
            *ctx,
            old(ledger)@,
            expected_collateral,
            expected_vault_balance,
        ) {
            Ok(outcome) => funded is Ok && final(agreement)@ == outcome.0 && final(ledger)@
                == outcome.1,
            Err(error) => funded == Err::<(), NftLendingError>(error) && final(agreement)@ == old(
                agreement,
            )@ && final(ledger)@ == old(ledger)@,
        },
        final(agreement)@.same_terms(old(agreement)@),
        final(agreement)@.wf(),
        old(agreement)@.funded ==> funded is Err && final(ledger)@ == old(ledger)@,
        old(agreement)@.funded ==> final(agreement)@.funded,
        old(agreement)@.lender is Some && old(agreement)@.lender != Some(ctx.lender) ==> funded
            == Err::<(), NftLendingError>(NftLendingError::IncorrectBorrower),
        old(agreement)@.lender is Some ==> final(agreement)@.lender == old(agreement)@.lender,
        funded is Ok ==> !old(agreement)@.funded && final(agreement)@.funded,
        funded is Ok ==> final(agreement)@.lender == Some(ctx.lender),
        final(ledger).total_supply() == old(ledger).total_supply(),
{
    let vault_balance = ledger.balance_of(&agreement.state().custody.nft_vault);
    match plan_lender(ctx, agreement, expected_collateral, expected_vault_balance, vault_balance) {
        Err(error) => Err(error),
        Ok((next, orders)) => match ledger.execute(&orders) {
            Ok(()) => {
                *agreement = next;
                Ok(())
            },
            Err(refused) => Err(NftLendingError::from_ledger(refused)),
        },
    }
}

/// Repays a loan: the principal moves into the vault and the borrower gets
/// back what the locked account holds. On failure nothing moves.
pub fn repay(ctx: &Repay, agreement: &LoanAgreement, ledger: &mut Ledger) -> (repaid: Result<
    (),
    NftLendingError,
>)
    ensures
        match repay_outcome(agreement@, *ctx, old(ledger)@) {
            Ok(after) => repaid is Ok && final(ledger)@ == after,
            Err(error) => repaid == Err::<(), NftLendingError>(error) && final(ledger)@ == old(
                ledger,
            )@,
        },
        final(ledger).total_supply() == old(ledger).total_supply(),
{
    let collateral_balance = ledger.balance_of(&agreement.state().custody.collateral);
    match plan_repay(ctx, agreement, collateral_balance) {
        Err(error) => Err(error),
        Ok(orders) => match ledger.execute(&orders) {
            Ok(()) => Ok(()),
            Err(refused) => Err(NftLendingError::from_ledger(refused)),
        },
    }
}

/// Closes an agreement out at the time `now`: the lender receives all that
/// the locked account and the vault hold at that moment. On failure nothing
/// moves.
pub fn close(ctx: &Close, agreement: &LoanAgreement, ledger: &mut Ledger, now: i64) -> (closed:
    Result<(), NftLendingError>)
    ensures
        match close_outcome(agreement@, *ctx, old(ledger)@, now) {
            Ok(after) => closed is Ok && final(ledger)@ == after,
            Err(error) => closed == Err::<(), NftLendingError>(error) && final(ledger)@ == old(
                ledger,
            )@,
        },
        agreement@.funded && balance(old(ledger)@, agreement@.custody.collateral) > 0 && now
            < agreement@.deadline ==> closed == Err::<(), NftLendingError>(
            NftLendingError::DefaultAtIsNotReached,
        ),
        final(ledger).total_supply() == old(ledger).total_supply(),
{
    let state = agreement.state();
    let collateral_balance = ledger.balance_of(&state.custody.collateral);
    let vault_balance = ledger.balance_of(&state.custody.vault);
    match plan_close(ctx, agreement, collateral_balance, vault_balance, now) {
        Err(error) => Err(error),
        Ok(orders) => match ledger.execute(&orders) {
            Ok(()) => Ok(()),
            Err(refused) => Err(NftLendingError::from_ledger(refused)),
        },
    }
}

} // verus!
