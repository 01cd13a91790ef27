//! What holds of every agreement, whatever is done with it.
//!
//! The laws speak of the outcomes of the operations, which are what the
//! operations themselves promise to bring about.

use vstd::prelude::*;
use crate::agreement::AgreementState;
use crate::error::NftLendingError;
use crate::identity::Identity;
use crate::ledger::{
    after_transfer, balance, lemma_run_one, lemma_run_two, lemma_transfer_moves, transfer_refusal,
    Holding, Transfer,
};
use crate::lifecycle::{
    close_outcome, fund_outcome, funding_orders, open_outcome, opening_orders, repay_outcome,
    repayment_orders, settlement_orders, Close, Initialize, Lender, Repay,
};

verus! {

/// Something that a party may attempt on an open agreement.
pub enum Operation {
    Fund { funding: Lender, expected_collateral: u64, expected_vault_balance: u64 },
    Repay { repayment: Repay },
    Settle { closing: Close, now: i64 },
}

/// An agreement together with the holdings of the ledger.
pub struct Escrow {
    pub agreement: AgreementState,
    pub holdings: Map<Identity, Holding>,
}

/// The escrow after one attempt. A failed attempt leaves it as it was.
pub open spec fn step(before: Escrow, attempt: Operation) -> Escrow {
    match attempt {
        Operation::Fund { funding, expected_collateral, expected_vault_balance } => match fund_outcome(
            before.agreement,
            funding,
            before.holdings,
            expected_collateral,
            expected_vault_balance,
        ) {
            Ok(outcome) => Escrow { agreement: outcome.0, holdings: outcome.1 },
            Err(_) => before,
        },
        Operation::Repay { repayment } => match repay_outcome(
            before.agreement,
            repayment,
            before.holdings,
        ) {
            Ok(after) => Escrow { agreement: before.agreement, holdings: after },
            Err(_) => before,
        },
        Operation::Settle { closing, now } => match close_outcome(
            before.agreement,
            closing,
            before.holdings,
            now,
        ) {
            Ok(after) => Escrow { agreement: before.agreement, holdings: after },
            Err(_) => before,
        },
    }
}

/// The escrow after a series of attempts, made one after the other.
pub open spec fn run(before: Escrow, attempts: Seq<Operation>) -> Escrow
    decreases attempts.len(),
{
    if attempts.len() == 0 {
        before
    } else {
        step(run(before, attempts.drop_last()), attempts.last())
    }
}

/// Opening fixes the terms: the agreement that comes out of a successful
/// opening has the amounts, the deadline and the lender restriction that
/// were asked for, both amounts positive, the caller as its borrower, and is
/// not funded. After any series of attempts on it the amounts are still the
/// ones that it was opened with.
pub proof fn lemma_terms_hold_from_opening(
    opening: Initialize,
    holdings: Map<Identity, Holding>,
    loan_amount: u64,
    collateral_amount: u64,
    deadline: i64,
    named: Option<Identity>,
    opened: Escrow,
    attempts: Seq<Operation>,
)
    requires
        open_outcome(opening, holdings, loan_amount, collateral_amount, deadline, named) == Ok::<
            (AgreementState, Map<Identity, Holding>),
            NftLendingError,
        >((opened.agreement, opened.holdings)),
    ensures
        loan_amount > 0 && collateral_amount > 0,
        opened.agreement.loan_amount == loan_amount,
        opened.agreement.collateral_amount == collateral_amount,
        opened.agreement.deadline == deadline,
        opened.agreement.lender == named,
        opened.agreement.borrower == opening.borrower,
        !opened.agreement.funded,
        run(opened, attempts).agreement.loan_amount == loan_amount,
        run(opened, attempts).agreement.collateral_amount == collateral_amount,
        run(opened, attempts).agreement.deadline == deadline,
        run(opened, attempts).agreement.borrower == opening.borrower,
        named is Some ==> run(opened, attempts).agreement.lender == named,
{
    lemma_terms_never_change(opened, attempts);
    lemma_funding_is_final(opened, attempts);
}

/// The terms of an agreement never change: after any series of attempts the
/// loan amount, the collateral amount, the deadline, the borrower and the
/// custody are what they were, and the agreement is still well formed.
pub proof fn lemma_terms_never_change(start: Escrow, attempts: Seq<Operation>)
    ensures
        run(start, attempts).agreement.same_terms(start.agreement),
        run(start, attempts).agreement.loan_amount == start.agreement.loan_amount,
        run(start, attempts).agreement.collateral_amount == start.agreement.collateral_amount,
        start.agreement.wf() ==> run(start, attempts).agreement.wf(),
    decreases attempts.len(),
{
    if attempts.len() > 0 {
        lemma_terms_never_change(start, attempts.drop_last());
    }
}

/// Funding is for good: a funded agreement stays funded, and an agreement
/// that has a lender keeps that lender, through any series of attempts.
pub proof fn lemma_funding_is_final(start: Escrow, attempts: Seq<Operation>)
    ensures
        start.agreement.funded ==> run(start, attempts).agreement.funded,
        start.agreement.lender is Some ==> run(start, attempts).agreement.lender
            == start.agreement.lender,
    decreases attempts.len(),
{
    if attempts.len() > 0 {
        lemma_funding_is_final(start, attempts.drop_last());
    }
}

/// An agreement is funded at most once: after a funding that succeeded, and
/// after whatever was attempted since, every further funding fails, moves
/// nothing and leaves the agreement as it is.
pub proof fn lemma_no_second_funding(
    start: Escrow,
    first: Operation,
    between: Seq<Operation>,
    second: Operation,
)
    requires
        first is Fund,
        second is Fund,
        fund_outcome(
            start.agreement,
            first->funding,
            start.holdings,
            first->expected_collateral,
            first->expected_vault_balance,
        ) is Ok,
    ensures
        fund_outcome(
            run(step(start, first), between).agreement,
            second->funding,
            run(step(start, first), between).holdings,
            second->expected_collateral,
            second->expected_vault_balance,
        ) is Err,
        step(run(step(start, first), between), second) == run(step(start, first), between),
{
    lemma_funding_is_final(step(start, first), between);
}

/// Whatever the state of the ledger, an agreement that is funded already
/// cannot be funded.
pub proof fn lemma_funded_refuses_funding(
    agreement: AgreementState,
    ctx: Lender,
    holdings: Map<Identity, Holding>,
    expected_collateral: u64,
    expected_vault_balance: u64,
)
    requires
        agreement.funded,
    ensures
        fund_outcome(agreement, ctx, holdings, expected_collateral, expected_vault_balance) is Err,
{
}

/// Where an agreement names its lender, every other caller is turned away
/// as an incorrect party, and whoever funds it is the lender it names. This
/// still holds after any series of attempts on the agreement.
pub proof fn lemma_named_lender_alone_funds(
    start: Escrow,
    attempts: Seq<Operation>,
    ctx: Lender,
    expected_collateral: u64,
    expected_vault_balance: u64,
)
    requires
        start.agreement.lender is Some,
    ensures
        Some(ctx.lender) != start.agreement.lender ==> fund_outcome(
            run(start, attempts).agreement,
            ctx,
            run(start, attempts).holdings,
            expected_collateral,
            expected_vault_balance,
        ) == Err::<(AgreementState, Map<Identity, Holding>), NftLendingError>(
            NftLendingError::IncorrectBorrower,
        ),
        fund_outcome(
            run(start, attempts).agreement,
            ctx,
            run(start, attempts).holdings,
            expected_collateral,
            expected_vault_balance,
        ) is Ok ==> Some(ctx.lender) == start.agreement.lender,
{
    lemma_funding_is_final(start, attempts);
}

/// While collateral is out on loan, nobody can close the agreement out
/// before the deadline.
pub proof fn lemma_no_seizure_before_deadline(
    agreement: AgreementState,
    ctx: Close,
    holdings: Map<Identity, Holding>,
    now: i64,
)
    requires
        agreement.funded,
        balance(holdings, agreement.custody.collateral) > 0,
        now < agreement.deadline,
    ensures
        close_outcome(agreement, ctx, holdings, now) == Err::<
            Map<Identity, Holding>,
            NftLendingError,
        >(NftLendingError::DefaultAtIsNotReached),
{
}

/// The custody accounts that closing draws on exist, belong to the
/// custodian and hold amounts of 64 bits, and the two accounts that receive
/// exist.
pub open spec fn ready_to_settle(
    agreement: AgreementState,
    ctx: Close,
    holdings: Map<Identity, Holding>,
) -> bool {
    &&& holdings.dom().contains(agreement.custody.collateral)
    &&& holdings.dom().contains(agreement.custody.vault)
    &&& holdings[agreement.custody.collateral].owner == agreement.custody.authority
    &&& holdings[agreement.custody.vault].owner == agreement.custody.authority
    &&& holdings[agreement.custody.collateral].amount <= u64::MAX
    &&& holdings[agreement.custody.vault].amount <= u64::MAX
    &&& holdings.dom().contains(ctx.lender_collateral_token_account)
    &&& holdings.dom().contains(ctx.lender_loan_token_account)
}

/// The accounts of a closing are four different accounts.
pub open spec fn settles_apart(agreement: AgreementState, ctx: Close) -> bool {
    &&& agreement.custody.collateral != agreement.custody.vault
    &&& ctx.lender_collateral_token_account != ctx.lender_loan_token_account
    &&& ctx.lender_collateral_token_account != agreement.custody.collateral
    &&& ctx.lender_collateral_token_account != agreement.custody.vault
    &&& ctx.lender_loan_token_account != agreement.custody.collateral
    &&& ctx.lender_loan_token_account != agreement.custody.vault
}

/// From the deadline on, and at any time when no collateral is out on loan,
/// the lender's closing succeeds and moves exactly what the locked account
/// and the vault held at that moment: both are emptied into the lender's
/// accounts.
pub proof fn lemma_settlement_takes_what_custody_holds(
    agreement: AgreementState,
    ctx: Close,
    holdings: Map<Identity, Holding>,
    now: i64,
)
    requires
        agreement.wf(),
        !agreement.funded || balance(holdings, agreement.custody.collateral) == 0 || now
            >= agreement.deadline,
        agreement.lender is Some ==> agreement.lender == Some(ctx.lender),
        ready_to_settle(agreement, ctx, holdings),
    ensures
        close_outcome(agreement, ctx, holdings, now) matches Ok(after) && {
            &&& after == after_transfer(
                after_transfer(
                    holdings,
                    Transfer {
                        from: agreement.custody.collateral,
                        to: ctx.lender_collateral_token_account,
                        authority: agreement.custody.authority,
                        amount: balance(holdings, agreement.custody.collateral) as u64,
                    },
                ),
                Transfer {
                    from: agreement.custody.vault,
                    to: ctx.lender_loan_token_account,
                    authority: agreement.custody.authority,
                    amount: balance(holdings, agreement.custody.vault) as u64,
                },
            )
            &&& settles_apart(agreement, ctx) ==> {
                &&& balance(after, agreement.custody.collateral) == 0
                &&& balance(after, agreement.custody.vault) == 0
                &&& balance(after, ctx.lender_collateral_token_account) == balance(
                    holdings,
                    ctx.lender_collateral_token_account,
                ) + balance(holdings, agreement.custody.collateral)
                &&& balance(after, ctx.lender_loan_token_account) == balance(
                    holdings,
                    ctx.lender_loan_token_account,
                ) + balance(holdings, agreement.custody.vault)
            }
        },
{
    let orders = settlement_orders(
        agreement,
        ctx,
        balance(holdings, agreement.custody.collateral) as u64,
        balance(holdings, agreement.custody.vault) as u64,
    );
    lemma_run_two(holdings, orders[0], orders[1]);
    assert(orders =~= seq![orders[0], orders[1]]);
    assert(transfer_refusal(holdings, orders[0]) is None);
    assert(transfer_refusal(after_transfer(holdings, orders[0]), orders[1]) is None);
}

/// No two of the accounts are the same account.
pub open spec fn apart(accounts: Seq<Identity>) -> bool {
    forall|i: int, j: int| 0 <= i < j < accounts.len() ==> accounts[i] != accounts[j]
}

/// A repayment followed at once by the lender's closing: the borrower has
/// received back exactly what the locked account held, and the lender
/// receives exactly the loan amount on top of what the vault held. Where
/// the locked account held the collateral of the agreement and the vault was
/// empty, these are the collateral amount and the loan amount; the lender
/// receives no collateral, and custody is left empty.
pub proof fn lemma_repay_then_settle(
    agreement: AgreementState,
    repayment: Repay,
    closing: Close,
    before: Map<Identity, Holding>,
    repaid: Map<Identity, Holding>,
    settled: Map<Identity, Holding>,
    now: i64,
)
    requires
        agreement.wf(),
        balance(before, agreement.custody.collateral) <= u64::MAX,
        balance(before, agreement.custody.vault) + agreement.loan_amount <= u64::MAX,
        apart(
            seq![
                repayment.borrower_loan_token_account,
                repayment.borrower_collateral_token_account,
                closing.lender_loan_token_account,
                closing.lender_collateral_token_account,
                agreement.custody.vault,
                agreement.custody.collateral,
            ],
        ),
        repay_outcome(agreement, repayment, before) == Ok::<
            Map<Identity, Holding>,
            NftLendingError,
        >(repaid),
        close_outcome(agreement, closing, repaid, now) == Ok::<
            Map<Identity, Holding>,
            NftLendingError,
        >(settled),
    ensures
        balance(repaid, repayment.borrower_collateral_token_account) == balance(
            before,
            repayment.borrower_collateral_token_account,
        ) + balance(before, agreement.custody.collateral),
        balance(repaid, repayment.borrower_loan_token_account) == balance(
            before,
            repayment.borrower_loan_token_account,
        ) - agreement.loan_amount,
        balance(settled, closing.lender_loan_token_account) == balance(
            before,
            closing.lender_loan_token_account,
        ) + balance(before, agreement.custody.vault) + agreement.loan_amount,
        balance(settled, closing.lender_collateral_token_account) == balance(
            before,
            closing.lender_collateral_token_account,
        ),
        balance(settled, repayment.borrower_collateral_token_account) == balance(
            repaid,
            repayment.borrower_collateral_token_account,
        ),
        balance(repaid, agreement.custody.collateral) == 0,
        balance(repaid, agreement.custody.vault) == balance(before, agreement.custody.vault)
            + agreement.loan_amount,
        balance(repaid, closing.lender_loan_token_account) == balance(
            before,
            closing.lender_loan_token_account,
        ),
        balance(repaid, closing.lender_collateral_token_account) == balance(
            before,
            closing.lender_collateral_token_account,
        ),
        balance(settled, agreement.custody.collateral) == 0,
        balance(settled, agreement.custody.vault) == 0,
        balance(settled, repayment.borrower_loan_token_account) == balance(
            repaid,
            repayment.borrower_loan_token_account,
        ),
        forall|account: Identity|
            account != repayment.borrower_loan_token_account && account
                != repayment.borrower_collateral_token_account && account
                != agreement.custody.vault && account != agreement.custody.collateral
                ==> #[trigger] balance(repaid, account) == balance(before, account),
        forall|account: Identity|
            account != repayment.borrower_loan_token_account && account
                != repayment.borrower_collateral_token_account && account
                != closing.lender_loan_token_account && account
                != closing.lender_collateral_token_account && account != agreement.custody.vault
                && account != agreement.custody.collateral ==> #[trigger] balance(settled, account)
                == balance(before, account),
{
    let accounts = seq![
        repayment.borrower_loan_token_account,
        repayment.borrower_collateral_token_account,
        closing.lender_loan_token_account,
        closing.lender_collateral_token_account,
        agreement.custody.vault,
        agreement.custody.collateral,
    ];
    assert(accounts[0] != accounts[1] && accounts[0] != accounts[2] && accounts[0] != accounts[3]
        && accounts[0] != accounts[4] && accounts[0] != accounts[5]);
    assert(accounts[1] != accounts[2] && accounts[1] != accounts[3] && accounts[1] != accounts[4]
        && accounts[1] != accounts[5]);
    assert(accounts[2] != accounts[3] && accounts[2] != accounts[4] && accounts[2] != accounts[5]);
    assert(accounts[3] != accounts[4] && accounts[3] != accounts[5]);
    assert(accounts[4] != accounts[5]);

    let pay = repayment_orders(
        agreement,
        repayment,
        balance(before, agreement.custody.collateral) as u64,
    );
    assert(pay =~= seq![pay[0], pay[1]]);
    lemma_run_two(before, pay[0], pay[1]);
    let paid = after_transfer(before, pay[0]);
    lemma_transfer_moves(before, pay[0]);
    lemma_transfer_moves(paid, pay[1]);
    assert(repaid == after_transfer(paid, pay[1]));

    let take = settlement_orders(
        agreement,
        closing,
        balance(repaid, agreement.custody.collateral) as u64,
        balance(repaid, agreement.custody.vault) as u64,
    );
    assert(take =~= seq![take[0], take[1]]);
    lemma_run_two(repaid, take[0], take[1]);
    let taken = after_transfer(repaid, take[0]);
    lemma_transfer_moves(repaid, take[0]);
    lemma_transfer_moves(taken, take[1]);
    assert(settled == after_transfer(taken, take[1]));
}

/// The collateral that the borrower, the lender and custody hold together.
pub open spec fn collateral_in_play(
    holdings: Map<Identity, Holding>,
    agreement: AgreementState,
    borrower_collateral: Identity,
    lender_collateral: Identity,
) -> nat {
    balance(holdings, borrower_collateral) + balance(holdings, agreement.custody.nft_vault)
        + balance(holdings, agreement.custody.collateral) + balance(holdings, lender_collateral)
}

/// The principal that the borrower, the lender and custody hold together.
pub open spec fn principal_in_play(
    holdings: Map<Identity, Holding>,
    agreement: AgreementState,
    borrower_principal: Identity,
    lender_principal: Identity,
) -> nat {
    balance(holdings, borrower_principal) + balance(holdings, lender_principal) + balance(
        holdings,
        agreement.custody.vault,
    )
}

/// The collateral that custody holds for an agreement.
pub open spec fn collateral_in_custody(
    holdings: Map<Identity, Holding>,
    agreement: AgreementState,
) -> nat {
    balance(holdings, agreement.custody.nft_vault) + balance(
        holdings,
        agreement.custody.collateral,
    )
}

/// An agreement that is opened on empty custody accounts, funded, repaid
/// and closed, each party using one account for the collateral and one for
/// the principal: at every stage the collateral in play and the principal
/// in play are what they were at the start; custody holds the whole
/// collateral from the opening until the repayment and none of it after;
/// and in the end every account holds what it held at the start.
pub proof fn lemma_cycle_conserves(
    opening: Initialize,
    funding: Lender,
    repayment: Repay,
    closing: Close,
    loan_amount: u64,
    collateral_amount: u64,
    deadline: i64,
    named: Option<Identity>,
    expected_collateral: u64,
    expected_vault_balance: u64,
    now: i64,
    start: Map<Identity, Holding>,
    opened: (AgreementState, Map<Identity, Holding>),
    funded: (AgreementState, Map<Identity, Holding>),
    repaid: Map<Identity, Holding>,
    settled: Map<Identity, Holding>,
)
    requires
        open_outcome(opening, start, loan_amount, collateral_amount, deadline, named) == Ok::<
            (AgreementState, Map<Identity, Holding>),
            NftLendingError,
        >(opened),
        fund_outcome(opened.0, funding, opened.1, expected_collateral, expected_vault_balance)
            == Ok::<(AgreementState, Map<Identity, Holding>), NftLendingError>(funded),
        repay_outcome(funded.0, repayment, funded.1) == Ok::<
            Map<Identity, Holding>,
            NftLendingError,
        >(repaid),
        close_outcome(funded.0, closing, repaid, now) == Ok::<
            Map<Identity, Holding>,
            NftLendingError,
        >(settled),
        repayment.borrower_collateral_token_account == opening.borrower_token_account,
        repayment.borrower_loan_token_account == funding.borrower_loan_token_account,
        closing.lender_loan_token_account == funding.lender_token_account,
        apart(
            seq![
                opening.borrower_token_account,
                funding.borrower_loan_token_account,
                funding.lender_token_account,
                closing.lender_collateral_token_account,
                opened.0.custody.nft_vault,
                opened.0.custody.vault,
                opened.0.custody.collateral,
            ],
        ),
        balance(start, opened.0.custody.nft_vault) == 0,
        balance(start, opened.0.custody.vault) == 0,
        balance(start, opened.0.custody.collateral) == 0,
    ensures
        funded.0.loan_amount == loan_amount && funded.0.collateral_amount == collateral_amount,
        collateral_in_play(
            opened.1,
            funded.0,
            opening.borrower_token_account,
            closing.lender_collateral_token_account,
        ) == collateral_in_play(
            start,
            funded.0,
            opening.borrower_token_account,
            closing.lender_collateral_token_account,
        ),
        collateral_in_play(
            funded.1,
            funded.0,
            opening.borrower_token_account,
            closing.lender_collateral_token_account,
        ) == collateral_in_play(
            start,
            funded.0,
            opening.borrower_token_account,
            closing.lender_collateral_token_account,
        ),
        collateral_in_play(
            repaid,
            funded.0,
            opening.borrower_token_account,
            closing.lender_collateral_token_account,
        ) == collateral_in_play(
            start,
            funded.0,
            opening.borrower_token_account,
            closing.lender_collateral_token_account,
        ),
        collateral_in_play(
            settled,
            funded.0,
            opening.borrower_token_account,
            closing.lender_collateral_token_account,
        ) == collateral_in_play(
            start,
            funded.0,
            opening.borrower_token_account,
            closing.lender_collateral_token_account,
        ),
        principal_in_play(
            funded.1,
            funded.0,
            funding.borrower_loan_token_account,
            funding.lender_token_account,
        ) == principal_in_play(
            start,
            funded.0,
            funding.borrower_loan_token_account,
            funding.lender_token_account,
        ),
        principal_in_play(
            repaid,
            funded.0,
            funding.borrower_loan_token_account,
            funding.lender_token_account,
        ) == principal_in_play(
            start,
            funded.0,
            funding.borrower_loan_token_account,
            funding.lender_token_account,
        ),
        principal_in_play(
            settled,
            funded.0,
            funding.borrower_loan_token_account,
            funding.lender_token_account,
        ) == principal_in_play(
            start,
            funded.0,
            funding.borrower_loan_token_account,
            funding.lender_token_account,
        ),
        collateral_in_custody(opened.1, funded.0) == collateral_amount,
        collateral_in_custody(funded.1, funded.0) == collateral_amount,
        collateral_in_custody(repaid, funded.0) == 0,
        collateral_in_custody(settled, funded.0) == 0,
        balance(funded.1, funding.borrower_loan_token_account) == balance(
            start,
            funding.borrower_loan_token_account,
        ) + loan_amount,
        balance(repaid, opening.borrower_token_account) == balance(
            start,
            opening.borrower_token_account,
        ),
        balance(settled, funding.lender_token_account) == balance(repaid, funding.lender_token_account)
            + loan_amount,
        balance(settled, opening.borrower_token_account) == balance(
            start,
            opening.borrower_token_account,
        ),
        balance(settled, funding.borrower_loan_token_account) == balance(
            start,
            funding.borrower_loan_token_account,
        ),
        balance(settled, funding.lender_token_account) == balance(
            start,
            funding.lender_token_account,
        ),
        balance(settled, closing.lender_collateral_token_account) == balance(
            start,
            closing.lender_collateral_token_account,
        ),
        balance(settled, funded.0.custody.vault) == 0,
{
    let agreement = funded.0;
    let accounts = seq![
        opening.borrower_token_account,
        funding.borrower_loan_token_account,
        funding.lender_token_account,
        closing.lender_collateral_token_account,
        agreement.custody.nft_vault,
        agreement.custody.vault,
        agreement.custody.collateral,
    ];
    assert(accounts[0] != accounts[1] && accounts[0] != accounts[2] && accounts[0] != accounts[3]
        && accounts[0] != accounts[4] && accounts[0] != accounts[5] && accounts[0] != accounts[6]);
    assert(accounts[1] != accounts[2] && accounts[1] != accounts[3] && accounts[1] != accounts[4]
        && accounts[1] != accounts[5] && accounts[1] != accounts[6]);
    assert(accounts[2] != accounts[3] && accounts[2] != accounts[4] && accounts[2] != accounts[5]
        && accounts[2] != accounts[6]);
    assert(accounts[3] != accounts[4] && accounts[3] != accounts[5] && accounts[3] != accounts[6]);
    assert(accounts[4] != accounts[5] && accounts[4] != accounts[6]);
    assert(accounts[5] != accounts[6]);

    let deposit = opening_orders(opening, collateral_amount);
    assert(deposit =~= seq![deposit[0]]);
    lemma_run_one(start, deposit[0]);
    lemma_transfer_moves(start, deposit[0]);
    assert(opened.1 == after_transfer(start, deposit[0]));

    let fund = funding_orders(opened.0, funding);
    assert(fund =~= seq![fund[0], fund[1]]);
    lemma_run_two(opened.1, fund[0], fund[1]);
    let locked = after_transfer(opened.1, fund[0]);
    lemma_transfer_moves(opened.1, fund[0]);
    lemma_transfer_moves(locked, fund[1]);
    assert(funded.1 == after_transfer(locked, fund[1]));

    let six = seq![
        repayment.borrower_loan_token_account,
        repayment.borrower_collateral_token_account,
        closing.lender_loan_token_account,
        closing.lender_collateral_token_account,
        agreement.custody.vault,
        agreement.custody.collateral,
    ];
    assert(apart(six));
    lemma_repay_then_settle(agreement, repayment, closing, funded.1, repaid, settled, now);
}

/// In whose name an attempt is made.
pub open spec fn caller(attempt: Operation) -> Identity {
    match attempt {
        Operation::Fund { funding, .. } => funding.lender,
        Operation::Repay { repayment } => repayment.borrower,
        Operation::Settle { closing, .. } => closing.lender,
    }
}

/// The three custody accounts of the agreement exist and belong to its
/// custodian.
pub open spec fn custody_in_place(
    agreement: AgreementState,
    holdings: Map<Identity, Holding>,
) -> bool {
    &&& holdings.dom().contains(agreement.custody.nft_vault)
    &&& holdings.dom().contains(agreement.custody.vault)
    &&& holdings.dom().contains(agreement.custody.collateral)
    &&& holdings[agreement.custody.nft_vault].owner == agreement.custody.authority
    &&& holdings[agreement.custody.vault].owner == agreement.custody.authority
    &&& holdings[agreement.custody.collateral].owner == agreement.custody.authority
}

/// Custody gives up nothing but by the rules. Whatever a caller other than
/// the custodian attempts, with whatever accounts:
/// the waiting vault loses collateral only to the funding that locks it;
/// the locked account loses collateral only to the borrower's repayment of
/// a funded agreement, or to a closing by the lender that finds the
/// agreement unfunded or the deadline reached;
/// the vault loses principal only to a closing by the lender.
/// The custody accounts stay in the custodian's hands throughout.
pub proof fn lemma_custody_is_released_by_the_rules(before: Escrow, attempt: Operation)
    requires
        before.agreement.wf(),
        custody_in_place(before.agreement, before.holdings),
        caller(attempt) != before.agreement.custody.authority,
    ensures
        custody_in_place(step(before, attempt).agreement, step(before, attempt).holdings),
        balance(step(before, attempt).holdings, before.agreement.custody.nft_vault) < balance(
            before.holdings,
            before.agreement.custody.nft_vault,
        ) ==> attempt is Fund && !before.agreement.funded && step(before, attempt).agreement.funded,
        balance(step(before, attempt).holdings, before.agreement.custody.collateral) < balance(
            before.holdings,
            before.agreement.custody.collateral,
        ) ==> {
            ||| attempt is Repay && caller(attempt) == before.agreement.borrower
                && before.agreement.funded
            ||| attempt is Settle && (before.agreement.lender is Some ==> before.agreement.lender
                == Some(caller(attempt))) && (!before.agreement.funded || attempt->now
                >= before.agreement.deadline)
        },
        balance(step(before, attempt).holdings, before.agreement.custody.vault) < balance(
            before.holdings,
            before.agreement.custody.vault,
        ) ==> attempt is Settle && (before.agreement.lender is Some ==> before.agreement.lender
            == Some(caller(attempt))),
{
    let agreement = before.agreement;
    let holdings = before.holdings;
    match attempt {
        Operation::Fund { funding, expected_collateral, expected_vault_balance } => {
            let orders = funding_orders(agreement, funding);
            assert(orders =~= seq![orders[0], orders[1]]);
            lemma_run_two(holdings, orders[0], orders[1]);
            if transfer_refusal(holdings, orders[0]) is None {
                lemma_transfer_moves(holdings, orders[0]);
                let locked = after_transfer(holdings, orders[0]);
                if transfer_refusal(locked, orders[1]) is None {
                    lemma_transfer_moves(locked, orders[1]);
                }
            }
        },
        Operation::Repay { repayment } => {
            let orders = repayment_orders(
                agreement,
                repayment,
                balance(holdings, agreement.custody.collateral) as u64,
            );
            assert(orders =~= seq![orders[0], orders[1]]);
            lemma_run_two(holdings, orders[0], orders[1]);
            if transfer_refusal(holdings, orders[0]) is None {
                lemma_transfer_moves(holdings, orders[0]);
                let paid = after_transfer(holdings, orders[0]);
                if transfer_refusal(paid, orders[1]) is None {
                    lemma_transfer_moves(paid, orders[1]);
                }
            }
        },
        Operation::Settle { closing, now } => {
            let orders = settlement_orders(
                agreement,
                closing,
                balance(holdings, agreement.custody.collateral) as u64,
                balance(holdings, agreement.custody.vault) as u64,
            );
            assert(orders =~= seq![orders[0], orders[1]]);
            lemma_run_two(holdings, orders[0], orders[1]);
            if transfer_refusal(holdings, orders[0]) is None {
                lemma_transfer_moves(holdings, orders[0]);
                let taken = after_transfer(holdings, orders[0]);
                if transfer_refusal(taken, orders[1]) is None {
                    lemma_transfer_moves(taken, orders[1]);
                }
            }
        },
    }
}

/// Through any series of attempts, none of them made in the custodian's
/// name, the custody accounts stay in the custodian's hands.
pub proof fn lemma_custody_stays_in_place(start: Escrow, attempts: Seq<Operation>)
    requires
        start.agreement.wf(),
        custody_in_place(start.agreement, start.holdings),
        forall|i: int|
            0 <= i < attempts.len() ==> caller(#[trigger] attempts[i])
                != start.agreement.custody.authority,
    ensures
        custody_in_place(run(start, attempts).agreement, run(start, attempts).holdings),
    decreases attempts.len(),
{
    if attempts.len() > 0 {
        let earlier = attempts.drop_last();
        assert forall|i: int| 0 <= i < earlier.len() implies caller(#[trigger] earlier[i])
            != start.agreement.custody.authority by {
            assert(earlier[i] == attempts[i]);
        }
        lemma_custody_stays_in_place(start, earlier);
        lemma_terms_never_change(start, earlier);
        assert(attempts.last() == attempts[attempts.len() - 1]);
        lemma_custody_is_released_by_the_rules(run(start, earlier), attempts.last());
    }
}

} // verus!
