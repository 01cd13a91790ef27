//! The asset ledger: accounts, each with an owner and a balance, and
//! transfers between them that either happen in full or not at all.

use vstd::prelude::*;
use crate::identity::Identity;

verus! {

/// Why the ledger refuses a transfer.
#[derive(Clone, Copy, Debug, PartialEq, Eq, Structural)]
pub enum LedgerError {
    /// The source account holds less than the amount asked for.
    InsufficientBalance,
    /// One of the accounts is unknown, or the authority does not own the
    /// source account.
    Unauthorized,
}

/// What the ledger records of one account.
pub struct Holding {
    pub owner: Identity,
    pub amount: nat,
}

/// An order to move `amount` from one account to another, signed by
/// `authority`.
#[derive(Clone, Copy, Debug, PartialEq, Eq)]
pub struct Transfer {
    pub from: Identity,
    pub to: Identity,
    pub authority: Identity,
    pub amount: u64,
}

/// The balance of an account; an unknown account holds nothing.
pub open spec fn balance(holdings: Map<Identity, Holding>, account: Identity) -> nat {
    if holdings.dom().contains(account) {
        holdings[account].amount
    } else {
        0
    }
}

/// Every balance fits in 64 bits.
pub open spec fn bounded(holdings: Map<Identity, Holding>) -> bool {
    forall|account: Identity| #[trigger]
        holdings.dom().contains(account) ==> holdings[account].amount <= u64::MAX
}

/// Why a transfer is refused, if it is. Both accounts must exist and the
/// authority must own the source; then the source must hold the amount.
pub open spec fn transfer_refusal(holdings: Map<Identity, Holding>, order: Transfer) -> Option<
    LedgerError,
> {
    if !holdings.dom().contains(order.from) || !holdings.dom().contains(order.to)
        || holdings[order.from].owner != order.authority {
        Some(LedgerError::Unauthorized)
    } else if holdings[order.from].amount < order.amount {
        Some(LedgerError::InsufficientBalance)
    } else {
        None
    }
}

/// The holdings after a transfer that is not refused: the source is debited,
/// then the destination credited. Owners and all other accounts stay.
pub open spec fn after_transfer(holdings: Map<Identity, Holding>, order: Transfer) -> Map<
    Identity,
    Holding,
> {
    let debited = holdings.insert(
        order.from,
        Holding {
            owner: holdings[order.from].owner,
            amount: (holdings[order.from].amount - order.amount) as nat,
        },
    );
    debited.insert(
        order.to,
        Holding {
            owner: debited[order.to].owner,
            amount: debited[order.to].amount + order.amount as nat,
        },
    )
}

/// The outcome of a list of transfers carried out in order: the holdings
/// after the last one, or the refusal of the first that is refused.
pub open spec fn run_transfers(holdings: Map<Identity, Holding>, orders: Seq<Transfer>) -> Result<
    Map<Identity, Holding>,
    LedgerError,
>
    decreases orders.len(),
{
    if orders.len() == 0 {
        Ok(holdings)
    } else {
        match transfer_refusal(holdings, orders[0]) {
            Some(refusal) => Err(refusal),
            None => run_transfers(after_transfer(holdings, orders[0]), orders.skip(1)),
        }
    }
}

/// The outcome of a single transfer.
pub proof fn lemma_run_one(holdings: Map<Identity, Holding>, order: Transfer)
    ensures
        run_transfers(holdings, seq![order]) == match transfer_refusal(holdings, order) {
            Some(refusal) => Err::<Map<Identity, Holding>, LedgerError>(refusal),
            None => Ok(after_transfer(holdings, order)),
        },
{
    reveal_with_fuel(run_transfers, 2);
    assert(seq![order].skip(1) =~= Seq::<Transfer>::empty());
}

/// The outcome of two transfers: the second is judged on the holdings that
/// the first has left.
pub proof fn lemma_run_two(holdings: Map<Identity, Holding>, first: Transfer, second: Transfer)
    ensures
        run_transfers(holdings, seq![first, second]) == match transfer_refusal(holdings, first) {
            Some(refusal) => Err::<Map<Identity, Holding>, LedgerError>(refusal),
            None => match transfer_refusal(after_transfer(holdings, first), second) {
                Some(refusal) => Err(refusal),
                None => Ok(after_transfer(after_transfer(holdings, first), second)),
            },
        },
{
    reveal_with_fuel(run_transfers, 2);
    assert(seq![first, second].skip(1) =~= seq![second]);
    lemma_run_one(after_transfer(holdings, first), second);
}

/// A transfer that is not refused takes the amount from the source, gives
/// it to the destination, and touches nothing else: no account appears or
/// disappears, no owner changes, and every other balance stays.
pub proof fn lemma_transfer_moves(holdings: Map<Identity, Holding>, order: Transfer)
    requires
        transfer_refusal(holdings, order) is None,
    ensures
        after_transfer(holdings, order).dom() == holdings.dom(),
        forall|account: Identity| #[trigger]
            holdings.dom().contains(account) ==> after_transfer(holdings, order)[account].owner
                == holdings[account].owner,
        order.from != order.to ==> balance(after_transfer(holdings, order), order.from) == balance(
            holdings,
            order.from,
        ) - order.amount,
        order.from != order.to ==> balance(after_transfer(holdings, order), order.to) == balance(
            holdings,
            order.to,
        ) + order.amount,
        order.from == order.to ==> balance(after_transfer(holdings, order), order.from) == balance(
            holdings,
            order.from,
        ),
        forall|account: Identity|
            account != order.from && account != order.to ==> #[trigger] balance(
                after_transfer(holdings, order),
                account,
            ) == balance(holdings, account),
{
    assert(after_transfer(holdings, order).dom() =~= holdings.dom());
}

#[derive(Clone, Copy, Debug)]
struct Account {
    id: Identity,
    owner: Identity,
    amount: u64,
}

spec fn present(accounts: Seq<Account>, id: Identity) -> bool {
    exists|i: int| 0 <= i < accounts.len() && (#[trigger] accounts[i]).id == id
}

spec fn position(accounts: Seq<Account>, id: Identity) -> int {
    choose|i: int| 0 <= i < accounts.len() && (#[trigger] accounts[i]).id == id
}

spec fn unique(accounts: Seq<Account>) -> bool {
    forall|i: int, j: int|
        0 <= i < j < accounts.len() ==> (#[trigger] accounts[i]).id != (#[trigger] accounts[j]).id
}

spec fn holding(account: Account) -> Holding {
    Holding { owner: account.owner, amount: account.amount as nat }
}

spec fn model(accounts: Seq<Account>) -> Map<Identity, Holding> {
    Map::new(
        |id: Identity| present(accounts, id),
        |id: Identity| holding(accounts[position(accounts, id)]),
    )
}

spec fn total(accounts: Seq<Account>) -> nat
    decreases accounts.len(),
{
    if accounts.len() == 0 {
        0
    } else {
        total(accounts.drop_last()) + accounts.last().amount as nat
    }
}

proof fn lemma_at(accounts: Seq<Account>, i: int)
    requires
        unique(accounts),
        0 <= i < accounts.len(),
    ensures
        present(accounts, accounts[i].id),
        position(accounts, accounts[i].id) == i,
        model(accounts).dom().contains(accounts[i].id),
        model(accounts)[accounts[i].id] == holding(accounts[i]),
{
    let id = accounts[i].id;
    assert(present(accounts, id));
    let p = position(accounts, id);
    assert(0 <= p < accounts.len() && accounts[p].id == id);
    if p < i {
        assert(accounts[p].id != accounts[i].id);
    } else if i < p {
        assert(accounts[i].id != accounts[p].id);
    }
}

proof fn lemma_absent(accounts: Seq<Account>, id: Identity)
    requires
        forall|i: int| 0 <= i < accounts.len() ==> (#[trigger] accounts[i]).id != id,
    ensures
        !present(accounts, id),
        !model(accounts).dom().contains(id),
{
}

proof fn lemma_update(accounts: Seq<Account>, i: int, account: Account)
    requires
        unique(accounts),
        0 <= i < accounts.len(),
        account.id == accounts[i].id,
    ensures
        unique(accounts.update(i, account)),
        model(accounts.update(i, account)) == model(accounts).insert(account.id, holding(account)),
{
    let updated = accounts.update(i, account);
    assert forall|a: int, b: int| 0 <= a < b < updated.len() implies (#[trigger] updated[a]).id != (
    #[trigger] updated[b]).id by {
        assert(updated[a].id == accounts[a].id);
        assert(updated[b].id == accounts[b].id);
    }
    let expected = model(accounts).insert(account.id, holding(account));
    assert forall|id: Identity| model(updated).dom().contains(id) <==> expected.dom().contains(
        id,
    ) by {
        if present(updated, id) {
            let p = position(updated, id);
            assert(accounts[p].id == id);
        }
        if present(accounts, id) {
            let p = position(accounts, id);
            assert(updated[p].id == id);
        }
        if id == account.id {
            assert(updated[i].id == id);
        }
    }
    assert forall|id: Identity| model(updated).dom().contains(id) implies model(updated)[id]
        == expected[id] by {
        let p = position(updated, id);
        assert(0 <= p < updated.len() && updated[p].id == id);
        lemma_at(updated, p);
        if id != account.id {
            assert(p != i);
            assert(accounts[p].id == id);
            lemma_at(accounts, p);
        } else {
            lemma_at(updated, i);
        }
    }
    assert(model(updated) =~= expected);
}

proof fn lemma_push(accounts: Seq<Account>, account: Account)
    requires
        unique(accounts),
        !present(accounts, account.id),
    ensures
        unique(accounts.push(account)),
        model(accounts.push(account)) == model(accounts).insert(account.id, holding(account)),
{
    let pushed = accounts.push(account);
    let last = accounts.len() as int;
    assert forall|a: int, b: int| 0 <= a < b < pushed.len() implies (#[trigger] pushed[a]).id != (
    #[trigger] pushed[b]).id by {
        assert(pushed[a] == accounts[a]);
        if b < last {
            assert(pushed[b] == accounts[b]);
        }
    }
    let expected = model(accounts).insert(account.id, holding(account));
    assert forall|id: Identity| model(pushed).dom().contains(id) <==> expected.dom().contains(
        id,
    ) by {
        if present(pushed, id) {
            let p = position(pushed, id);
            if p < last {
                assert(accounts[p].id == id);
            }
        }
        if present(accounts, id) {
            let p = position(accounts, id);
            assert(pushed[p].id == id);
        }
        if id == account.id {
            assert(pushed[last].id == id);
        }
    }
    assert forall|id: Identity| model(pushed).dom().contains(id) implies model(pushed)[id]
        == expected[id] by {
        let p = position(pushed, id);
        assert(0 <= p < pushed.len() && pushed[p].id == id);
        lemma_at(pushed, p);
        if id != account.id {
            assert(p != last);
            assert(accounts[p].id == id);
            lemma_at(accounts, p);
        } else {
            lemma_at(pushed, last);
        }
    }
    assert(model(pushed) =~= expected);
}

proof fn lemma_total_push(accounts: Seq<Account>, account: Account)
    ensures
        total(accounts.push(account)) == total(accounts) + account.amount,
{
    assert(accounts.push(account).drop_last() =~= accounts);
}

proof fn lemma_total_update(accounts: Seq<Account>, i: int, account: Account)
    requires
        0 <= i < accounts.len(),
    ensures
        total(accounts.update(i, account)) + accounts[i].amount == total(accounts) + account.amount,
        accounts[i].amount <= total(accounts),
    decreases accounts.len(),
{
    let updated = accounts.update(i, account);
    if i == accounts.len() - 1 {
        assert(updated.drop_last() =~= accounts.drop_last());
    } else {
        assert(updated.drop_last() =~= accounts.drop_last().update(i, account));
        lemma_total_update(accounts.drop_last(), i, account);
    }
}

/// An asset ledger held in memory. No two accounts share an identity, and
/// all balances together fit in 64 bits.
pub struct Ledger {
    accounts: Vec<Account>,
}

impl View for Ledger {
    type V = Map<Identity, Holding>;

    /// The accounts of the ledger, each with its owner and balance.
    closed spec fn view(&self) -> Map<Identity, Holding> {
        model(self.accounts@)
    }
}

impl Ledger {
    #[verifier::type_invariant]
    spec fn inv(self) -> bool {
        &&& unique(self.accounts@)
        &&& total(self.accounts@) <= u64::MAX
    }

    /// The sum of all balances.
    pub closed spec fn total_supply(&self) -> nat {
        total(self.accounts@)
    }

    /// The balances of a ledger fit in 64 bits each.
    pub proof fn lemma_bounded(&self)
        ensures
            bounded(self@),
    {
        assert forall|account: Identity| #[trigger]
            self@.dom().contains(account) implies self@[account].amount <= u64::MAX by {
            let p = position(self.accounts@, account);
            assert(self@[account] == holding(self.accounts@[p]));
        }
    }

    /// A ledger without accounts.
    pub fn new() -> (ledger: Ledger)
        ensures
            ledger@ == Map::<Identity, Holding>::empty(),
            ledger.total_supply() == 0,
    {
        let ledger = Ledger { accounts: Vec::new() };
        assert(ledger@ =~= Map::<Identity, Holding>::empty());
        ledger
    }

    fn find(&self, id: &Identity) -> (at: Option<usize>)
        ensures
            match at {
                Some(i) => i < self.accounts@.len() && self.accounts@[i as int].id == *id,
                None => forall|i: int|
                    0 <= i < self.accounts@.len() ==> (#[trigger] self.accounts@[i]).id != *id,
            },
    {
        let mut i: usize = 0;
        while i < self.accounts.len()
            invariant
                i <= self.accounts@.len(),
                forall|k: int| 0 <= k < i ==> (#[trigger] self.accounts@[k]).id != *id,
            decreases self.accounts@.len() - i,
        {
            if self.accounts[i].id == *id {
                return Some(i);
            }
            i += 1;
        }
        None
    }

    /// Whether the ledger has an account of this identity.
    pub fn contains(&self, account: &Identity) -> (known: bool)
        ensures
            known == self@.dom().contains(*account),
    {
        proof {
            use_type_invariant(self);
        }
        match self.find(account) {
            Some(i) => {
                proof {
                    lemma_at(self.accounts@, i as int);
                }
                true
            },
            None => {
                proof {
                    lemma_absent(self.accounts@, *account);
                }
                false
            },
        }
    }

    /// The balance of an account; an unknown account holds nothing.
    pub fn balance_of(&self, account: &Identity) -> (amount: u64)
        ensures
            amount == balance(self@, *account),
    {
        proof {
            use_type_invariant(self);
        }
        match self.find(account) {
            Some(i) => {
                proof {
                    lemma_at(self.accounts@, i as int);
                }
                self.accounts[i].amount
            },
            None => {
                proof {
                    lemma_absent(self.accounts@, *account);
                }
                0
            },
        }
    }

    /// The owner of an account, if the ledger knows the account.
    pub fn owner_of(&self, account: &Identity) -> (owner: Option<Identity>)
        ensures
            owner == if self@.dom().contains(*account) {
                Some(self@[*account].owner)
            } else {
                None
            },
    {
        proof {
            use_type_invariant(self);
        }
        match self.find(account) {
            Some(i) => {
                proof {
                    lemma_at(self.accounts@, i as int);
                }
                Some(self.accounts[i].owner)
            },
            None => {
                proof {
                    lemma_absent(self.accounts@, *account);
                }
                None
            },
        }
    }

    /// Adds an account with an opening balance. Nothing happens, and the
    /// result is `false`, when the account exists already or the balances
    /// would together no longer fit in 64 bits.
    pub fn open_account(&mut self, account: Identity, owner: Identity, amount: u64) -> (opened:
        bool)
        ensures
            opened == (!old(self)@.dom().contains(account) && old(self).total_supply() + amount
                <= u64::MAX),
            opened ==> final(self)@ == old(self)@.insert(
                account,
                Holding { owner, amount: amount as nat },
            ),
            opened ==> final(self).total_supply() == old(self).total_supply() + amount,
            !opened ==> final(self)@ == old(self)@,
            !opened ==> final(self).total_supply() == old(self).total_supply(),
    {
        proof {
            use_type_invariant(&*self);
        }
        match self.find(&account) {
            Some(i) => {
                proof {
                    lemma_at(self.accounts@, i as int);
                }
                false
            },
            None => {
                proof {
                    lemma_absent(self.accounts@, account);
                }
                let supply = self.supply();
                if amount > u64::MAX - supply {
                    false
                } else {
                    let entry = Account { id: account, owner, amount };
                    proof {
                        lemma_push(self.accounts@, entry);
                        lemma_total_push(self.accounts@, entry);
                    }
                    let mut accounts: Vec<Account> = Vec::new();
                    core::mem::swap(&mut accounts, &mut self.accounts);
                    accounts.push(entry);
                    self.accounts = accounts;
                    true
                }
            },
        }
    }

    /// The sum of all balances.
    pub fn supply(&self) -> (sum: u64)
        ensures
            sum == self.total_supply(),
    {
        proof {
            use_type_invariant(self);
        }
        let mut sum: u64 = 0;
        let mut i: usize = 0;
        while i < self.accounts.len()
            invariant
                i <= self.accounts@.len(),
                sum == total(self.accounts@.take(i as int)),
                total(self.accounts@) <= u64::MAX,
            decreases self.accounts@.len() - i,
        {
            proof {
                let next = self.accounts@.take(i + 1);
                assert(next.drop_last() =~= self.accounts@.take(i as int));
                assert(next.last() == self.accounts@[i as int]);
                lemma_total_prefix(self.accounts@, i + 1);
            }
            sum = sum + self.accounts[i].amount;
            i += 1;
        }
        assert(self.accounts@.take(i as int) =~= self.accounts@);
        sum
    }

    /// Moves `amount` from one account to another on the word of
    /// `authority`. A refused transfer changes nothing.
    pub fn transfer(&mut self, from: &Identity, to: &Identity, authority: &Identity, amount: u64)
        -> (done: Result<(), LedgerError>)
        ensures
            match transfer_refusal(
                old(self)@,
                (Transfer { from: *from, to: *to, authority: *authority, amount }),
            ) {
                Some(refusal) => done == Err::<(), LedgerError>(refusal) && final(self)@ == old(
                    self,
                )@,
                None => done is Ok && final(self)@ == after_transfer(
                    old(self)@,
                    (Transfer { from: *from, to: *to, authority: *authority, amount }),
                ),
            },
            final(self).total_supply() == old(self).total_supply(),
    {
        proof {
            use_type_invariant(&*self);
        }
        let source = self.find(from);
        let target = self.find(to);
        match (source, target) {
            (Some(i), Some(j)) => {
                proof {
                    lemma_at(self.accounts@, i as int);
                    lemma_at(self.accounts@, j as int);
                }
                let debit = self.accounts[i];
                if !(debit.owner == *authority) {
                    return Err(LedgerError::Unauthorized);
                }
                if debit.amount < amount {
                    return Err(LedgerError::InsufficientBalance);
                }
                let ghost before = self.accounts@;
                let mut accounts: Vec<Account> = Vec::new();
                core::mem::swap(&mut accounts, &mut self.accounts);
                let debited = Account {
                    id: debit.id,
                    owner: debit.owner,
                    amount: debit.amount - amount,
                };
                accounts.set(i, debited);
                proof {
                    lemma_update(before, i as int, debited);
                    lemma_total_update(before, i as int, debited);
                    lemma_at(accounts@, j as int);
                    lemma_total_update(accounts@, j as int, accounts@[j as int]);
                }
                let credit = accounts[j];
                let credited = Account {
                    id: credit.id,
                    owner: credit.owner,
                    amount: credit.amount + amount,
                };
                proof {
                    lemma_update(accounts@, j as int, credited);
                    lemma_total_update(accounts@, j as int, credited);
                }
                accounts.set(j, credited);
                self.accounts = accounts;
                Ok(())
            },
            (None, _) => {
                proof {
                    lemma_absent(self.accounts@, *from);
                }
                Err(LedgerError::Unauthorized)
            },
            (_, None) => {
                proof {
                    lemma_absent(self.accounts@, *to);
                }
                Err(LedgerError::Unauthorized)
            },
        }
    }

    fn snapshot(&self) -> (copy: Ledger)
        ensures
            copy.accounts@ == self.accounts@,
    {
        proof {
            use_type_invariant(self);
        }
        let mut accounts: Vec<Account> = Vec::new();
        let mut i: usize = 0;
        while i < self.accounts.len()
            invariant
                i <= self.accounts@.len(),
                accounts@ == self.accounts@.take(i as int),
            decreases self.accounts@.len() - i,
        {
            accounts.push(self.accounts[i]);
            assert(accounts@ =~= self.accounts@.take(i + 1));
            i += 1;
        }
        assert(self.accounts@.take(i as int) =~= self.accounts@);
        Ledger { accounts }
    }

    /// Carries out the transfers in order, all of them or none: when one is
    /// refused, the ledger is left as it was before the first.
    pub fn execute(&mut self, orders: &Vec<Transfer>) -> (done: Result<(), LedgerError>)
        ensures
            match run_transfers(old(self)@, orders@) {
                Ok(holdings) => done is Ok && final(self)@ == holdings,
                Err(refusal) => done == Err::<(), LedgerError>(refusal) && final(self)@ == old(
                    self,
                )@,
            },
            final(self).total_supply() == old(self).total_supply(),
    {
        let saved = self.snapshot();
        let mut k: usize = 0;
        assert(orders@.skip(0) =~= orders@);
        while k < orders.len()
            invariant
                k <= orders@.len(),
                saved.accounts@ == old(self).accounts@,
                self.total_supply() == old(self).total_supply(),
                run_transfers(old(self)@, orders@) == run_transfers(self@, orders@.skip(k as int)),
            decreases orders@.len() - k,
        {
            let order = orders[k];
            proof {
                assert(orders@.skip(k as int)[0] == order);
                assert(orders@.skip(k as int).skip(1) =~= orders@.skip(k + 1));
            }
            match self.transfer(&order.from, &order.to, &order.authority, order.amount) {
                Ok(()) => {},
                Err(refusal) => {
                    *self = saved;
                    return Err(refusal);
                },
            }
            k += 1;
        }
        Ok(())
    }
}

proof fn lemma_total_prefix(accounts: Seq<Account>, n: int)
    requires
        0 <= n <= accounts.len(),
    ensures
        total(accounts.take(n)) <= total(accounts),
    decreases accounts.len() - n,
{
    if n < accounts.len() {
        let next = accounts.take(n + 1);
        assert(next.drop_last() =~= accounts.take(n));
        lemma_total_prefix(accounts, n + 1);
    } else {
        assert(accounts.take(n) =~= accounts);
    }
}

} // verus!
