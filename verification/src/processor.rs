//! The processor: applies one record at a time to a store.

use crate::amount::Amount;
use crate::api::{
    amount_out_of_range, result_view, ProcessingError, ProcessingErrorView, ProcessingResult,
};
use crate::domain::{Account, AccountView, StoredTransaction, TransactionId};
use crate::laws::{lemma_apply_keeps_well_formed, lemma_process_keeps_well_formed};
use crate::rules::{
    adjust_rule, apply_rule, chargeback_rule, deposit_rule, dispute_rule, ledger, outcome_rule,
    own_deposit, process_rule, resolve_rule, with_flag, withdraw_rule, Adjustment, LedgerView,
    OwnDeposit,
};
use crate::state::{full_listing, lookup, StateStorage};
use vstd::prelude::*;

verus! {

/// Whether `r`, with the account before and after, is what `rule` asks for:
/// on success the account that the rule gives, on failure the rule's error
/// and the account as it was.
pub open spec fn follows(
    rule: Result<AccountView, ProcessingErrorView>,
    r: ProcessingResult<()>,
    before: Account,
    after: Account,
) -> bool {
    match rule {
        Ok(next) => r is Ok && after@ == next,
        Err(e) => result_view(r) == Err::<(), ProcessingErrorView>(e) && after == before,
    }
}

/// As [`follows`], for a rule that may also set a dispute flag: on success
/// the records are those with the flag set, on failure those from before.
pub open spec fn carries_out(
    rule: Result<Adjustment, ProcessingErrorView>,
    r: ProcessingResult<()>,
    before: Account,
    after: Account,
    records_before: Map<TransactionId, StoredTransaction>,
    records_after: Map<TransactionId, StoredTransaction>,
) -> bool {
    match rule {
        Ok(adjustment) => r is Ok && after@ == adjustment.account && records_after == with_flag(
            records_before,
            adjustment.flag,
        ),
        Err(e) => result_view(r) == Err::<(), ProcessingErrorView>(e) && after == before
            && records_after == records_before,
    }
}

/// The processor of records, over a store of its own.
pub struct TransactionProcessor<S: StateStorage> {
    state: S,
}

impl<S: StateStorage> TransactionProcessor<S> {
    /// The store that the processor works on.
    pub closed spec fn store(&self) -> S {
        self.state
    }

    /// The ledger that the store stands for.
    pub open spec fn ledger(&self) -> LedgerView {
        ledger(self.store().accounts(), self.store().transactions())
    }

    /// A processor over `state`.
    pub fn new(state: S) -> (r: Self)
        ensures
            r.store() == state,
    {
        Self { state }
    }

    /// Gives the store back.
    pub fn into_state(self) -> (r: S)
        ensures
            r == self.store(),
    {
        self.state
    }

    /// Handles one record and says what became of it: a negative amount is
    /// refused, any other record applied as [`TransactionProcessor::apply`]
    /// does.
    pub fn handle(&mut self, transaction: StoredTransaction) -> (r: ProcessingResult<()>)
        ensures
            final(self).ledger() == process_rule(old(self).ledger(), transaction).0,
            result_view(r) == outcome_rule(old(self).ledger(), transaction),
    {
        if transaction.is_not_valid() {
            return Err(ProcessingError::TransactionIsNotValid { id: *transaction.id() });
        }
        self.apply(transaction)
    }

    /// Processes one record: refuses a negative amount, else applies the
    /// record as [`TransactionProcessor::apply`] does. A record that ends
    /// for a reason of its own is no failure; an amount out of range is.
    pub fn process(&mut self, transaction: StoredTransaction) -> (r: ProcessingResult<()>)
        ensures
            final(self).ledger() == process_rule(old(self).ledger(), transaction).0,
            result_view(r) == process_rule(old(self).ledger(), transaction).1,
            old(self).ledger().well_formed() ==> final(self).ledger().well_formed(),
            old(self).ledger().well_formed() && old(self).ledger().solvent()
                ==> final(self).ledger().solvent(),
    {
        proof {
            if old(self).ledger().well_formed() {
                lemma_process_keeps_well_formed(old(self).ledger(), transaction);
            }
        }
        match self.handle(transaction) {
            Err(ProcessingError::TransactionIsNotValid { id }) => Err(
                ProcessingError::TransactionIsNotValid { id },
            ),
            Err(ProcessingError::UnknownError(message)) => Err(
                ProcessingError::UnknownError(message),
            ),
            _ => Ok(()),
        }
    }

    /// Applies one record to the store and says why, where it did not.
    pub fn apply(&mut self, transaction: StoredTransaction) -> (r: ProcessingResult<()>)
        ensures
            final(self).ledger() == apply_rule(old(self).ledger(), transaction).0,
            result_view(r) == apply_rule(old(self).ledger(), transaction).1,
            old(self).ledger().well_formed() ==> final(self).ledger().well_formed(),
    {
        broadcast use Amount::lemma_zero;

        proof {
            if old(self).ledger().well_formed() {
                lemma_apply_keeps_well_formed(old(self).ledger(), transaction);
            }
        }

        let ghost before = old(self).ledger();
        let tx = self.state.insert_transaction(transaction)?;
        let mut account = self.state.get_account(tx.client_id())?;
        if account.locked {
            return Err(ProcessingError::AccountIsLocked { client_id: account.client });
        }
        self.adjust_account(&mut account, &tx)?;
        self.state.upsert_account(account)?;
        assert(self.ledger().accounts =~= before.accounts.insert(account.client, account@));
        Ok(())
    }

    /// Every stored account, once, in the order of the store.
    pub fn get_accounts(&self) -> (r: ProcessingResult<Box<Vec<Account>>>)
        ensures
            r matches Ok(all) && all@.to_multiset() == full_listing(
                self.store().accounts(),
            ).to_multiset(),
    {
        self.state.get_all_accounts()
    }

    /// Adds the amount to the available funds and to the total.
    pub fn deposit(&self, account: &mut Account, amount: &Amount) -> (r: ProcessingResult<()>)
        ensures
            follows(
                deposit_rule(old(account)@, amount.units()),
                r,
                *old(account),
                *final(account),
            ),
    {
        let available = account.available.checked_add(*amount);
        let total = account.total.checked_add(*amount);
        match (available, total) {
            (Some(available), Some(total)) => {
                account.available = available;
                account.total = total;
                Ok(())
            },
            _ => Err(amount_out_of_range()),
        }
    }

    /// Takes the amount from the available funds and from the total.
    pub fn withdraw(&self, account: &mut Account, amount: &Amount) -> (r: ProcessingResult<()>)
        ensures
            follows(
                withdraw_rule(old(account)@, amount.units()),
                r,
                *old(account),
                *final(account),
            ),
    {
        if account.available.lt(amount) {
            return Err(
                ProcessingError::AccountInsufficientAvailableFunds { client_id: account.client },
            );
        }
        let available = account.available.checked_sub(*amount);
        let total = account.total.checked_sub(*amount);
        match (available, total) {
            (Some(available), Some(total)) => {
                account.available = available;
                account.total = total;
                Ok(())
            },
            _ => Err(amount_out_of_range()),
        }
    }

    /// Looks up the record that an instruction of `account`'s client names.
    pub fn own_deposit(&self, account: &Account, id: &TransactionId) -> (r: ProcessingResult<
        Option<OwnDeposit>,
    >)
        ensures
            match own_deposit(account@, lookup(self.store().transactions(), *id)) {
                Ok(found) => r == Ok::<Option<OwnDeposit>, ProcessingError>(found),
                Err(e) => r matches Err(x) && x@ == e,
            },
    {
        match self.state.get_transaction(*id) {
            Ok(StoredTransaction::Deposit { id, client_id, amount, under_dispute }) => {
                if account.client != client_id {
                    return Err(ProcessingError::TransactionAccessDenied { id, client_id });
                }
                Ok(Some(OwnDeposit { id, amount, under_dispute }))
            },
            Ok(other) => Err(ProcessingError::TransactionIsNotDisputable { id: *other.id() }),
            Err(ProcessingError::TransactionNotFound { .. }) => Ok(None),
            Err(e) => Err(e),
        }
    }

    /// Holds the amount of a deposit that its client disputes.
    pub fn dispute(&mut self, account: &mut Account, id: &TransactionId) -> (r: ProcessingResult<
        (),
    >)
        ensures
            final(self).store().accounts() == old(self).store().accounts(),
            carries_out(
                dispute_rule(old(account)@, lookup(old(self).store().transactions(), *id)),
                r,
                *old(account),
                *final(account),
                old(self).store().transactions(),
                final(self).store().transactions(),
            ),
    {
        let deposit = match self.own_deposit(account, id)? {
            Some(deposit) => deposit,
            None => return Ok(()),
        };
        if deposit.under_dispute {
            return Err(ProcessingError::TransactionAlreadyUnderDispute { id: deposit.id });
        }
        if account.available.lt(&deposit.amount) {
            return Err(
                ProcessingError::AccountInsufficientAvailableFunds { client_id: account.client },
            );
        }
        let available = account.available.checked_sub(deposit.amount);
        let held = account.held.checked_add(deposit.amount);
        match (available, held) {
            (Some(available), Some(held)) => {
                account.available = available;
                account.held = held;
                self.state.under_dispute(deposit.id, true)?;
                Ok(())
            },
            _ => Err(amount_out_of_range()),
        }
    }

    /// Releases the held amount of a disputed deposit.
    pub fn resolve(&mut self, account: &mut Account, id: &TransactionId) -> (r: ProcessingResult<
        (),
    >)
        ensures
            final(self).store().accounts() == old(self).store().accounts(),
            carries_out(
                resolve_rule(old(account)@, lookup(old(self).store().transactions(), *id)),
                r,
                *old(account),
                *final(account),
                old(self).store().transactions(),
                final(self).store().transactions(),
            ),
    {
        let deposit = match self.own_deposit(account, id)? {
            Some(deposit) => deposit,
            None => return Ok(()),
        };
        if !deposit.under_dispute {
            return Ok(());
        }
        if account.held.lt(&deposit.amount) {
            return Err(ProcessingError::AccountInsufficientHeldFunds { client_id: account.client });
        }
        let available = account.available.checked_add(deposit.amount);
        let held = account.held.checked_sub(deposit.amount);
        match (available, held) {
            (Some(available), Some(held)) => {
                account.available = available;
                account.held = held;
                self.state.under_dispute(deposit.id, false)?;
                Ok(())
            },
            _ => Err(amount_out_of_range()),
        }
    }

    /// Takes the held amount of a disputed deposit back and locks the account.
    pub fn chargeback(&mut self, account: &mut Account, id: &TransactionId) -> (r: ProcessingResult<
        (),
    >)
        ensures
            final(self).store().accounts() == old(self).store().accounts(),
            carries_out(
                chargeback_rule(old(account)@, lookup(old(self).store().transactions(), *id)),
                r,
                *old(account),
                *final(account),
                old(self).store().transactions(),
                final(self).store().transactions(),
            ),
    {
        let deposit = match self.own_deposit(account, id)? {
            Some(deposit) => deposit,
            None => return Ok(()),
        };
        if !deposit.under_dispute {
            return Ok(());
        }
        if account.held.lt(&deposit.amount) {
            return Err(
                ProcessingError::AccountInsufficientAvailableFunds { client_id: account.client },
            );
        }
        let held = account.held.checked_sub(deposit.amount);
        let total = account.total.checked_sub(deposit.amount);
        match (held, total) {
            (Some(held), Some(total)) => {
                account.held = held;
                account.total = total;
                account.locked = true;
                self.state.under_dispute(deposit.id, false)?;
                Ok(())
            },
            _ => Err(amount_out_of_range()),
        }
    }

    /// Adjusts the account by the rule of the record's kind.
    pub fn adjust_account(&mut self, account: &mut Account, transaction: &StoredTransaction) -> (r:
        ProcessingResult<()>)
        ensures
            final(self).store().accounts() == old(self).store().accounts(),
            carries_out(
                adjust_rule(
                    old(account)@,
                    *transaction,
                    lookup(old(self).store().transactions(), transaction.id_spec()),
                ),
                r,
                *old(account),
                *final(account),
                old(self).store().transactions(),
                final(self).store().transactions(),
            ),
    {
        match transaction {
            StoredTransaction::Deposit { amount, .. } => self.deposit(account, amount),
            StoredTransaction::Withdrawal { amount, .. } => self.withdraw(account, amount),
            StoredTransaction::Dispute { id, .. } => self.dispute(account, id),
            StoredTransaction::Resolve { id, .. } => self.resolve(account, id),
            StoredTransaction::Chargeback { id, .. } => self.chargeback(account, id),
        }
    }
}

} // verus!
