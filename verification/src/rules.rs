//! The rules of the ledger, as functions on mathematical values.
//!
//! An account is taken by its view, with balances as integers. A rule that
//! would give a balance which cannot be computed exactly as an amount gives
//! the error for an amount out of range instead.

use crate::amount::{difference_fits, sum_fits, Amount};
use crate::api::{out_of_range_message, ProcessingErrorView};
use crate::domain::{Account, AccountView, ClientId, StoredTransaction, TransactionId};
use crate::state::{flagged, lookup, records_after};
use vstd::prelude::*;

verus! {

/// What an applied record leaves behind: the account, and the dispute flag
/// to set on a stored record, where it sets one.
pub struct Adjustment {
    pub account: AccountView,
    pub flag: Option<(TransactionId, bool)>,
}

/// The accounts by their views, and the kept records.
pub struct LedgerView {
    pub accounts: Map<ClientId, AccountView>,
    pub transactions: Map<TransactionId, StoredTransaction>,
}

/// The ledger that a store of these accounts and records stands for.
pub open spec fn ledger(
    accounts: Map<ClientId, Account>,
    transactions: Map<TransactionId, StoredTransaction>,
) -> LedgerView {
    LedgerView { accounts: accounts.map_values(|account: Account| account@), transactions }
}

/// The error for a new balance that is out of range: no scale writes the
/// old balance, the amount and the new balance.
pub open spec fn out_of_range() -> ProcessingErrorView {
    ProcessingErrorView::UnknownError(out_of_range_message())
}

/// An adjustment that leaves everything as it is.
pub open spec fn nothing_to_do(account: AccountView) -> Adjustment {
    Adjustment { account, flag: None }
}

/// A deposit adds the amount to the available funds and to the total. It
/// fails only where a new balance is out of range: no scale writes the old
/// balance, the amount and their sum.
pub open spec fn deposit_rule(account: AccountView, amount: int) -> Result<
    AccountView,
    ProcessingErrorView,
> {
    if !(sum_fits(account.available, amount) && sum_fits(account.total, amount)) {
        Err(out_of_range())
    } else {
        Ok(
            AccountView {
                available: account.available + amount,
                total: account.total + amount,
                ..account
            },
        )
    }
}

/// A withdrawal takes the amount from the available funds and from the
/// total, where the available funds cover it.
pub open spec fn withdraw_rule(account: AccountView, amount: int) -> Result<
    AccountView,
    ProcessingErrorView,
> {
    if account.available < amount {
        Err(ProcessingErrorView::AccountInsufficientAvailableFunds { client_id: account.client })
    } else if !(difference_fits(account.available, amount) && difference_fits(
        account.total,
        amount,
    )) {
        Err(out_of_range())
    } else {
        Ok(
            AccountView {
                available: account.available - amount,
                total: account.total - amount,
                ..account
            },
        )
    }
}

/// The deposit that an instruction refers to, once it is known to be the
/// client's own.
#[derive(Debug, Clone, Copy)]
pub struct OwnDeposit {
    pub id: TransactionId,
    pub amount: Amount,
    pub under_dispute: bool,
}

/// What an instruction of `account`'s client may work on, given what is
/// stored under the id that it names: nothing where nothing is stored, the
/// deposit where it is the client's own. A record that is no deposit cannot
/// be disputed, and a deposit of another client is not to be touched.
pub open spec fn own_deposit(account: AccountView, found: Option<StoredTransaction>) -> Result<
    Option<OwnDeposit>,
    ProcessingErrorView,
> {
    match found {
        None => Ok(None),
        Some(StoredTransaction::Deposit { id, client_id, amount, under_dispute }) => {
            if account.client != client_id {
                Err(ProcessingErrorView::TransactionAccessDenied { id, client_id })
            } else {
                Ok(Some(OwnDeposit { id, amount, under_dispute }))
            }
        },
        Some(other) => Err(
            ProcessingErrorView::TransactionIsNotDisputable { id: other.id_spec() },
        ),
    }
}

/// A dispute moves the amount of the client's own undisputed deposit from
/// the available funds to the held ones, and marks the deposit. A dispute of
/// a record that is not stored does nothing.
pub open spec fn dispute_rule(
    account: AccountView,
    found: Option<StoredTransaction>,
) -> Result<Adjustment, ProcessingErrorView> {
    match own_deposit(account, found) {
        Err(e) => Err(e),
        Ok(None) => Ok(nothing_to_do(account)),
        Ok(Some(deposit)) => {
            if deposit.under_dispute {
                Err(ProcessingErrorView::TransactionAlreadyUnderDispute { id: deposit.id })
            } else if account.available < deposit.amount.units() {
                Err(
                    ProcessingErrorView::AccountInsufficientAvailableFunds {
                        client_id: account.client,
                    },
                )
            } else if !(difference_fits(account.available, deposit.amount.units()) && sum_fits(
                account.held,
                deposit.amount.units(),
            )) {
                Err(out_of_range())
            } else {
                Ok(
                    Adjustment {
                        account: AccountView {
                            available: account.available - deposit.amount.units(),
                            held: account.held + deposit.amount.units(),
                            ..account
                        },
                        flag: Some((deposit.id, true)),
                    },
                )
            }
        },
    }
}

/// A resolve moves the amount of the client's own disputed deposit back from
/// the held funds to the available ones, and clears the mark. A resolve of a
/// record that is not stored, or of a deposit that is not disputed, does
/// nothing.
pub open spec fn resolve_rule(
    account: AccountView,
    found: Option<StoredTransaction>,
) -> Result<Adjustment, ProcessingErrorView> {
    match own_deposit(account, found) {
        Err(e) => Err(e),
        Ok(None) => Ok(nothing_to_do(account)),
        Ok(Some(deposit)) => {
            if !deposit.under_dispute {
                Ok(nothing_to_do(account))
            } else if account.held < deposit.amount.units() {
                Err(
                    ProcessingErrorView::AccountInsufficientHeldFunds {
                        client_id: account.client,
                    },
                )
            } else if !(sum_fits(account.available, deposit.amount.units()) && difference_fits(
                account.held,
                deposit.amount.units(),
            )) {
                Err(out_of_range())
            } else {
                Ok(
                    Adjustment {
                        account: AccountView {
                            available: account.available + deposit.amount.units(),
                            held: account.held - deposit.amount.units(),
                            ..account
                        },
                        flag: Some((deposit.id, false)),
                    },
                )
            }
        },
    }
}

/// A chargeback takes the amount of the client's own disputed deposit from
/// the held funds and from the total, locks the account and clears the mark.
/// A chargeback of a record that is not stored, or of a deposit that is not
/// disputed, does nothing. Held funds that do not cover the amount are
/// reported as insufficient available funds.
pub open spec fn chargeback_rule(
    account: AccountView,
    found: Option<StoredTransaction>,
) -> Result<Adjustment, ProcessingErrorView> {
    match own_deposit(account, found) {
        Err(e) => Err(e),
        Ok(None) => Ok(nothing_to_do(account)),
        Ok(Some(deposit)) => {
            if !deposit.under_dispute {
                Ok(nothing_to_do(account))
            } else if account.held < deposit.amount.units() {
                Err(
                    ProcessingErrorView::AccountInsufficientAvailableFunds {
                        client_id: account.client,
                    },
                )
            } else if !(difference_fits(account.held, deposit.amount.units()) && difference_fits(
                account.total,
                deposit.amount.units(),
            )) {
                Err(out_of_range())
            } else {
                Ok(
                    Adjustment {
                        account: AccountView {
                            held: account.held - deposit.amount.units(),
                            total: account.total - deposit.amount.units(),
                            locked: true,
                            ..account
                        },
                        flag: Some((deposit.id, false)),
                    },
                )
            }
        },
    }
}

/// The rule of the record's kind. `found` is what is stored under the id
/// that the record names.
pub open spec fn adjust_rule(
    account: AccountView,
    transaction: StoredTransaction,
    found: Option<StoredTransaction>,
) -> Result<Adjustment, ProcessingErrorView> {
    match transaction {
        StoredTransaction::Deposit { amount, .. } => match deposit_rule(account, amount.units()) {
            Ok(next) => Ok(nothing_to_do(next)),
            Err(e) => Err(e),
        },
        StoredTransaction::Withdrawal { amount, .. } => match withdraw_rule(
            account,
            amount.units(),
        ) {
            Ok(next) => Ok(nothing_to_do(next)),
            Err(e) => Err(e),
        },
        StoredTransaction::Dispute { .. } => dispute_rule(account, found),
        StoredTransaction::Resolve { .. } => resolve_rule(account, found),
        StoredTransaction::Chargeback { .. } => chargeback_rule(account, found),
    }
}

/// The records after a dispute flag was set, where one was.
pub open spec fn with_flag(
    transactions: Map<TransactionId, StoredTransaction>,
    flag: Option<(TransactionId, bool)>,
) -> Map<TransactionId, StoredTransaction> {
    match flag {
        Some((id, value)) => flagged(transactions, id, value),
        None => transactions,
    }
}

/// The view of the account that a store gives for `client`.
pub open spec fn account_view_or_fresh(
    accounts: Map<ClientId, AccountView>,
    client: ClientId,
) -> AccountView {
    if accounts.contains_key(client) {
        accounts[client]
    } else {
        AccountView::fresh(client)
    }
}

/// What applying a record of a non-negative amount does to the ledger, and
/// why it does nothing to the accounts where it fails.
///
/// A deposit or a withdrawal of a taken id is refused. Else it is kept, and
/// stays kept whatever follows. A locked account refuses every record. Else
/// the rule of the record's kind decides, and where it succeeds the account
/// is stored.
pub open spec fn apply_rule(ledger: LedgerView, transaction: StoredTransaction) -> (
    LedgerView,
    Result<(), ProcessingErrorView>,
) {
    if transaction.is_kept() && ledger.transactions.contains_key(transaction.id_spec()) {
        (
            ledger,
            Err(ProcessingErrorView::TransactionAlreadyExists { id: transaction.id_spec() }),
        )
    } else {
        let kept = records_after(ledger.transactions, transaction);
        let account = account_view_or_fresh(ledger.accounts, transaction.client_spec());
        if account.locked {
            (
                LedgerView { accounts: ledger.accounts, transactions: kept },
                Err(ProcessingErrorView::AccountIsLocked { client_id: account.client }),
            )
        } else {
            match adjust_rule(
                account,
                transaction,
                lookup(ledger.transactions, transaction.id_spec()),
            ) {
                Ok(adjustment) => (
                    LedgerView {
                        accounts: ledger.accounts.insert(
                            adjustment.account.client,
                            adjustment.account,
                        ),
                        transactions: with_flag(kept, adjustment.flag),
                    },
                    Ok(()),
                ),
                Err(e) => (LedgerView { accounts: ledger.accounts, transactions: kept }, Err(e)),
            }
        }
    }
}

/// What became of a record: the refusal of a negative amount, else what
/// applying it gave.
pub open spec fn outcome_rule(ledger: LedgerView, transaction: StoredTransaction) -> Result<
    (),
    ProcessingErrorView,
> {
    if transaction.moves_negative_amount() {
        Err(ProcessingErrorView::TransactionIsNotValid { id: transaction.id_spec() })
    } else {
        apply_rule(ledger, transaction).1
    }
}

/// Whether an outcome ends the run: an amount out of range does.
pub open spec fn is_fatal(outcome: Result<(), ProcessingErrorView>) -> bool {
    outcome matches Err(ProcessingErrorView::UnknownError(_))
}

/// What processing a record does to the ledger, and what it reports.
///
/// A record of a negative amount is refused and changes nothing. Any other
/// is applied; of the reasons for which that can fail only an amount out of
/// range is reported, the others end the record and not the run.
pub open spec fn process_rule(ledger: LedgerView, transaction: StoredTransaction) -> (
    LedgerView,
    Result<(), ProcessingErrorView>,
) {
    if transaction.moves_negative_amount() {
        (ledger, Err(ProcessingErrorView::TransactionIsNotValid { id: transaction.id_spec() }))
    } else {
        let (next, outcome) = apply_rule(ledger, transaction);
        match outcome {
            Err(ProcessingErrorView::UnknownError(message)) => (
                next,
                Err(ProcessingErrorView::UnknownError(message)),
            ),
            _ => (next, Ok(())),
        }
    }
}

} // verus!
