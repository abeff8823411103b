//! What holds of the rules, whatever the records are.

use crate::amount::{difference_fits, lemma_undo, lemma_zero_fits, sum_fits, writable, Amount};
use crate::api::ProcessingErrorView;
use crate::domain::{AccountView, ClientId, StoredTransaction, TransactionId};
use crate::rules::{
    account_view_or_fresh, apply_rule, deposit_rule, process_rule, withdraw_rule, LedgerView,
};
use vstd::prelude::*;

verus! {

impl LedgerView {
    /// The ledger before any record.
    pub open spec fn empty() -> LedgerView {
        LedgerView { accounts: Map::empty(), transactions: Map::empty() }
    }

    /// Whether every account is stored under its client and has a total that
    /// is the sum of its available and held funds, and every record is a
    /// deposit or a withdrawal stored under its id.
    pub open spec fn well_formed(self) -> bool {
        &&& forall|client: ClientId| #[trigger]
            self.accounts.contains_key(client) ==> self.accounts[client].client == client
                && self.accounts[client].balanced()
        &&& forall|id: TransactionId| #[trigger]
            self.transactions.contains_key(id) ==> self.transactions[id].id_spec() == id
                && self.transactions[id].is_kept()
    }

    /// Whether no account has negative available or held funds, and no kept
    /// record a negative amount.
    pub open spec fn solvent(self) -> bool {
        &&& forall|client: ClientId| #[trigger]
            self.accounts.contains_key(client) ==> self.accounts[client].available >= 0
                && self.accounts[client].held >= 0
        &&& forall|id: TransactionId| #[trigger]
            self.transactions.contains_key(id) ==> !self.transactions[id].moves_negative_amount()
    }

    /// The account of `client`, stored or fresh.
    pub open spec fn account(self, client: ClientId) -> AccountView {
        account_view_or_fresh(self.accounts, client)
    }
}

/// The ledger after `records`, each processed in its turn.
pub open spec fn replay(ledger: LedgerView, records: Seq<StoredTransaction>) -> LedgerView
    decreases records.len(),
{
    if records.len() == 0 {
        ledger
    } else {
        process_rule(replay(ledger, records.drop_last()), records.last()).0
    }
}

/// Applying a record keeps a well-formed ledger well-formed: every account
/// stays balanced.
pub proof fn lemma_apply_keeps_well_formed(ledger: LedgerView, transaction: StoredTransaction)
    requires
        ledger.well_formed(),
    ensures
        apply_rule(ledger, transaction).0.well_formed(),
{
}

/// Processing a record keeps a well-formed ledger well-formed, and a solvent
/// one solvent.
pub proof fn lemma_process_keeps_well_formed(ledger: LedgerView, transaction: StoredTransaction)
    requires
        ledger.well_formed(),
    ensures
        process_rule(ledger, transaction).0.well_formed(),
        ledger.solvent() ==> process_rule(ledger, transaction).0.solvent(),
{
    lemma_apply_keeps_well_formed(ledger, transaction);
}

/// After any sequence of records, from the empty ledger on, every account
/// has a total that is the sum of its available and held funds, and neither
/// of the two is negative.
pub proof fn lemma_every_account_balanced(records: Seq<StoredTransaction>)
    ensures
        replay(LedgerView::empty(), records).well_formed(),
        replay(LedgerView::empty(), records).solvent(),
        forall|client: ClientId| #[trigger]
            replay(LedgerView::empty(), records).accounts.contains_key(client) ==> replay(
                LedgerView::empty(),
                records,
            ).accounts[client].balanced(),
    decreases records.len(),
{
    if records.len() > 0 {
        lemma_every_account_balanced(records.drop_last());
        lemma_process_keeps_well_formed(
            replay(LedgerView::empty(), records.drop_last()),
            records.last(),
        );
    }
}

/// A deposit succeeds exactly where the new balances can be computed; into
/// an account without funds it always does.
pub proof fn lemma_deposit_succeeds(account: AccountView, amount: int, scale: nat)
    requires
        writable(amount, scale),
    ensures
        deposit_rule(account, amount) is Ok <==> sum_fits(account.available, amount) && sum_fits(
            account.total,
            amount,
        ),
        account.available == 0 && account.total == 0 ==> deposit_rule(account, amount) is Ok,
{
    lemma_zero_fits(amount, scale);
}

/// After a deposit, a withdrawal of the same amount succeeds and gives the
/// account back as it was, where its available funds were not negative.
pub proof fn lemma_deposit_then_withdraw(account: AccountView, amount: int)
    requires
        account.available >= 0,
        deposit_rule(account, amount) is Ok,
    ensures
        withdraw_rule(deposit_rule(account, amount)->Ok_0, amount) == Ok::<
            AccountView,
            ProcessingErrorView,
        >(account),
{
    lemma_undo(account.available, amount);
    lemma_undo(account.total, amount);
}

/// A withdrawal of more than the available funds fails for want of funds
/// and leaves every account as it was; the record itself is kept.
pub proof fn lemma_withdrawal_beyond_available(
    ledger: LedgerView,
    id: TransactionId,
    client_id: ClientId,
    amount: Amount,
)
    requires
        ledger.well_formed(),
        !ledger.transactions.contains_key(id),
        !ledger.account(client_id).locked,
        amount.units() > ledger.account(client_id).available,
    ensures
        apply_rule(ledger, StoredTransaction::Withdrawal { id, client_id, amount }).1 == Err::<
            (),
            ProcessingErrorView,
        >(ProcessingErrorView::AccountInsufficientAvailableFunds { client_id }),
        apply_rule(ledger, StoredTransaction::Withdrawal { id, client_id, amount }).0.accounts
            == ledger.accounts,
        withdraw_rule(ledger.account(client_id), amount.units()) == Err::<
            AccountView,
            ProcessingErrorView,
        >(ProcessingErrorView::AccountInsufficientAvailableFunds { client_id }),
{
}

/// Whether `id` is the undisputed deposit of `amount` units by `client`, and
/// the client's account is open.
pub open spec fn holds_open_deposit(
    ledger: LedgerView,
    id: TransactionId,
    client: ClientId,
    amount: int,
) -> bool {
    &&& ledger.well_formed()
    &&& ledger.transactions.contains_key(id)
    &&& ledger.transactions[id] matches StoredTransaction::Deposit {
        client_id,
        amount: deposited,
        under_dispute,
        ..
    } && client_id == client && deposited.units() == amount && !under_dispute
    &&& !ledger.account(client).locked
}

/// Whether the client's funds cover a dispute of `amount` units and the
/// balances that it gives can be computed.
pub open spec fn can_dispute(ledger: LedgerView, client: ClientId, amount: int) -> bool {
    &&& ledger.account(client).available >= amount
    &&& difference_fits(ledger.account(client).available, amount)
    &&& sum_fits(ledger.account(client).held, amount)
}

/// The ledger after the client's dispute of `id`.
pub open spec fn disputed(ledger: LedgerView, id: TransactionId, client: ClientId) -> LedgerView {
    apply_rule(ledger, StoredTransaction::Dispute { id, client_id: client }).0
}

/// A dispute of a deposit that the available funds cover moves exactly its
/// amount from the available funds to the held ones and leaves the total;
/// a second dispute of the same deposit fails, and changes nothing.
pub proof fn lemma_dispute_holds_the_amount(
    ledger: LedgerView,
    id: TransactionId,
    client: ClientId,
    amount: int,
)
    requires
        holds_open_deposit(ledger, id, client, amount),
        can_dispute(ledger, client, amount),
    ensures
        apply_rule(ledger, StoredTransaction::Dispute { id, client_id: client }).1 is Ok,
        disputed(ledger, id, client).account(client) == (AccountView {
            available: ledger.account(client).available - amount,
            held: ledger.account(client).held + amount,
            ..ledger.account(client)
        }),
        disputed(ledger, id, client).account(client).total == ledger.account(client).total,
        disputed(ledger, id, client).transactions == ledger.transactions.insert(
            id,
            ledger.transactions[id].with_dispute_flag(true),
        ),
        apply_rule(
            disputed(ledger, id, client),
            StoredTransaction::Dispute { id, client_id: client },
        ) == (
            disputed(ledger, id, client),
            Err::<(), ProcessingErrorView>(
                ProcessingErrorView::TransactionAlreadyUnderDispute { id },
            ),
        ),
{
}

/// A resolve after a dispute succeeds, and gives the account and the records
/// back as they were before the dispute, where the held funds were not
/// negative.
pub proof fn lemma_resolve_reverses_dispute(
    ledger: LedgerView,
    id: TransactionId,
    client: ClientId,
    amount: int,
)
    requires
        holds_open_deposit(ledger, id, client, amount),
        can_dispute(ledger, client, amount),
        ledger.account(client).held >= 0,
    ensures
        apply_rule(
            disputed(ledger, id, client),
            StoredTransaction::Resolve { id, client_id: client },
        ).1 is Ok,
        apply_rule(
            disputed(ledger, id, client),
            StoredTransaction::Resolve { id, client_id: client },
        ).0.account(client) == ledger.account(client),
        apply_rule(
            disputed(ledger, id, client),
            StoredTransaction::Resolve { id, client_id: client },
        ).0.transactions == ledger.transactions,
{
    lemma_undo(ledger.account(client).available, amount);
    lemma_undo(ledger.account(client).held, amount);
    let after = apply_rule(
        disputed(ledger, id, client),
        StoredTransaction::Resolve { id, client_id: client },
    ).0;
    assert(after.transactions =~= ledger.transactions);
}

/// A resolve of a deposit that is not under dispute succeeds and leaves the
/// account and the records untouched.
pub proof fn lemma_resolve_without_dispute(
    ledger: LedgerView,
    id: TransactionId,
    client: ClientId,
    amount: int,
)
    requires
        holds_open_deposit(ledger, id, client, amount),
    ensures
        apply_rule(ledger, StoredTransaction::Resolve { id, client_id: client }).1 is Ok,
        apply_rule(ledger, StoredTransaction::Resolve { id, client_id: client }).0.account(client)
            == ledger.account(client),
        apply_rule(ledger, StoredTransaction::Resolve { id, client_id: client }).0.transactions
            == ledger.transactions,
{
}

/// The ledger after the client's dispute and chargeback of `id`.
pub open spec fn charged_back(
    ledger: LedgerView,
    id: TransactionId,
    client: ClientId,
) -> LedgerView {
    apply_rule(
        disputed(ledger, id, client),
        StoredTransaction::Chargeback { id, client_id: client },
    ).0
}

/// A chargeback after a dispute takes the amount from the held funds and
/// from the total, locks the account and clears the mark, where the held
/// funds were not negative and the total less the amount can be computed.
/// From then on every record of that client fails on the lock and leaves the
/// accounts as they are; a deposit or a withdrawal whose id is taken fails on
/// that before it gets to the lock.
pub proof fn lemma_chargeback_locks(
    ledger: LedgerView,
    id: TransactionId,
    client: ClientId,
    amount: int,
    later: StoredTransaction,
)
    requires
        holds_open_deposit(ledger, id, client, amount),
        can_dispute(ledger, client, amount),
        ledger.account(client).held >= 0,
        difference_fits(ledger.account(client).total, amount),
        later.client_spec() == client,
        !(later.is_kept() && ledger.transactions.contains_key(later.id_spec())),
    ensures
        apply_rule(
            disputed(ledger, id, client),
            StoredTransaction::Chargeback { id, client_id: client },
        ).1 is Ok,
        charged_back(ledger, id, client).account(client) == (AccountView {
            held: disputed(ledger, id, client).account(client).held - amount,
            total: disputed(ledger, id, client).account(client).total - amount,
            locked: true,
            ..disputed(ledger, id, client).account(client)
        }),
        charged_back(ledger, id, client).transactions == ledger.transactions,
        apply_rule(charged_back(ledger, id, client), later).1 == Err::<(), ProcessingErrorView>(
            ProcessingErrorView::AccountIsLocked { client_id: client },
        ),
        apply_rule(charged_back(ledger, id, client), later).0.accounts == charged_back(
            ledger,
            id,
            client,
        ).accounts,
{
    lemma_undo(ledger.account(client).held, amount);
    assert(charged_back(ledger, id, client).transactions =~= ledger.transactions);
}

/// A deposit into a ledger without records, its dispute and its chargeback
/// all succeed, and leave the client with no funds and a locked account.
pub proof fn lemma_sole_deposit_charged_back(
    id: TransactionId,
    client_id: ClientId,
    amount: Amount,
    scale: nat,
)
    requires
        amount.units() >= 0,
        writable(amount.units(), scale),
    ensures
        replay(
            LedgerView::empty(),
            seq![
                StoredTransaction::Deposit { id, client_id, amount, under_dispute: false },
                StoredTransaction::Dispute { id, client_id },
                StoredTransaction::Chargeback { id, client_id },
            ],
        ).account(client_id) == (AccountView {
            client: client_id,
            available: 0,
            held: 0,
            total: 0,
            locked: true,
        }),
{
    lemma_zero_fits(amount.units(), scale);
    let deposit = StoredTransaction::Deposit { id, client_id, amount, under_dispute: false };
    let dispute = StoredTransaction::Dispute { id, client_id };
    let chargeback = StoredTransaction::Chargeback { id, client_id };
    let records = seq![deposit, dispute, chargeback];
    let none = Seq::<StoredTransaction>::empty();
    assert(records.drop_last() =~= seq![deposit, dispute]);
    assert(records.drop_last().drop_last() =~= seq![deposit]);
    assert(records.drop_last().drop_last().drop_last() =~= none);
    let first = process_rule(LedgerView::empty(), deposit).0;
    assert(replay(LedgerView::empty(), seq![deposit]) == first) by {
        assert(seq![deposit].drop_last() =~= none);
        assert(replay(LedgerView::empty(), none) == LedgerView::empty());
    }
    let second = process_rule(first, dispute).0;
    assert(replay(LedgerView::empty(), seq![deposit, dispute]) == second) by {
        assert(seq![deposit, dispute].drop_last() =~= seq![deposit]);
    }
    assert(first.account(client_id) == (AccountView {
        available: amount.units(),
        total: amount.units(),
        ..AccountView::fresh(client_id)
    }));
    assert(second.account(client_id) == (AccountView {
        held: amount.units(),
        total: amount.units(),
        ..AccountView::fresh(client_id)
    }));
}

/// A dispute, a resolve or a chargeback of an id under which nothing is
/// stored succeeds; it leaves the records as they are and the client with
/// the account that they had, or a fresh one.
pub proof fn lemma_unknown_record_is_ignored(ledger: LedgerView, instruction: StoredTransaction)
    requires
        ledger.well_formed(),
        !instruction.is_kept(),
        !ledger.transactions.contains_key(instruction.id_spec()),
        !ledger.account(instruction.client_spec()).locked,
    ensures
        apply_rule(ledger, instruction).1 is Ok,
        apply_rule(ledger, instruction).0.transactions == ledger.transactions,
        apply_rule(ledger, instruction).0.accounts == ledger.accounts.insert(
            instruction.client_spec(),
            ledger.account(instruction.client_spec()),
        ),
{
}

/// Of two deposits or withdrawals with one id the second is refused, and
/// changes nothing: the accounts are adjusted at most once.
pub proof fn lemma_second_record_is_refused(
    ledger: LedgerView,
    first: StoredTransaction,
    second: StoredTransaction,
)
    requires
        first.is_kept(),
        second.is_kept(),
        first.id_spec() == second.id_spec(),
    ensures
        apply_rule(apply_rule(ledger, first).0, second) == (
            apply_rule(ledger, first).0,
            Err::<(), ProcessingErrorView>(
                ProcessingErrorView::TransactionAlreadyExists { id: second.id_spec() },
            ),
        ),
{
}

} // verus!
