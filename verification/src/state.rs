//! The store: the accounts and the kept records, one entry for each key.

use crate::api::{ProcessingError, ProcessingErrorView, ProcessingResult};
use crate::domain::{Account, ClientId, StoredTransaction, TransactionId};
use std::collections::HashMap;
use vstd::prelude::*;

verus! {

/// The account that the store gives for `client`: the stored one, or a fresh
/// one where none is stored.
pub open spec fn account_or_fresh(accounts: Map<ClientId, Account>, client: ClientId) -> Account {
    if accounts.contains_key(client) {
        accounts[client]
    } else {
        Account::fresh(client)
    }
}

/// What is stored under `id`.
pub open spec fn lookup(
    transactions: Map<TransactionId, StoredTransaction>,
    id: TransactionId,
) -> Option<StoredTransaction> {
    if transactions.contains_key(id) {
        Some(transactions[id])
    } else {
        None
    }
}

/// The records after `transaction` arrived: a deposit or a withdrawal is
/// kept where its id is free.
pub open spec fn records_after(
    transactions: Map<TransactionId, StoredTransaction>,
    transaction: StoredTransaction,
) -> Map<TransactionId, StoredTransaction> {
    if transaction.is_kept() && !transactions.contains_key(transaction.id_spec()) {
        transactions.insert(transaction.id_spec(), transaction)
    } else {
        transactions
    }
}

/// The records with the dispute flag of the one under `id` set to `value`,
/// where there is one and it has such a flag.
pub open spec fn flagged(
    transactions: Map<TransactionId, StoredTransaction>,
    id: TransactionId,
    value: bool,
) -> Map<TransactionId, StoredTransaction> {
    if transactions.contains_key(id) {
        transactions.insert(id, transactions[id].with_dispute_flag(value))
    } else {
        transactions
    }
}

/// The accounts stored under the keys below `bound`, by ascending key.
pub open spec fn listing<V>(accounts: Map<ClientId, V>, bound: nat) -> Seq<V>
    decreases bound,
{
    if bound == 0 {
        Seq::empty()
    } else {
        let key = (bound - 1) as ClientId;
        if bound - 1 <= ClientId::MAX && accounts.contains_key(key) {
            listing(accounts, (bound - 1) as nat).push(accounts[key])
        } else {
            listing(accounts, (bound - 1) as nat)
        }
    }
}

/// The keys below `bound` under which an account is stored, ascending.
pub open spec fn clients_below<V>(accounts: Map<ClientId, V>, bound: nat) -> Seq<ClientId>
    decreases bound,
{
    if bound == 0 {
        Seq::empty()
    } else {
        let key = (bound - 1) as ClientId;
        if bound - 1 <= ClientId::MAX && accounts.contains_key(key) {
            clients_below(accounts, (bound - 1) as nat).push(key)
        } else {
            clients_below(accounts, (bound - 1) as nat)
        }
    }
}

/// The listing holds, for each key below `bound` under which an account is
/// stored, that account, once, and nothing else; the keys ascend.
pub proof fn lemma_listing_is_by_client<V>(accounts: Map<ClientId, V>, bound: nat)
    requires
        bound <= ClientId::MAX + 1,
    ensures
        listing(accounts, bound).len() == clients_below(accounts, bound).len(),
        forall|i: int|
            0 <= i < listing(accounts, bound).len() ==> {
                &&& (#[trigger] clients_below(accounts, bound)[i]) < bound
                &&& accounts.contains_key(clients_below(accounts, bound)[i])
                &&& listing(accounts, bound)[i] == accounts[clients_below(accounts, bound)[i]]
            },
        forall|i: int, j: int|
            0 <= i < j < listing(accounts, bound).len() ==> (#[trigger] clients_below(
                accounts,
                bound,
            )[i]) < (#[trigger] clients_below(accounts, bound)[j]),
        forall|client: ClientId|
            client < bound && #[trigger] accounts.contains_key(client) ==> clients_below(
                accounts,
                bound,
            ).contains(client),
    decreases bound,
{
    if bound > 0 {
        let below = (bound - 1) as nat;
        let key = below as ClientId;
        lemma_listing_is_by_client(accounts, below);
        let keys = clients_below(accounts, bound);
        assert forall|client: ClientId|
            client < bound && #[trigger] accounts.contains_key(client) implies keys.contains(
            client,
        ) by {
            if client < below {
                let i = choose|i: int|
                    0 <= i < clients_below(accounts, below).len() && clients_below(
                        accounts,
                        below,
                    )[i] == client;
                assert(keys[i] == client);
            } else {
                assert(keys[keys.len() - 1] == client);
            }
        }
    }
}

/// Listing the accounts and then taking each by `f` is listing the accounts
/// taken by `f`.
pub proof fn lemma_listing_of_mapped<V, W>(
    accounts: Map<ClientId, V>,
    f: spec_fn(V) -> W,
    bound: nat,
)
    ensures
        listing(accounts.map_values(f), bound) == listing(accounts, bound).map_values(f),
    decreases bound,
{
    if bound > 0 {
        lemma_listing_of_mapped(accounts, f, (bound - 1) as nat);
    }
    assert(listing(accounts.map_values(f), bound) =~= listing(accounts, bound).map_values(f));
}

/// All stored accounts, by ascending key.
pub open spec fn full_listing<V>(accounts: Map<ClientId, V>) -> Seq<V> {
    listing(accounts, (ClientId::MAX + 1) as nat)
}

/// What a store of accounts and records does. Each operation works on one
/// key; none of them knows the rules of the ledger.
pub trait StateStorage {
    /// The kept records, by id.
    spec fn transactions(&self) -> Map<TransactionId, StoredTransaction>;

    /// The stored accounts, by client.
    spec fn accounts(&self) -> Map<ClientId, Account>;

    /// The record stored under `id`.
    fn get_transaction(&self, id: TransactionId) -> (r: ProcessingResult<StoredTransaction>)
        ensures
            match r {
                Ok(tx) => lookup(self.transactions(), id) == Some(tx),
                Err(e) => lookup(self.transactions(), id) is None && e@
                    == (ProcessingErrorView::TransactionNotFound { id }),
            },
    ;

    /// Keeps a deposit or a withdrawal under its id, unless the id is taken;
    /// hands any other record back and keeps nothing.
    fn insert_transaction(&mut self, transaction: StoredTransaction) -> (r: ProcessingResult<
        StoredTransaction,
    >)
        ensures
            final(self).accounts() == old(self).accounts(),
            final(self).transactions() == records_after(old(self).transactions(), transaction),
            match r {
                Ok(kept) => kept == transaction && !(transaction.is_kept() && lookup(
                    old(self).transactions(),
                    transaction.id_spec(),
                ) is Some),
                Err(e) => transaction.is_kept() && lookup(
                    old(self).transactions(),
                    transaction.id_spec(),
                ) is Some && e@ == (ProcessingErrorView::TransactionAlreadyExists {
                    id: transaction.id_spec(),
                }),
            },
    ;

    /// Sets the dispute flag of the record stored under `id`, where there is
    /// one and it has such a flag.
    fn under_dispute(&mut self, id: TransactionId, under_dispute: bool) -> (r: ProcessingResult<()>)
        ensures
            r is Ok,
            final(self).accounts() == old(self).accounts(),
            final(self).transactions() == flagged(old(self).transactions(), id, under_dispute),
    ;

    /// Every stored account, once, in some order.
    fn get_all_accounts(&self) -> (r: ProcessingResult<Box<Vec<Account>>>)
        ensures
            r matches Ok(all) && all@.to_multiset() == full_listing(self.accounts()).to_multiset(),
    ;

    /// The account of `id`: a fresh one where none is stored.
    fn get_account(&self, id: &ClientId) -> (r: ProcessingResult<Account>)
        ensures
            r == Ok::<Account, ProcessingError>(account_or_fresh(self.accounts(), *id)),
    ;

    /// Stores `account` under its client, in place of what was there.
    fn upsert_account(&mut self, account: Account) -> (r: ProcessingResult<()>)
        ensures
            r is Ok,
            final(self).transactions() == old(self).transactions(),
            final(self).accounts() == old(self).accounts().insert(account.client, account),
    ;
}

/// A store in memory.
pub struct State {
    accounts: HashMap<ClientId, Account>,
    transactions: HashMap<TransactionId, StoredTransaction>,
}

impl State {
    /// A store with nothing in it.
    pub fn new() -> (r: State)
        ensures
            r.accounts() == Map::<ClientId, Account>::empty(),
            r.transactions() == Map::<TransactionId, StoredTransaction>::empty(),
    {
        Self { accounts: HashMap::new(), transactions: HashMap::new() }
    }
}

impl StateStorage for State {
    closed spec fn transactions(&self) -> Map<TransactionId, StoredTransaction> {
        self.transactions@
    }

    closed spec fn accounts(&self) -> Map<ClientId, Account> {
        self.accounts@
    }

    fn get_transaction(&self, id: TransactionId) -> (r: ProcessingResult<StoredTransaction>) {
        broadcast use vstd::std_specs::hash::group_hash_axioms;

        match self.transactions.get(&id) {
            Some(tx) => Ok(*tx),
            None => Err(ProcessingError::TransactionNotFound { id }),
        }
    }

    fn insert_transaction(&mut self, transaction: StoredTransaction) -> (r: ProcessingResult<
        StoredTransaction,
    >) {
        broadcast use vstd::std_specs::hash::group_hash_axioms;

        match transaction {
            StoredTransaction::Deposit { .. } | StoredTransaction::Withdrawal { .. } => {
                let id = *transaction.id();
                if !self.transactions.contains_key(&id) {
                    self.transactions.insert(id, transaction);
                    Ok(transaction)
                } else {
                    Err(ProcessingError::TransactionAlreadyExists { id })
                }
            },
            _ => Ok(transaction),
        }
    }

    fn under_dispute(&mut self, id: TransactionId, under_dispute: bool) -> (r: ProcessingResult<
        (),
    >) {
        broadcast use vstd::std_specs::hash::group_hash_axioms;

        let found = match self.transactions.get(&id) {
            Some(tx) => Some(*tx),
            None => None,
        };
        if let Some(mut tx) = found {
            tx.set_under_dispute(under_dispute);
            self.transactions.insert(id, tx);
        }
        Ok(())
    }

    /// Every stored account, by ascending client.
    fn get_all_accounts(&self) -> (r: ProcessingResult<Box<Vec<Account>>>)
        ensures
            r matches Ok(all) && all@ == full_listing(self.accounts()),
    {
        broadcast use vstd::std_specs::hash::group_hash_axioms;

        let mut all: Vec<Account> = Vec::new();
        let mut next: u32 = 0;
        while next <= ClientId::MAX as u32
            invariant
                next <= ClientId::MAX + 1,
                all@ == listing(self.accounts@, next as nat),
            decreases ClientId::MAX + 1 - next,
        {
            let client = next as ClientId;
            if let Some(account) = self.accounts.get(&client) {
                all.push(*account);
            }
            next = next + 1;
        }
        Ok(Box::new(all))
    }

    fn get_account(&self, id: &ClientId) -> (r: ProcessingResult<Account>) {
        broadcast use vstd::std_specs::hash::group_hash_axioms;

        match self.accounts.get(id) {
            Some(account) => Ok(*account),
            None => Ok(Account::new(*id)),
        }
    }

    fn upsert_account(&mut self, account: Account) -> (r: ProcessingResult<()>) {
        broadcast use vstd::std_specs::hash::group_hash_axioms;

        self.accounts.insert(account.client, account);
        Ok(())
    }
}

} // verus!
