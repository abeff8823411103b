use ledger_engine::amount::Amount;
use ledger_engine::api::ProcessingError;
use ledger_engine::domain::{Account, StoredTransaction};
use ledger_engine::state::{State, StateStorage};

fn amount(mantissa: i128, scale: u32) -> Amount {
    Amount::new(mantissa, scale).unwrap()
}

fn deposit(id: u32, client_id: u16, mantissa: i128) -> StoredTransaction {
    StoredTransaction::Deposit { id, client_id, amount: amount(mantissa, 0), under_dispute: false }
}

#[test]
fn a_new_store_is_empty() {
    let state = State::new();
    assert!(state.get_all_accounts().unwrap().is_empty());
    assert_eq!(state.get_transaction(1), Err(ProcessingError::TransactionNotFound { id: 1 }));
}

#[test]
fn get_transaction_finds_what_was_inserted() {
    let mut state = State::new();
    assert_eq!(state.insert_transaction(deposit(5, 1, 10)), Ok(deposit(5, 1, 10)));
    assert_eq!(state.get_transaction(5), Ok(deposit(5, 1, 10)));
    assert_eq!(state.get_transaction(6), Err(ProcessingError::TransactionNotFound { id: 6 }));
}

#[test]
fn insert_keeps_withdrawals_too() {
    let mut state = State::new();
    let withdrawal = StoredTransaction::Withdrawal { id: 8, client_id: 2, amount: amount(3, 0) };
    assert_eq!(state.insert_transaction(withdrawal), Ok(withdrawal));
    assert_eq!(state.get_transaction(8), Ok(withdrawal));
}

#[test]
fn insert_refuses_a_taken_id() {
    let mut state = State::new();
    state.insert_transaction(deposit(5, 1, 10)).unwrap();
    assert_eq!(
        state.insert_transaction(deposit(5, 2, 99)),
        Err(ProcessingError::TransactionAlreadyExists { id: 5 })
    );
    let withdrawal = StoredTransaction::Withdrawal { id: 5, client_id: 1, amount: amount(3, 0) };
    assert_eq!(
        state.insert_transaction(withdrawal),
        Err(ProcessingError::TransactionAlreadyExists { id: 5 })
    );
    assert_eq!(state.get_transaction(5), Ok(deposit(5, 1, 10)));
}

#[test]
fn insert_hands_instructions_back_and_keeps_nothing() {
    let mut state = State::new();
    let all = [
        StoredTransaction::Dispute { id: 1, client_id: 1 },
        StoredTransaction::Resolve { id: 2, client_id: 1 },
        StoredTransaction::Chargeback { id: 3, client_id: 1 },
    ];
    for tx in all {
        assert_eq!(state.insert_transaction(tx), Ok(tx));
        assert_eq!(state.insert_transaction(tx), Ok(tx));
        assert_eq!(
            state.get_transaction(*tx.id()),
            Err(ProcessingError::TransactionNotFound { id: *tx.id() })
        );
    }
}

#[test]
fn under_dispute_sets_and_clears_the_flag() {
    let mut state = State::new();
    state.insert_transaction(deposit(5, 1, 10)).unwrap();
    assert_eq!(state.under_dispute(5, true), Ok(()));
    assert_eq!(
        state.get_transaction(5),
        Ok(StoredTransaction::Deposit {
            id: 5,
            client_id: 1,
            amount: amount(10, 0),
            under_dispute: true
        })
    );
    assert_eq!(state.under_dispute(5, false), Ok(()));
    assert_eq!(state.get_transaction(5), Ok(deposit(5, 1, 10)));
}

#[test]
fn under_dispute_ignores_unknown_ids_and_withdrawals() {
    let mut state = State::new();
    let withdrawal = StoredTransaction::Withdrawal { id: 8, client_id: 2, amount: amount(3, 0) };
    state.insert_transaction(withdrawal).unwrap();
    assert_eq!(state.under_dispute(8, true), Ok(()));
    assert_eq!(state.get_transaction(8), Ok(withdrawal));
    assert_eq!(state.under_dispute(9, true), Ok(()));
    assert_eq!(state.get_transaction(9), Err(ProcessingError::TransactionNotFound { id: 9 }));
}

#[test]
fn get_account_gives_a_fresh_account_and_stores_nothing() {
    let state = State::new();
    assert_eq!(state.get_account(&4), Ok(Account::new(4)));
    assert!(state.get_all_accounts().unwrap().is_empty());
}

#[test]
fn upsert_replaces_the_account_of_its_client() {
    let mut state = State::new();
    let first = Account {
        client: 4,
        available: amount(1, 0),
        held: amount(2, 0),
        total: amount(3, 0),
        locked: false,
    };
    let second = Account {
        client: 4,
        available: amount(5, 1),
        held: amount(0, 0),
        total: amount(5, 1),
        locked: true,
    };
    assert_eq!(state.upsert_account(first), Ok(()));
    assert_eq!(state.get_account(&4), Ok(first));
    assert_eq!(state.upsert_account(second), Ok(()));
    assert_eq!(state.get_account(&4), Ok(second));
    assert_eq!(*state.get_all_accounts().unwrap(), vec![second]);
    assert_eq!(state.get_account(&5), Ok(Account::new(5)));
}

#[test]
fn get_all_accounts_lists_by_client() {
    let mut state = State::new();
    for client in [40000u16, 3, 65535, 0, 17] {
        let mut account = Account::new(client);
        account.available = amount(client as i128, 0);
        account.total = amount(client as i128, 0);
        state.upsert_account(account).unwrap();
    }
    let all = state.get_all_accounts().unwrap();
    let clients: Vec<u16> = all.iter().map(|a| a.client).collect();
    assert_eq!(clients, vec![0, 3, 17, 40000, 65535]);
    for account in all.iter() {
        assert_eq!(account.available, amount(account.client as i128, 0));
    }
}
