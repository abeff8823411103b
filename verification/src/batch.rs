//! A whole run: the records in, the accounts to report out.

use crate::api::{result_view, ProcessingError, ProcessingResult};
use crate::domain::{Account, AccountView, ClientId, StoredTransaction, AMOUNT_PRECISION};
use crate::laws::replay;
use crate::processor::TransactionProcessor;
use crate::rules::{is_fatal, outcome_rule, LedgerView};
use crate::state::{full_listing, lemma_listing_of_mapped, State, StateStorage};
use vstd::prelude::*;

verus! {

/// How a run ended.
pub struct Settlement {
    /// What became of each record that was handled, in their order.
    pub outcomes: Vec<ProcessingResult<()>>,
    /// The accounts by ascending client, each balance rounded for the
    /// report; none where the run ended early.
    pub accounts: Option<Vec<Account>>,
}

/// Whether `accounts` is the report of a ledger's accounts: each of them, by
/// ascending client, with its balances rounded.
pub open spec fn reports(accounts: Seq<Account>, ledger: Map<ClientId, AccountView>) -> bool {
    &&& accounts.len() == full_listing(ledger).len()
    &&& forall|i: int|
        0 <= i < accounts.len() ==> (#[trigger] accounts[i])@ == full_listing(ledger)[i].rounded(
            AMOUNT_PRECISION as nat,
        )
}

/// Whether the record at `index` ends the run, given that those before it
/// were handled.
pub open spec fn ends_run(records: Seq<StoredTransaction>, index: int) -> bool {
    is_fatal(outcome_rule(replay(LedgerView::empty(), records.take(index)), records[index]))
}

/// Replays `records` on an empty store, one after the other. A record that
/// is refused or fails for a reason of its own is passed over; one whose
/// amounts are out of range ends the run, and then no accounts are reported.
pub fn settle(records: &Vec<StoredTransaction>) -> (r: Settlement)
    ensures
        r.outcomes@.len() <= records@.len(),
        forall|i: int|
            0 <= i < r.outcomes@.len() ==> result_view(#[trigger] r.outcomes@[i]) == outcome_rule(
                replay(LedgerView::empty(), records@.take(i)),
                records@[i],
            ),
        forall|i: int| 0 <= i < r.outcomes@.len() - 1 ==> !#[trigger] ends_run(records@, i),
        match r.accounts {
            Some(accounts) => {
                &&& r.outcomes@.len() == records@.len()
                &&& forall|i: int| 0 <= i < records@.len() ==> !#[trigger] ends_run(records@, i)
                &&& reports(accounts@, replay(LedgerView::empty(), records@).accounts)
            },
            None => r.outcomes@.len() > 0 && ends_run(records@, r.outcomes@.len() - 1),
        },
{
    let mut processor = TransactionProcessor::new(State::new());
    let mut outcomes: Vec<ProcessingResult<()>> = Vec::new();
    let mut i: usize = 0;
    proof {
        assert(processor.ledger().accounts =~= LedgerView::empty().accounts);
        assert(records@.take(0) =~= Seq::<StoredTransaction>::empty());
    }
    while i < records.len()
        invariant
            i <= records@.len(),
            outcomes@.len() == i,
            processor.ledger() == replay(LedgerView::empty(), records@.take(i as int)),
            forall|j: int|
                0 <= j < i ==> result_view(#[trigger] outcomes@[j]) == outcome_rule(
                    replay(LedgerView::empty(), records@.take(j)),
                    records@[j],
                ),
            forall|j: int| 0 <= j < i ==> !#[trigger] ends_run(records@, j),
        decreases records@.len() - i,
    {
        let outcome = processor.handle(records[i]);
        proof {
            assert(records@.take(i + 1).drop_last() =~= records@.take(i as int));
            assert(records@.take(i + 1).last() == records@[i as int]);
        }
        let fatal = match &outcome {
            Err(ProcessingError::UnknownError(_)) => true,
            _ => false,
        };
        outcomes.push(outcome);
        if fatal {
            return Settlement { outcomes, accounts: None };
        }
        i = i + 1;
    }
    proof {
        assert(records@.take(records@.len() as int) =~= records@);
        lemma_listing_of_mapped(
            processor.store().accounts(),
            |account: Account| account@,
            (ClientId::MAX + 1) as nat,
        );
    }
    let state = processor.into_state();
    let accounts = match state.get_all_accounts() {
        Ok(all) => report(all),
        Err(_) => Vec::new(),
    };
    Settlement { outcomes, accounts: Some(accounts) }
}

/// The accounts with each balance rounded for the report.
fn report(all: Box<Vec<Account>>) -> (r: Vec<Account>)
    ensures
        r@.len() == all@.len(),
        forall|i: int|
            0 <= i < r@.len() ==> (#[trigger] r@[i])@ == all@[i]@.rounded(AMOUNT_PRECISION as nat),
{
    let mut rounded: Vec<Account> = Vec::new();
    let mut k: usize = 0;
    while k < all.len()
        invariant
            k <= all@.len(),
            rounded@.len() == k,
            forall|i: int|
                0 <= i < k ==> (#[trigger] rounded@[i])@ == all@[i]@.rounded(
                    AMOUNT_PRECISION as nat,
                ),
        decreases all@.len() - k,
    {
        let mut account = all[k];
        account.scaled();
        rounded.push(account);
        k = k + 1;
    }
    rounded
}

} // verus!
