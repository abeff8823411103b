//! Records, stored records and accounts.

use crate::amount::{rounded_units, Amount};
use vstd::prelude::*;

verus! {

pub type ClientId = u16;

pub type TransactionId = u32;

/// The number of fractional digits that an account is reported with.
pub const AMOUNT_PRECISION: u32 = 4;

/// The five kinds of record.
#[derive(Debug, Clone, Copy, PartialEq, Eq, Structural)]
pub enum TransactionType {
    Deposit,
    Withdrawal,
    Dispute,
    Resolve,
    Chargeback,
}

/// A record as it arrives: the amount is there for a deposit or a withdrawal.
#[derive(Debug, Clone, Copy, PartialEq)]
pub struct Transaction {
    pub transaction_type: TransactionType,
    pub client: ClientId,
    pub tx: TransactionId,
    pub amount: Option<Amount>,
}

/// A record as the ledger handles it. Only deposits and withdrawals are ever
/// stored; the other three are instructions on a stored deposit.
#[derive(Debug, Clone, Copy, PartialEq)]
pub enum StoredTransaction {
    Deposit { id: TransactionId, client_id: ClientId, amount: Amount, under_dispute: bool },
    Withdrawal { id: TransactionId, client_id: ClientId, amount: Amount },
    Dispute { id: TransactionId, client_id: ClientId },
    Resolve { id: TransactionId, client_id: ClientId },
    Chargeback { id: TransactionId, client_id: ClientId },
}

impl StoredTransaction {
    pub open spec fn id_spec(&self) -> TransactionId {
        match *self {
            StoredTransaction::Deposit { id, .. } => id,
            StoredTransaction::Withdrawal { id, .. } => id,
            StoredTransaction::Dispute { id, .. } => id,
            StoredTransaction::Resolve { id, .. } => id,
            StoredTransaction::Chargeback { id, .. } => id,
        }
    }

    pub open spec fn client_spec(&self) -> ClientId {
        match *self {
            StoredTransaction::Deposit { client_id, .. } => client_id,
            StoredTransaction::Withdrawal { client_id, .. } => client_id,
            StoredTransaction::Dispute { client_id, .. } => client_id,
            StoredTransaction::Resolve { client_id, .. } => client_id,
            StoredTransaction::Chargeback { client_id, .. } => client_id,
        }
    }

    /// Whether the record moves a negative amount.
    pub open spec fn moves_negative_amount(&self) -> bool {
        match *self {
            StoredTransaction::Deposit { amount, .. } => amount.units() < 0,
            StoredTransaction::Withdrawal { amount, .. } => amount.units() < 0,
            _ => false,
        }
    }

    /// Whether the record is one that the store keeps.
    pub open spec fn is_kept(&self) -> bool {
        *self is Deposit || *self is Withdrawal
    }

    /// The record with its dispute flag set to `flag`, where it has one.
    pub open spec fn with_dispute_flag(&self, flag: bool) -> StoredTransaction {
        match *self {
            StoredTransaction::Deposit { id, client_id, amount, .. } => StoredTransaction::Deposit {
                id,
                client_id,
                amount,
                under_dispute: flag,
            },
            _ => *self,
        }
    }

    pub fn id(&self) -> (r: &TransactionId)
        ensures
            *r == self.id_spec(),
    {
        match self {
            Self::Deposit { id, .. }
            | Self::Withdrawal { id, .. }
            | Self::Dispute { id, .. }
            | Self::Resolve { id, .. }
            | Self::Chargeback { id, .. } => id,
        }
    }

    pub fn client_id(&self) -> (r: &ClientId)
        ensures
            *r == self.client_spec(),
    {
        match self {
            Self::Deposit { client_id, .. }
            | Self::Withdrawal { client_id, .. }
            | Self::Dispute { client_id, .. }
            | Self::Resolve { client_id, .. }
            | Self::Chargeback { client_id, .. } => client_id,
        }
    }

    /// Whether the record is to be refused: a deposit or a withdrawal of a
    /// negative amount.
    pub fn is_not_valid(&self) -> (r: bool)
        ensures
            r == self.moves_negative_amount(),
    {
        broadcast use Amount::lemma_zero;

        match self {
            Self::Deposit { amount, .. } => amount.lt(&Amount::zero()),
            Self::Withdrawal { amount, .. } => amount.lt(&Amount::zero()),
            _ => false,
        }
    }

    /// Sets the dispute flag of a deposit; any other record stays as it is.
    pub fn set_under_dispute(&mut self, is_under_dispute: bool)
        ensures
            *final(self) == old(self).with_dispute_flag(is_under_dispute),
    {
        if let StoredTransaction::Deposit { ref mut under_dispute, .. } = self {
            *under_dispute = is_under_dispute;
        }
    }
}

/// The stored form of an arriving record: a deposit or a withdrawal without
/// an amount moves zero, and a deposit starts out undisputed.
impl From<Transaction> for StoredTransaction {
    fn from(tx: Transaction) -> (r: StoredTransaction) {
        match tx.transaction_type {
            TransactionType::Deposit => Self::Deposit {
                id: tx.tx,
                client_id: tx.client,
                amount: tx.amount.unwrap_or_default(),
                under_dispute: false,
            },
            TransactionType::Withdrawal => Self::Withdrawal {
                id: tx.tx,
                client_id: tx.client,
                amount: tx.amount.unwrap_or_default(),
            },
            TransactionType::Dispute => Self::Dispute { id: tx.tx, client_id: tx.client },
            TransactionType::Resolve => Self::Resolve { id: tx.tx, client_id: tx.client },
            TransactionType::Chargeback => Self::Chargeback { id: tx.tx, client_id: tx.client },
        }
    }
}

impl vstd::std_specs::convert::FromSpecImpl<Transaction> for StoredTransaction {
    open spec fn obeys_from_spec() -> bool {
        true
    }

    open spec fn from_spec(tx: Transaction) -> StoredTransaction {
        let amount = match tx.amount {
            Some(amount) => amount,
            None => Amount::zero_spec(),
        };
        match tx.transaction_type {
            TransactionType::Deposit => StoredTransaction::Deposit {
                id: tx.tx,
                client_id: tx.client,
                amount,
                under_dispute: false,
            },
            TransactionType::Withdrawal => StoredTransaction::Withdrawal {
                id: tx.tx,
                client_id: tx.client,
                amount,
            },
            TransactionType::Dispute => StoredTransaction::Dispute {
                id: tx.tx,
                client_id: tx.client,
            },
            TransactionType::Resolve => StoredTransaction::Resolve {
                id: tx.tx,
                client_id: tx.client,
            },
            TransactionType::Chargeback => StoredTransaction::Chargeback {
                id: tx.tx,
                client_id: tx.client,
            },
        }
    }
}

/// A client's balances. `total` is `available` plus `held` in every account
/// that the ledger makes.
#[derive(Debug, Clone, Copy, PartialEq)]
pub struct Account {
    pub client: ClientId,
    pub available: Amount,
    pub held: Amount,
    pub total: Amount,
    pub locked: bool,
}

/// An account with its balances as numbers of units of `10^-28`.
pub struct AccountView {
    pub client: ClientId,
    pub available: int,
    pub held: int,
    pub total: int,
    pub locked: bool,
}

impl AccountView {
    /// The account of a client of whom nothing is known yet.
    pub open spec fn fresh(client: ClientId) -> AccountView {
        AccountView { client, available: 0, held: 0, total: 0, locked: false }
    }

    /// The account with each balance rounded to `scale` fractional digits,
    /// a tie away from zero.
    pub open spec fn rounded(self, scale: nat) -> AccountView {
        AccountView {
            available: rounded_units(self.available, scale),
            held: rounded_units(self.held, scale),
            total: rounded_units(self.total, scale),
            ..self
        }
    }

    /// Whether the total is the sum of the other two balances.
    pub open spec fn balanced(self) -> bool {
        self.total == self.available + self.held
    }
}

impl View for Account {
    type V = AccountView;

    open spec fn view(&self) -> AccountView {
        AccountView {
            client: self.client,
            available: self.available.units(),
            held: self.held.units(),
            total: self.total.units(),
            locked: self.locked,
        }
    }
}

impl Account {
    /// The account of a client of whom nothing is known yet.
    pub open spec fn fresh(client: ClientId) -> Account {
        Account {
            client,
            available: Amount::zero_spec(),
            held: Amount::zero_spec(),
            total: Amount::zero_spec(),
            locked: false,
        }
    }

    /// An unlocked account with all balances zero.
    pub fn new(client: ClientId) -> (r: Account)
        ensures
            r == Account::fresh(client),
            r@ == AccountView::fresh(client),
    {
        broadcast use Amount::lemma_zero;

        Self {
            client,
            available: Amount::zero(),
            held: Amount::zero(),
            total: Amount::zero(),
            locked: false,
        }
    }

    /// Brings each balance to the precision that accounts are reported with.
    pub fn scaled(&mut self)
        ensures
            final(self).available.is_rounding_of(old(self).available, AMOUNT_PRECISION as nat),
            final(self).held.is_rounding_of(old(self).held, AMOUNT_PRECISION as nat),
            final(self).total.is_rounding_of(old(self).total, AMOUNT_PRECISION as nat),
            final(self)@ == old(self)@.rounded(AMOUNT_PRECISION as nat),
    {
        self.available = scale_to_amount_precision(self.available);
        self.held = scale_to_amount_precision(self.held);
        self.total = scale_to_amount_precision(self.total);
    }
}

/// The amount with no more fractional digits than accounts are reported with.
fn scale_to_amount_precision(amount: Amount) -> (r: Amount)
    ensures
        r.is_rounding_of(amount, AMOUNT_PRECISION as nat),
        r.units() == rounded_units(amount.units(), AMOUNT_PRECISION as nat),
{
    if amount.scale() > AMOUNT_PRECISION {
        amount.round_to(AMOUNT_PRECISION)
    } else {
        proof {
            amount.lemma_rounding_by_value(amount, AMOUNT_PRECISION as nat);
        }
        amount
    }
}

} // verus!
