//! Per-client wallets fed by a stream of transaction records.
//!
//! `wallet` is the state machine of one client's balances and ledger;
//! `wallet_actor` a shard that owns the wallets of its clients; `processor`
//! the routing of records to shards, the snapshot rows, and an engine that
//! drives its shards in the caller's thread; `channel_actor` the interface and
//! failure policy of an actor; `laws` what holds across calls.

use vstd::prelude::*;

pub mod amount;
pub mod channel_actor;
pub mod laws;
pub mod processor;
pub mod wallet;
pub mod wallet_actor;

use crate::amount::{amount_field, parse_amount, Amount};

verus! {

/// Everything that can go wrong while processing a stream of transactions.
///
/// `InvalidAmount` and the actor failures abort a run; the business-rule errors
/// (`AccountLocked`, `InsufficientFunds`, `TransactionNotFound`,
/// `DuplicateTransaction`, `InvalidDisputeState`, `BalanceOverflow`) concern one
/// transaction of one wallet, and processing goes on after them.
#[derive(Debug)]
pub enum ProcessorError {
    /// A malformed input row.
    CsvError(String),
    /// A shard's mailbox is closed.
    ActorTxSendError(String),
    /// A shard dropped the reply slot of a request without answering.
    ActorRecvError(String),
    /// A deposit or withdrawal without an amount, or with a negative one.
    InvalidAmount { tx_id: u32 },
    AccountLocked { client: u16 },
    InsufficientFunds { available: Amount, required: Amount },
    TransactionNotFound { tx_id: u32 },
    DuplicateTransaction { tx_id: u32 },
    /// A resolve or chargeback of a transaction that is not under dispute.
    InvalidDisputeState,
    /// A balance would leave the range that an `Amount` can hold.
    BalanceOverflow { tx_id: u32 },
    /// Stops the actor that handles the message.
    FatalError,
    /// The snapshot sink failed.
    Serialization(String),
}

pub type ProcessorResult<T> = Result<T, ProcessorError>;

/// The kind of a transaction record.
#[derive(Clone, Copy, Debug, PartialEq, Eq, Structural)]
pub enum TransactionType {
    Deposit,
    Withdrawal,
    Dispute,
    Resolve,
    Chargeback,
}

/// One record of the input stream.
#[derive(Clone, Copy, Debug, PartialEq, Eq, Structural)]
pub struct Transaction {
    pub tx_type: TransactionType,
    pub client: u16,
    pub id: u32,
    /// Present for deposits and withdrawals, absent for the other kinds.
    pub amount: Option<Amount>,
    /// Set while the transaction is under dispute.
    pub disputed: bool,
}

/// The `disputed` flag of a freshly read record.
pub fn default_disputed() -> (r: bool)
    ensures
        !r,
{
    false
}

/// Deposits and withdrawals move money; the other kinds refer to one of them.
pub open spec fn moves_funds(k: TransactionType) -> bool {
    k is Deposit || k is Withdrawal
}

/// A deposit or withdrawal must carry an amount that is not negative.
pub open spec fn amount_valid(tx: Transaction) -> bool {
    moves_funds(tx.tx_type) ==> (tx.amount is Some && tx.amount->0@ >= 0)
}

pub open spec fn ascii_lower(b: u8) -> u8 {
    if 65 <= b <= 90 { (b + 32) as u8 } else { b }
}

/// Whether `name` spells `word` (given in lower case), ignoring ASCII case.
pub open spec fn spells(name: Seq<u8>, word: Seq<u8>) -> bool {
    name.len() == word.len() && forall|i: int| 0 <= i < name.len() ==> ascii_lower(name[i]) == word[i]
}

pub open spec fn kind_name(k: TransactionType) -> Seq<u8> {
    match k {
        TransactionType::Deposit => seq![100u8, 101, 112, 111, 115, 105, 116],
        TransactionType::Withdrawal => seq![119u8, 105, 116, 104, 100, 114, 97, 119, 97, 108],
        TransactionType::Dispute => seq![100u8, 105, 115, 112, 117, 116, 101],
        TransactionType::Resolve => seq![114u8, 101, 115, 111, 108, 118, 101],
        TransactionType::Chargeback => seq![99u8, 104, 97, 114, 103, 101, 98, 97, 99, 107],
    }
}

fn lower_byte(b: u8) -> (r: u8)
    ensures
        r == ascii_lower(b),
{
    if 65 <= b && b <= 90 { b + 32 } else { b }
}

fn spells_word(name: &[u8], word: &Vec<u8>) -> (r: bool)
    ensures
        r == spells(name@, word@),
{
    if name.len() != word.len() {
        return false;
    }
    let mut i: usize = 0;
    while i < name.len()
        invariant
            name@.len() == word@.len(),
            i <= name@.len(),
            forall|j: int| 0 <= j < i ==> ascii_lower(name@[j]) == word@[j],
        decreases name@.len() - i,
    {
        if lower_byte(name[i]) != word[i] {
            return false;
        }
        i = i + 1;
    }
    true
}

impl TransactionType {
    /// The kind that a `type` field names: `deposit`, `withdrawal`, `dispute`,
    /// `resolve` or `chargeback`, in any ASCII case.
    pub fn from_name(name: &[u8]) -> (r: Option<TransactionType>)
        ensures
            match r {
                Some(k) => spells(name@, kind_name(k)),
                None => forall|k: TransactionType| !spells(name@, #[trigger] kind_name(k)),
            },
    {
        let deposit: Vec<u8> = vec![100u8, 101, 112, 111, 115, 105, 116];
        let withdrawal: Vec<u8> = vec![119u8, 105, 116, 104, 100, 114, 97, 119, 97, 108];
        let dispute: Vec<u8> = vec![100u8, 105, 115, 112, 117, 116, 101];
        let resolve: Vec<u8> = vec![114u8, 101, 115, 111, 108, 118, 101];
        let chargeback: Vec<u8> = vec![99u8, 104, 97, 114, 103, 101, 98, 97, 99, 107];
        proof {
            assert(deposit@ == kind_name(TransactionType::Deposit));
            assert(withdrawal@ == kind_name(TransactionType::Withdrawal));
            assert(dispute@ == kind_name(TransactionType::Dispute));
            assert(resolve@ == kind_name(TransactionType::Resolve));
            assert(chargeback@ == kind_name(TransactionType::Chargeback));
        }
        if spells_word(name, &deposit) {
            Some(TransactionType::Deposit)
        } else if spells_word(name, &withdrawal) {
            Some(TransactionType::Withdrawal)
        } else if spells_word(name, &dispute) {
            Some(TransactionType::Dispute)
        } else if spells_word(name, &resolve) {
            Some(TransactionType::Resolve)
        } else if spells_word(name, &chargeback) {
            Some(TransactionType::Chargeback)
        } else {
            None
        }
    }
}

impl Transaction {
    /// The record of one input row, from its `type`, `client`, `tx` and
    /// `amount` fields; an empty or missing amount field gives no amount.
    /// `CsvError` where the type is unknown or the amount is not a decimal.
    pub fn from_fields(kind: &[u8], client: u16, id: u32, amount: Option<&str>) -> (r: ProcessorResult<Transaction>)
        ensures
            r is Ok <==> (exists|k: TransactionType| spells(kind@, #[trigger] kind_name(k))) && match amount {
                Some(text) => amount_field(text@) is Some,
                None => true,
            },
            r is Err ==> r->Err_0 is CsvError,
            match r {
                Ok(tx) => {
                    &&& spells(kind@, kind_name(tx.tx_type))
                    &&& tx.client == client
                    &&& tx.id == id
                    &&& !tx.disputed
                    &&& match amount {
                        Some(text) => match tx.amount {
                            Some(a) => amount_field(text@) == Some(Some(a@)),
                            None => amount_field(text@) == Some(None::<int>),
                        },
                        None => tx.amount is None,
                    }
                },
                Err(_) => true,
            },
    {
        let tx_type = match TransactionType::from_name(kind) {
            Some(k) => k,
            None => {
                return Err(ProcessorError::CsvError("unknown transaction type".to_string()));
            },
        };
        let amount = match amount {
            Some(text) => match parse_amount(text) {
                Ok(a) => a,
                Err(e) => {
                    return Err(e);
                },
            },
            None => None,
        };
        Ok(Transaction { tx_type, client, id, amount, disputed: default_disputed() })
    }

    pub fn moves_funds(&self) -> (r: bool)
        ensures
            r == moves_funds(self.tx_type),
    {
        match self.tx_type {
            TransactionType::Deposit | TransactionType::Withdrawal => true,
            _ => false,
        }
    }

    /// Checks the amount of a deposit or withdrawal.
    pub fn validate_amount(&self) -> (r: ProcessorResult<()>)
        ensures
            r is Ok <==> amount_valid(*self),
            r is Err ==> r == Err::<(), ProcessorError>(ProcessorError::InvalidAmount { tx_id: self.id }),
    {
        if self.moves_funds() {
            match self.amount {
                Some(a) => {
                    if a.is_negative() {
                        return Err(ProcessorError::InvalidAmount { tx_id: self.id });
                    }
                },
                None => {
                    return Err(ProcessorError::InvalidAmount { tx_id: self.id });
                },
            }
        }
        Ok(())
    }
}

} // verus!
