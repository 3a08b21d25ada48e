use vstd::prelude::*;

use std::collections::HashMap;

use crate::amount::{fits, Amount};
use crate::{amount_valid, moves_funds, ProcessorError, ProcessorResult, Transaction, TransactionType};

verus! {

broadcast use vstd::std_specs::hash::group_hash_axioms;

/// The balances and ledger of one client.
pub struct Wallet {
    pub available: Amount,
    pub held: Amount,
    /// Set by a chargeback, never cleared.
    pub locked: bool,
    /// The accepted deposits and withdrawals, by transaction id.
    pub transactions: HashMap<u32, Transaction>,
}

/// The mathematical state of a wallet.
pub struct WalletModel {
    pub available: int,
    pub held: int,
    pub locked: bool,
    pub history: Map<u32, Transaction>,
}

impl View for Wallet {
    type V = WalletModel;

    open spec fn view(&self) -> WalletModel {
        WalletModel {
            available: self.available@,
            held: self.held@,
            locked: self.locked,
            history: self.transactions@,
        }
    }
}

/// What a ledger may hold: deposits and withdrawals with an amount that is not
/// negative, each under its own id.
pub open spec fn history_wf(h: Map<u32, Transaction>) -> bool {
    forall|k: u32|
        #![trigger h[k]]
        h.contains_key(k) ==> {
            &&& h[k].id == k
            &&& moves_funds(h[k].tx_type)
            &&& amount_valid(h[k])
        }
}

impl WalletModel {
    pub open spec fn wf(self) -> bool {
        fits(self.available) && fits(self.held) && history_wf(self.history)
    }

    pub open spec fn with_balances(self, available: int, held: int) -> WalletModel {
        WalletModel { available, held, ..self }
    }
}

pub open spec fn amount_of(tx: Transaction) -> int {
    tx.amount->0@
}

pub open spec fn as_amount(v: int) -> Amount {
    Amount { units: v as i128 }
}

/// The record that a transaction leaves in the ledger.
pub open spec fn recorded(tx: Transaction) -> Transaction {
    Transaction { disputed: false, ..tx }
}

pub open spec fn set_disputed(tx: Transaction, d: bool) -> Transaction {
    Transaction { disputed: d, ..tx }
}

pub open spec fn deposit_step(w: WalletModel, tx: Transaction) -> (WalletModel, ProcessorResult<()>) {
    let a = amount_of(tx);
    if w.history.contains_key(tx.id) {
        (w, Err(ProcessorError::DuplicateTransaction { tx_id: tx.id }))
    } else if !fits(w.available + a) {
        (w, Err(ProcessorError::BalanceOverflow { tx_id: tx.id }))
    } else {
        (
            WalletModel {
                available: w.available + a,
                history: w.history.insert(tx.id, recorded(tx)),
                ..w
            },
            Ok(()),
        )
    }
}

pub open spec fn withdrawal_step(w: WalletModel, tx: Transaction) -> (WalletModel, ProcessorResult<()>) {
    let a = amount_of(tx);
    if w.history.contains_key(tx.id) {
        (w, Err(ProcessorError::DuplicateTransaction { tx_id: tx.id }))
    } else if w.available < a {
        (
            w,
            Err(
                ProcessorError::InsufficientFunds {
                    available: as_amount(w.available),
                    required: tx.amount->0,
                },
            ),
        )
    } else {
        (
            WalletModel {
                available: w.available - a,
                history: w.history.insert(tx.id, recorded(tx)),
                ..w
            },
            Ok(()),
        )
    }
}

pub open spec fn dispute_step(w: WalletModel, id: u32) -> (WalletModel, ProcessorResult<()>) {
    if !w.history.contains_key(id) {
        (w, Err(ProcessorError::TransactionNotFound { tx_id: id }))
    } else {
        let rec = w.history[id];
        let a = amount_of(rec);
        let (available, held) = if rec.tx_type is Deposit {
            (w.available - a, w.held + a)
        } else {
            (w.available, w.held + a)
        };
        if !fits(available) || !fits(held) {
            (w, Err(ProcessorError::BalanceOverflow { tx_id: id }))
        } else {
            (
                WalletModel {
                    history: w.history.insert(id, set_disputed(rec, true)),
                    ..w.with_balances(available, held)
                },
                Ok(()),
            )
        }
    }
}

pub open spec fn resolve_step(w: WalletModel, id: u32) -> (WalletModel, ProcessorResult<()>) {
    if !w.history.contains_key(id) {
        (w, Err(ProcessorError::TransactionNotFound { tx_id: id }))
    } else if !w.history[id].disputed {
        (w, Err(ProcessorError::InvalidDisputeState))
    } else {
        let rec = w.history[id];
        let a = amount_of(rec);
        let (available, held) = if rec.tx_type is Deposit {
            (w.available + a, w.held - a)
        } else {
            (w.available, w.held - a)
        };
        if !fits(available) || !fits(held) {
            (w, Err(ProcessorError::BalanceOverflow { tx_id: id }))
        } else {
            (
                WalletModel {
                    history: w.history.insert(id, set_disputed(rec, false)),
                    ..w.with_balances(available, held)
                },
                Ok(()),
            )
        }
    }
}

pub open spec fn chargeback_step(w: WalletModel, id: u32) -> (WalletModel, ProcessorResult<()>) {
    if !w.history.contains_key(id) {
        (w, Err(ProcessorError::TransactionNotFound { tx_id: id }))
    } else if !w.history[id].disputed {
        (w, Err(ProcessorError::InvalidDisputeState))
    } else {
        let rec = w.history[id];
        let a = amount_of(rec);
        let (available, held) = if rec.tx_type is Deposit {
            (w.available, w.held - a)
        } else {
            (w.available + a, w.held - a)
        };
        if !fits(available) || !fits(held) {
            (w, Err(ProcessorError::BalanceOverflow { tx_id: id }))
        } else {
            (
                WalletModel {
                    available,
                    held,
                    locked: true,
                    history: w.history.insert(id, set_disputed(rec, false)),
                },
                Ok(()),
            )
        }
    }
}

/// The effect of one transaction on a wallet: the new state and the outcome.
/// A locked wallet turns down every deposit and withdrawal first, whatever its
/// amount. A transaction that fails leaves the wallet as it was.
pub open spec fn step(w: WalletModel, tx: Transaction) -> (WalletModel, ProcessorResult<()>) {
    if w.locked && moves_funds(tx.tx_type) {
        (w, Err(ProcessorError::AccountLocked { client: tx.client }))
    } else if !amount_valid(tx) {
        (w, Err(ProcessorError::InvalidAmount { tx_id: tx.id }))
    } else {
        match tx.tx_type {
            TransactionType::Deposit => deposit_step(w, tx),
            TransactionType::Withdrawal => withdrawal_step(w, tx),
            TransactionType::Dispute => dispute_step(w, tx.id),
            TransactionType::Resolve => resolve_step(w, tx.id),
            TransactionType::Chargeback => chargeback_step(w, tx.id),
        }
    }
}

/// The state of a wallet that no transaction has touched yet.
pub open spec fn empty_wallet() -> WalletModel {
    WalletModel { available: 0, held: 0, locked: false, history: Map::empty() }
}

impl Default for Wallet {
    fn default() -> (r: Wallet)
        ensures
            r@ == empty_wallet(),
            r.wf(),
    {
        Wallet {
            available: Amount::zero(),
            held: Amount::zero(),
            locked: false,
            transactions: HashMap::new(),
        }
    }
}

impl Wallet {
    pub open spec fn wf(&self) -> bool {
        self@.wf()
    }

    /// Applies one transaction: a locked wallet takes no deposit or withdrawal,
    /// and disputes, resolves and chargebacks act on the recorded transaction.
    ///
    /// A resolve or chargeback of a transaction that is not under dispute is an
    /// error (`InvalidDisputeState`), not a silent no-op. Duplicate ids are
    /// detected within this wallet's ledger only.
    pub fn process_transaction(&mut self, tx: Transaction) -> (r: ProcessorResult<()>)
        requires
            old(self).wf(),
        ensures
            final(self).wf(),
            (final(self)@, r) == step(old(self)@, tx),
    {
        if self.locked && tx.moves_funds() {
            return Err(ProcessorError::AccountLocked { client: tx.client });
        }
        if tx.validate_amount().is_err() {
            return Err(ProcessorError::InvalidAmount { tx_id: tx.id });
        }
        match tx.tx_type {
            TransactionType::Deposit => self.handle_deposit(tx),
            TransactionType::Withdrawal => self.handle_withdrawl(tx),
            TransactionType::Dispute => self.handle_dispute(tx.id),
            TransactionType::Resolve => self.handle_resolve(tx.id),
            TransactionType::Chargeback => self.handle_chargeback(tx.id),
        }
    }

    fn handle_deposit(&mut self, tx: Transaction) -> (r: ProcessorResult<()>)
        requires
            old(self).wf(),
            tx.tx_type is Deposit,
            amount_valid(tx),
        ensures
            final(self).wf(),
            (final(self)@, r) == deposit_step(old(self)@, tx),
    {
        if self.transactions.contains_key(&tx.id) {
            return Err(ProcessorError::DuplicateTransaction { tx_id: tx.id });
        }
        let amount = tx.amount.unwrap();
        match self.available.checked_add(amount) {
            Some(available) => {
                self.available = available;
                self.transactions.insert(tx.id, Transaction { disputed: false, ..tx });
                proof {
                    assert(self@.history == old(self)@.history.insert(tx.id, recorded(tx)));
                }
                Ok(())
            },
            None => Err(ProcessorError::BalanceOverflow { tx_id: tx.id }),
        }
    }

    fn handle_withdrawl(&mut self, tx: Transaction) -> (r: ProcessorResult<()>)
        requires
            old(self).wf(),
            tx.tx_type is Withdrawal,
            amount_valid(tx),
        ensures
            final(self).wf(),
            (final(self)@, r) == withdrawal_step(old(self)@, tx),
    {
        if self.transactions.contains_key(&tx.id) {
            return Err(ProcessorError::DuplicateTransaction { tx_id: tx.id });
        }
        let amount = tx.amount.unwrap();
        if self.available.units < amount.units {
            return Err(ProcessorError::InsufficientFunds { available: self.available, required: amount });
        }
        self.available = Amount::from_units(self.available.units - amount.units);
        self.transactions.insert(tx.id, Transaction { disputed: false, ..tx });
        Ok(())
    }

    fn handle_dispute(&mut self, tx_id: u32) -> (r: ProcessorResult<()>)
        requires
            old(self).wf(),
        ensures
            final(self).wf(),
            (final(self)@, r) == dispute_step(old(self)@, tx_id),
    {
        let rec = match self.transactions.get(&tx_id) {
            Some(rec) => *rec,
            None => {
                return Err(ProcessorError::TransactionNotFound { tx_id });
            },
        };
        let amount = rec.amount.unwrap();
        let available = if rec.tx_type == TransactionType::Deposit {
            // The available balance may go negative here.
            self.available.checked_sub(amount)
        } else {
            Some(self.available)
        };
        let held = self.held.checked_add(amount);
        match (available, held) {
            (Some(available), Some(held)) => {
                self.available = available;
                self.held = held;
                self.transactions.insert(tx_id, Transaction { disputed: true, ..rec });
                Ok(())
            },
            _ => Err(ProcessorError::BalanceOverflow { tx_id }),
        }
    }

    fn handle_resolve(&mut self, tx_id: u32) -> (r: ProcessorResult<()>)
        requires
            old(self).wf(),
        ensures
            final(self).wf(),
            (final(self)@, r) == resolve_step(old(self)@, tx_id),
    {
        let rec = match self.transactions.get(&tx_id) {
            Some(rec) => *rec,
            None => {
                return Err(ProcessorError::TransactionNotFound { tx_id });
            },
        };
        if !rec.disputed {
            return Err(ProcessorError::InvalidDisputeState);
        }
        let amount = rec.amount.unwrap();
        let available = if rec.tx_type == TransactionType::Deposit {
            self.available.checked_add(amount)
        } else {
            Some(self.available)
        };
        let held = self.held.checked_sub(amount);
        match (available, held) {
            (Some(available), Some(held)) => {
                self.available = available;
                self.held = held;
                self.transactions.insert(tx_id, Transaction { disputed: false, ..rec });
                Ok(())
            },
            _ => Err(ProcessorError::BalanceOverflow { tx_id }),
        }
    }

    fn handle_chargeback(&mut self, tx_id: u32) -> (r: ProcessorResult<()>)
        requires
            old(self).wf(),
        ensures
            final(self).wf(),
            (final(self)@, r) == chargeback_step(old(self)@, tx_id),
    {
        let rec = match self.transactions.get(&tx_id) {
            Some(rec) => *rec,
            None => {
                return Err(ProcessorError::TransactionNotFound { tx_id });
            },
        };
        if !rec.disputed {
            return Err(ProcessorError::InvalidDisputeState);
        }
        let amount = rec.amount.unwrap();
        let available = if rec.tx_type == TransactionType::Deposit {
            Some(self.available)
        } else {
            // Reverses the debit of the withdrawal.
            self.available.checked_add(amount)
        };
        let held = self.held.checked_sub(amount);
        match (available, held) {
            (Some(available), Some(held)) => {
                self.available = available;
                self.held = held;
                self.locked = true;
                self.transactions.insert(tx_id, Transaction { disputed: false, ..rec });
                Ok(())
            },
            _ => Err(ProcessorError::BalanceOverflow { tx_id }),
        }
    }
}

} // verus!
