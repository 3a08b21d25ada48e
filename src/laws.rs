use vstd::prelude::*;

use crate::amount::fits;
use crate::processor::{dispatch_step, owned_by_index, run, shard_index};
use crate::wallet::{amount_of, step, WalletModel};
use crate::wallet_actor::{shard_step, ShardModel};
use crate::{amount_valid, moves_funds, ProcessorError, ProcessorResult, Transaction, TransactionType};

verus! {

/// The wallet after a sequence of transactions, each applied with `step`.
pub open spec fn apply_all(w: WalletModel, txs: Seq<Transaction>) -> WalletModel
    decreases txs.len(),
{
    if txs.len() == 0 {
        w
    } else {
        apply_all(step(w, txs[0]).0, txs.drop_first())
    }
}

/// What a deposit adds to, or a withdrawal takes from, the available balance.
pub open spec fn signed_amount(tx: Transaction) -> int {
    if tx.tx_type is Deposit {
        amount_of(tx)
    } else {
        -amount_of(tx)
    }
}

/// The accepted deposits minus the accepted withdrawals of a sequence.
pub open spec fn accepted_net(w: WalletModel, txs: Seq<Transaction>) -> int
    decreases txs.len(),
{
    if txs.len() == 0 {
        0
    } else {
        let (next, r) = step(w, txs[0]);
        (if r is Ok { signed_amount(txs[0]) } else { 0 }) + accepted_net(next, txs.drop_first())
    }
}

pub open spec fn tx_of(kind: TransactionType, client: u16, id: u32) -> Transaction {
    Transaction { tx_type: kind, client, id, amount: None, disputed: false }
}

/// Over deposits and withdrawals alone, the available balance moves by exactly
/// the accepted deposits minus the accepted withdrawals, and the held balance
/// does not move.
pub proof fn lemma_deposits_and_withdrawals(w: WalletModel, txs: Seq<Transaction>)
    requires
        forall|i: int| 0 <= i < txs.len() ==> moves_funds(#[trigger] txs[i].tx_type),
    ensures
        apply_all(w, txs).available == w.available + accepted_net(w, txs),
        apply_all(w, txs).held == w.held,
    decreases txs.len(),
{
    if txs.len() > 0 {
        let rest = txs.drop_first();
        assert forall|i: int| 0 <= i < rest.len() implies moves_funds(#[trigger] rest[i].tx_type) by {
            assert(rest[i] == txs[i + 1]);
        }
        assert(moves_funds(txs[0].tx_type));
        lemma_deposits_and_withdrawals(step(w, txs[0]).0, rest);
    }
}

/// The same for a fresh wallet: available is the accepted deposits minus the
/// accepted withdrawals, and nothing is held.
pub proof fn lemma_fresh_wallet_balance(txs: Seq<Transaction>)
    requires
        forall|i: int| 0 <= i < txs.len() ==> moves_funds(#[trigger] txs[i].tx_type),
    ensures
        apply_all(crate::wallet::empty_wallet(), txs).available == accepted_net(
            crate::wallet::empty_wallet(),
            txs,
        ),
        apply_all(crate::wallet::empty_wallet(), txs).held == 0,
{
    lemma_deposits_and_withdrawals(crate::wallet::empty_wallet(), txs);
}

/// A dispute of a recorded deposit of amount A moves A from available to held;
/// the sum of the two does not change.
pub proof fn lemma_dispute_of_deposit(w: WalletModel, client: u16, id: u32)
    requires
        w.history.contains_key(id),
        w.history[id].tx_type is Deposit,
        fits(w.available - amount_of(w.history[id])),
        fits(w.held + amount_of(w.history[id])),
    ensures
        ({
            let a = amount_of(w.history[id]);
            let (next, r) = step(w, tx_of(TransactionType::Dispute, client, id));
            &&& r is Ok
            &&& next.available == w.available - a
            &&& next.held == w.held + a
            &&& next.available + next.held == w.available + w.held
        }),
{
}

/// A resolve right after an accepted dispute of the same transaction gives
/// back the balances from before the dispute.
pub proof fn lemma_resolve_reverses_dispute(w: WalletModel, client: u16, id: u32)
    requires
        w.wf(),
        step(w, tx_of(TransactionType::Dispute, client, id)).1 is Ok,
    ensures
        ({
            let disputed = step(w, tx_of(TransactionType::Dispute, client, id)).0;
            let (resolved, r) = step(disputed, tx_of(TransactionType::Resolve, client, id));
            &&& r is Ok
            &&& resolved.available == w.available
            &&& resolved.held == w.held
            &&& resolved.locked == w.locked
        }),
{
    let rec = w.history[id];
    assert(w.history.contains_key(id));
    let disputed = step(w, tx_of(TransactionType::Dispute, client, id)).0;
    assert(disputed.history[id] == crate::wallet::set_disputed(rec, true));
}

/// A chargeback right after an accepted dispute locks the wallet and takes the
/// disputed amount A out of held for good; for a withdrawal it also gives A back
/// to available.
pub proof fn lemma_chargeback_after_dispute(w: WalletModel, client: u16, id: u32)
    requires
        w.wf(),
        step(w, tx_of(TransactionType::Dispute, client, id)).1 is Ok,
        w.history[id].tx_type is Withdrawal ==> fits(w.available + amount_of(w.history[id])),
    ensures
        ({
            let a = amount_of(w.history[id]);
            let disputed = step(w, tx_of(TransactionType::Dispute, client, id)).0;
            let (charged, r) = step(disputed, tx_of(TransactionType::Chargeback, client, id));
            &&& r is Ok
            &&& charged.locked
            &&& charged.held == disputed.held - a
            &&& charged.held == w.held
            &&& charged.available == if w.history[id].tx_type is Deposit {
                w.available - a
            } else {
                w.available + a
            }
        }),
{
    let rec = w.history[id];
    assert(w.history.contains_key(id));
    let disputed = step(w, tx_of(TransactionType::Dispute, client, id)).0;
    assert(disputed.history[id] == crate::wallet::set_disputed(rec, true));
}

/// After a chargeback the transaction is no longer under dispute: a resolve
/// of it fails with `InvalidDisputeState` and cannot give back the funds.
pub proof fn lemma_no_resolve_after_chargeback(w: WalletModel, client: u16, id: u32)
    requires
        step(w, tx_of(TransactionType::Chargeback, client, id)).1 is Ok,
    ensures
        ({
            let charged = step(w, tx_of(TransactionType::Chargeback, client, id)).0;
            step(charged, tx_of(TransactionType::Resolve, client, id)) == (
                charged,
                Err::<(), ProcessorError>(ProcessorError::InvalidDisputeState),
            )
        }),
{
    let charged = step(w, tx_of(TransactionType::Chargeback, client, id)).0;
    assert(charged.history[id] == crate::wallet::set_disputed(w.history[id], false));
}

/// Over deposits and withdrawals alone, the lock does not change, records
/// already in the ledger stay as they are, and every record added is not
/// under dispute.
pub proof fn lemma_movements_keep_records(w: WalletModel, txs: Seq<Transaction>)
    requires
        forall|i: int| 0 <= i < txs.len() ==> moves_funds(#[trigger] txs[i].tx_type),
    ensures
        apply_all(w, txs).locked == w.locked,
        forall|k: u32| #[trigger] w.history.contains_key(k) ==> apply_all(w, txs).history.contains_key(k)
            && apply_all(w, txs).history[k] == w.history[k],
        forall|k: u32|
            #[trigger] apply_all(w, txs).history.contains_key(k) && !w.history.contains_key(k)
                ==> !apply_all(w, txs).history[k].disputed,
    decreases txs.len(),
{
    if txs.len() > 0 {
        let rest = txs.drop_first();
        assert forall|i: int| 0 <= i < rest.len() implies moves_funds(#[trigger] rest[i].tx_type) by {
            assert(rest[i] == txs[i + 1]);
        }
        assert(moves_funds(txs[0].tx_type));
        let next = step(w, txs[0]).0;
        lemma_movements_keep_records(next, rest);
        let end = apply_all(w, txs);
        assert(end == apply_all(next, rest));
        assert forall|k: u32| #[trigger] w.history.contains_key(k) implies end.history.contains_key(k)
            && end.history[k] == w.history[k] by {
            assert(next.history.contains_key(k) && next.history[k] == w.history[k]);
        }
        assert forall|k: u32|
            #[trigger] end.history.contains_key(k) && !w.history.contains_key(k) implies !end.history[k].disputed by {
            if next.history.contains_key(k) {
                assert(!next.history[k].disputed);
                assert(end.history[k] == next.history[k]);
            }
        }
    }
}

/// From a fresh wallet, a run of deposits and withdrawals leaves it unlocked
/// with no record under dispute.
pub proof fn lemma_fresh_wallet_undisputed(txs: Seq<Transaction>)
    requires
        forall|i: int| 0 <= i < txs.len() ==> moves_funds(#[trigger] txs[i].tx_type),
    ensures
        !apply_all(crate::wallet::empty_wallet(), txs).locked,
        forall|k: u32|
            #[trigger] apply_all(crate::wallet::empty_wallet(), txs).history.contains_key(k)
                ==> !apply_all(crate::wallet::empty_wallet(), txs).history[k].disputed,
{
    lemma_movements_keep_records(crate::wallet::empty_wallet(), txs);
}

/// A locked wallet turns down every deposit and withdrawal, whatever its
/// amount, with `AccountLocked`, and stays as it was.
pub proof fn lemma_locked_rejects(w: WalletModel, tx: Transaction)
    requires
        w.locked,
        moves_funds(tx.tx_type),
    ensures
        step(w, tx) == (w, Err::<(), ProcessorError>(ProcessorError::AccountLocked { client: tx.client })),
{
}

/// Whatever the number of shards, a deposit or withdrawal for a client whose
/// wallet is locked leaves every shard as it was.
pub proof fn lemma_locked_rejects_in_any_shard(shards: Seq<ShardModel>, tx: Transaction)
    requires
        shards.len() > 0,
        shards[shard_index(tx.client, shards.len())].wallets.contains_key(tx.client),
        shards[shard_index(tx.client, shards.len())].wallets[tx.client].locked,
        moves_funds(tx.tx_type),
        amount_valid(tx),
    ensures
        dispatch_step(shards, tx) == (shards, Ok::<(), ProcessorError>(())),
{
    let i = shard_index(tx.client, shards.len());
    let s = shards[i];
    let next = shard_step(s, tx).0;
    assert(next.wallets =~= s.wallets);
    assert(next == s);
    assert(shards.update(i, next) =~= shards);
}

/// Routing depends on the client and the shard count alone: two records of one
/// client go to the same shard.
pub proof fn lemma_same_client_same_shard(a: Transaction, b: Transaction, n: nat)
    requires
        n > 0,
        a.client == b.client,
    ensures
        shard_index(a.client, n) == shard_index(b.client, n),
        0 <= shard_index(a.client, n) < n,
{
}

/// One record keeps every wallet in the shard of its client.
pub proof fn lemma_dispatch_keeps_ownership(shards: Seq<ShardModel>, tx: Transaction)
    requires
        shards.len() > 0,
        owned_by_index(shards),
    ensures
        dispatch_step(shards, tx).0.len() == shards.len(),
        owned_by_index(dispatch_step(shards, tx).0),
{
    if amount_valid(tx) {
        let i = shard_index(tx.client, shards.len());
        let next = dispatch_step(shards, tx).0;
        assert forall|j: int, c: u16|
            0 <= j < next.len() && (#[trigger] next[j].wallets.contains_key(c)) implies shard_index(
            c,
            next.len(),
        ) == j by {
            if j == i && c != tx.client {
                assert(shards[j].wallets.contains_key(c));
            }
        }
    }
}

/// For any stream of records, in any order, every wallet ends in the shard that
/// its client is routed to: all records of a client are handled by one shard.
pub proof fn lemma_run_keeps_ownership(
    shards: Seq<ShardModel>,
    records: Seq<ProcessorResult<Transaction>>,
)
    requires
        shards.len() > 0,
        owned_by_index(shards),
    ensures
        run(shards, records).0.len() == shards.len(),
        owned_by_index(run(shards, records).0),
    decreases records.len(),
{
    if records.len() > 0 {
        match records[0] {
            Err(_) => {
                lemma_run_keeps_ownership(shards, records.drop_first());
            },
            Ok(tx) => {
                lemma_dispatch_keeps_ownership(shards, tx);
                let next = dispatch_step(shards, tx).0;
                lemma_run_keeps_ownership(next, records.drop_first());
            },
        }
    }
}

} // verus!
