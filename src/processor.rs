use vstd::prelude::*;
use vstd::pervasive::VecAdditionalExecFns;

use crate::amount::rendered;
use crate::wallet::WalletModel;
use crate::wallet_actor::{empty_shard, shard_step, ShardModel, WalletActor, WalletState};
use crate::{amount_valid, ProcessorError, ProcessorResult, Transaction};

verus! {

/// The shard that owns the wallet of `client` among `n` shards.
pub open spec fn shard_index(client: u16, n: nat) -> int {
    client as int % n as int
}

/// The shard of a client: every record of one client goes to the same shard.
pub fn shard_for(client: u16, actor_count: usize) -> (r: usize)
    requires
        actor_count > 0,
    ensures
        r as int == shard_index(client, actor_count as nat),
        r < actor_count,
{
    client as usize % actor_count
}

/// The decision taken on one record before dispatch: the shard it goes to, or
/// `InvalidAmount`, which aborts the run, for a deposit or withdrawal whose
/// amount is missing or negative.
pub fn route(tx: &Transaction, actor_count: usize) -> (r: ProcessorResult<usize>)
    requires
        actor_count > 0,
    ensures
        r is Ok <==> amount_valid(*tx),
        r is Ok ==> r->Ok_0 as int == shard_index(tx.client, actor_count as nat),
        r is Err ==> r == Err::<usize, ProcessorError>(ProcessorError::InvalidAmount { tx_id: tx.id }),
{
    match tx.validate_amount() {
        Ok(()) => Ok(shard_for(tx.client, actor_count)),
        Err(e) => Err(e),
    }
}

/// What the engine does with one record of the source.
pub enum RecordAction {
    /// The record could not be read: report it and go on.
    Skip,
    /// Send the transaction to the shard of this index.
    Dispatch { shard: usize, tx: Transaction },
    /// End the run with this error.
    Abort(ProcessorError),
}

/// The decision on one record: skip a record that could not be read, abort on
/// a deposit or withdrawal with a missing or negative amount, else send it to
/// the shard of its client.
pub fn plan_record(record: &ProcessorResult<Transaction>, actor_count: usize) -> (r: RecordAction)
    requires
        actor_count > 0,
    ensures
        match *record {
            Err(_) => r is Skip,
            Ok(tx) => if amount_valid(tx) {
                r == RecordAction::Dispatch {
                    shard: shard_index(tx.client, actor_count as nat) as usize,
                    tx,
                }
            } else {
                r == RecordAction::Abort(ProcessorError::InvalidAmount { tx_id: tx.id })
            },
        },
{
    match record {
        Err(_) => RecordAction::Skip,
        Ok(tx) => match route(tx, actor_count) {
            Ok(shard) => RecordAction::Dispatch { shard, tx: *tx },
            Err(e) => RecordAction::Abort(e),
        },
    }
}

/// One row of the final snapshot; `total` is derived here, as `available + held`.
pub struct WalletCsvView {
    pub client_id: u16,
    pub available: String,
    pub held: String,
    pub total: String,
    pub locked: bool,
}

/// Whether `v` is the snapshot row of the wallet `w` of client `c`.
pub open spec fn row_of(v: WalletCsvView, c: u16, w: WalletModel) -> bool {
    &&& v.client_id == c
    &&& v.available@ == rendered(w.available)
    &&& v.held@ == rendered(w.held)
    &&& v.total@ == rendered(w.available + w.held)
    &&& v.locked == w.locked
}

impl WalletCsvView {
    /// Projects a wallet handed over by a shard to its output row.
    pub fn from_state(state: &WalletState) -> (r: WalletCsvView)
        requires
            state.wallet.wf(),
        ensures
            row_of(r, state.client_id, state.wallet@),
    {
        let w = &state.wallet;
        let total = crate::amount::Amount::from_units(w.available.units + w.held.units);
        WalletCsvView {
            client_id: state.client_id,
            available: w.available.render(),
            held: w.held.render(),
            total: total.render(),
            locked: w.locked,
        }
    }
}

/// The effect of one record on the shards: nothing, with `InvalidAmount`, for a
/// deposit or withdrawal with a bad amount; else the shard of its client takes
/// it, and the business outcome stays inside that shard.
pub open spec fn dispatch_step(shards: Seq<ShardModel>, tx: Transaction) -> (
    Seq<ShardModel>,
    ProcessorResult<()>,
) {
    if !amount_valid(tx) {
        (shards, Err(ProcessorError::InvalidAmount { tx_id: tx.id }))
    } else {
        let i = shard_index(tx.client, shards.len());
        (shards.update(i, shard_step(shards[i], tx).0), Ok(()))
    }
}

/// The effect of a stream of records: a record that could not be read is
/// skipped, and the first record with a bad amount ends the run with its error.
pub open spec fn run(shards: Seq<ShardModel>, records: Seq<ProcessorResult<Transaction>>) -> (
    Seq<ShardModel>,
    ProcessorResult<()>,
)
    decreases records.len(),
{
    if records.len() == 0 {
        (shards, Ok(()))
    } else {
        match records[0] {
            Err(_) => run(shards, records.drop_first()),
            Ok(tx) => {
                let (next, r) = dispatch_step(shards, tx);
                if r is Err {
                    (next, r)
                } else {
                    run(next, records.drop_first())
                }
            },
        }
    }
}

/// Every wallet lives in the shard that its client is routed to.
pub open spec fn owned_by_index(shards: Seq<ShardModel>) -> bool {
    forall|i: int, c: u16|
        0 <= i < shards.len() && (#[trigger] shards[i].wallets.contains_key(c)) ==> shard_index(
            c,
            shards.len(),
        ) == i
}

/// The wallets of a shard in the order in which they are handed over.
pub open spec fn shard_rows(s: ShardModel) -> Seq<(u16, WalletModel)> {
    s.clients.map_values(|c: u16| (c, s.wallets[c]))
}

/// The wallets of all shards, shard by shard in index order.
pub open spec fn all_rows(shards: Seq<ShardModel>) -> Seq<(u16, WalletModel)>
    decreases shards.len(),
{
    if shards.len() == 0 {
        Seq::empty()
    } else {
        all_rows(shards.drop_last()) + shard_rows(shards.last())
    }
}

/// The engine with its shards driven in the caller's thread: records are
/// validated and routed as the concurrent runner does, and each shard applies
/// its records in the order in which they were read.
pub struct TransactionProcessor {
    actor_count: usize,
    wallet_actors: Vec<WalletActor>,
}

impl View for TransactionProcessor {
    type V = Seq<ShardModel>;

    closed spec fn view(&self) -> Seq<ShardModel> {
        self.wallet_actors@.map_values(|a: WalletActor| a@)
    }
}

impl TransactionProcessor {
    pub closed spec fn wf(&self) -> bool {
        &&& self.actor_count > 0
        &&& self.wallet_actors@.len() == self.actor_count
        &&& owned_by_index(self@)
    }

    /// An engine of `actor_count` empty shards.
    pub fn new(actor_count: usize) -> (r: TransactionProcessor)
        requires
            actor_count > 0,
        ensures
            r.wf(),
            r@ == Seq::new(actor_count as nat, |i: int| empty_shard()),
    {
        let mut wallet_actors: Vec<WalletActor> = Vec::new();
        let mut i: usize = 0;
        while i < actor_count
            invariant
                i <= actor_count,
                wallet_actors@.len() == i,
                forall|j: int| 0 <= j < i ==> (#[trigger] wallet_actors@[j])@ == empty_shard(),
            decreases actor_count - i,
        {
            wallet_actors.push(WalletActor::create());
            i = i + 1;
        }
        let r = TransactionProcessor { actor_count, wallet_actors };
        proof {
            assert(r@ =~= Seq::new(actor_count as nat, |i: int| empty_shard()));
        }
        r
    }

    /// Validates one record and hands it to the shard of its client.
    pub fn process_record(&mut self, tx: Transaction) -> (r: ProcessorResult<()>)
        requires
            old(self).wf(),
        ensures
            final(self).wf(),
            (final(self)@, r) == dispatch_step(old(self)@, tx),
    {
        let i = match route(&tx, self.actor_count) {
            Ok(i) => i,
            Err(e) => {
                return Err(e);
            },
        };
        let mut shard = WalletActor::create();
        self.wallet_actors.set_and_swap(i, &mut shard);
        // A business-rule failure concerns this one transaction: the run goes on.
        let _ = shard.apply(tx);
        self.wallet_actors.set_and_swap(i, &mut shard);
        proof {
            assert(self@ =~= old(self)@.update(i as int, shard_step(old(self)@[i as int], tx).0));
            assert forall|j: int, c: u16|
                0 <= j < self@.len() && (#[trigger] self@[j].wallets.contains_key(c)) implies shard_index(
                c,
                self@.len(),
            ) == j by {
                if j == i as int && c != tx.client {
                    assert(old(self)@[j].wallets.contains_key(c));
                }
            }
        }
        Ok(())
    }

    /// Processes a stream of records in order: a record that could not be read
    /// is skipped; a deposit or withdrawal with a bad amount ends the run.
    pub fn process(&mut self, records: Vec<ProcessorResult<Transaction>>) -> (r: ProcessorResult<()>)
        requires
            old(self).wf(),
        ensures
            final(self).wf(),
            (final(self)@, r) == run(old(self)@, records@),
    {
        let mut i: usize = 0;
        proof {
            assert(records@.subrange(0, records@.len() as int) =~= records@);
        }
        while i < records.len()
            invariant
                self.wf(),
                i <= records@.len(),
                run(old(self)@, records@) == run(self@, records@.subrange(i as int, records@.len() as int)),
            decreases records@.len() - i,
        {
            let ghost rest = records@.subrange(i as int, records@.len() as int);
            proof {
                assert(rest.drop_first() =~= records@.subrange(i + 1, records@.len() as int));
                assert(rest[0] == records@[i as int]);
            }
            match plan_record(&records[i], self.actor_count) {
                RecordAction::Skip => {},
                RecordAction::Dispatch { tx, .. } => {
                    let _ = self.process_record(tx);
                },
                RecordAction::Abort(e) => {
                    return Err(e);
                },
            }
            i = i + 1;
        }
        proof {
            assert(records@.subrange(i as int, records@.len() as int).len() == 0);
        }
        Ok(())
    }

    /// Asks every shard, in index order, for its wallets and projects each to
    /// its snapshot row. The shards are drained: a second call returns nothing.
    pub fn output(&mut self) -> (r: Vec<WalletCsvView>)
        requires
            old(self).wf(),
        ensures
            final(self).wf(),
            final(self)@ == Seq::new(old(self)@.len(), |i: int| empty_shard()),
            r@.len() == all_rows(old(self)@).len(),
            forall|k: int|
                0 <= k < r@.len() ==> row_of(
                    #[trigger] r@[k],
                    all_rows(old(self)@)[k].0,
                    all_rows(old(self)@)[k].1,
                ),
    {
        let ghost start = self@;
        let mut out: Vec<WalletCsvView> = Vec::new();
        let mut i: usize = 0;
        while i < self.wallet_actors.len()
            invariant
                self.wf(),
                self@.len() == start.len(),
                owned_by_index(start),
                i <= self@.len(),
                forall|j: int| 0 <= j < i ==> (#[trigger] self@[j]) == empty_shard(),
                forall|j: int| i <= j < self@.len() ==> (#[trigger] self@[j]) == start[j],
                out@.len() == all_rows(start.subrange(0, i as int)).len(),
                forall|k: int|
                    0 <= k < out@.len() ==> row_of(
                        #[trigger] out@[k],
                        all_rows(start.subrange(0, i as int))[k].0,
                        all_rows(start.subrange(0, i as int))[k].1,
                    ),
            decreases self@.len() - i,
        {
            let ghost before = out@;
            let ghost pre = self.wallet_actors@;
            let ghost pre_view = self@;
            let mut shard = WalletActor::create();
            self.wallet_actors.set_and_swap(i, &mut shard);
            proof {
                assert(pre_view[i as int] == start[i as int]);
                assert(pre_view[i as int] == pre[i as int]@);
                assert(shard == pre[i as int]);
                assert(shard@ == start[i as int]);
                assert(self@ =~= pre_view.update(i as int, empty_shard()));
            }
            let states = shard.finalize();
            let mut k: usize = 0;
            while k < states.len()
                invariant
                    k <= states@.len(),
                    i < start.len(),
                    states@.len() == start[i as int].clients.len(),
                    forall|m: int|
                        0 <= m < states@.len() ==> {
                            &&& (#[trigger] states@[m]).client_id == start[i as int].clients[m]
                            &&& states@[m].wallet@ == start[i as int].wallets[start[i as int].clients[m]]
                            &&& states@[m].wallet.wf()
                        },
                    out@.len() == before.len() + k,
                    forall|m: int| 0 <= m < before.len() ==> #[trigger] out@[m] == before[m],
                    forall|m: int|
                        0 <= m < k ==> row_of(
                            #[trigger] out@[before.len() + m],
                            shard_rows(start[i as int])[m].0,
                            shard_rows(start[i as int])[m].1,
                        ),
                decreases states@.len() - k,
            {
                let row = WalletCsvView::from_state(&states[k]);
                out.push(row);
                proof {
                    assert(out@[before.len() + k] == row);
                }
                k = k + 1;
            }
            proof {
                let prefix = start.subrange(0, i as int + 1);
                assert(prefix.drop_last() =~= start.subrange(0, i as int));
                assert(prefix.last() == start[i as int]);
                let old_rows = all_rows(start.subrange(0, i as int));
                let sr = shard_rows(start[i as int]);
                assert(all_rows(prefix) == old_rows + sr);
                assert(before.len() == old_rows.len());
                assert forall|k: int| 0 <= k < out@.len() implies row_of(
                    #[trigger] out@[k],
                    all_rows(prefix)[k].0,
                    all_rows(prefix)[k].1,
                ) by {
                    if k < before.len() {
                        assert(out@[k] == before[k]);
                        assert(all_rows(prefix)[k] == old_rows[k]);
                    } else {
                        let m = k - before.len();
                        assert(out@[before.len() + m] == out@[k]);
                        assert(all_rows(prefix)[k] == sr[m]);
                    }
                }
                assert forall|j: int, c: u16|
                    0 <= j < self@.len() && (#[trigger] self@[j].wallets.contains_key(c)) implies shard_index(
                    c,
                    self@.len(),
                ) == j by {
                    if j <= i as int {
                        assert(self@[j] == empty_shard());
                    } else {
                        assert(self@[j] == start[j]);
                        assert(start[j].wallets.contains_key(c));
                    }
                }
            }
            i = i + 1;
        }
        proof {
            assert(start.subrange(0, i as int) =~= start);
            assert(self@ =~= Seq::new(start.len(), |i: int| empty_shard()));
        }
        out
    }
}

} // verus!
