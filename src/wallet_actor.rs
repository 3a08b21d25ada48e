use vstd::prelude::*;

use std::collections::HashMap;

use crate::channel_actor::ChannelActor;
use crate::wallet::{empty_wallet, step, Wallet, WalletModel};
use crate::{ProcessorError, ProcessorResult, Transaction};

verus! {

broadcast use vstd::std_specs::hash::group_hash_axioms;

/// The messages that a shard handles.
pub enum WalletActorMessages {
    /// Apply one transaction to the wallet of its client.
    Tx(Transaction),
    /// Hand over every wallet of the shard, which is left empty.
    Output,
}

/// A client's wallet as a shard hands it over.
pub struct WalletState {
    pub client_id: u16,
    pub wallet: Wallet,
}

/// The mathematical state of a shard.
pub struct ShardModel {
    /// Its clients, in the order in which they were first seen.
    pub clients: Seq<u16>,
    /// Their wallets.
    pub wallets: Map<u16, WalletModel>,
}

impl ShardModel {
    /// The wallet of `c`, or a fresh one where the shard has none yet.
    pub open spec fn wallet_or_empty(self, c: u16) -> WalletModel {
        if self.wallets.contains_key(c) {
            self.wallets[c]
        } else {
            empty_wallet()
        }
    }
}

/// The effect of one transaction on a shard: the wallet of its client, created
/// on first reference whether the transaction then succeeds or not, takes the
/// step of the transaction.
pub open spec fn shard_step(s: ShardModel, tx: Transaction) -> (ShardModel, ProcessorResult<()>) {
    let (w, r) = step(s.wallet_or_empty(tx.client), tx);
    (
        ShardModel {
            clients: if s.wallets.contains_key(tx.client) {
                s.clients
            } else {
                s.clients.push(tx.client)
            },
            wallets: s.wallets.insert(tx.client, w),
        },
        r,
    )
}

/// The state of a shard with no wallet.
pub open spec fn empty_shard() -> ShardModel {
    ShardModel { clients: Seq::empty(), wallets: Map::empty() }
}

/// A shard: the exclusive owner of the wallets of a set of clients.
pub struct WalletActor {
    wallets: HashMap<u16, Wallet>,
    /// The clients of `wallets`, in the order in which they were first seen.
    clients: Vec<u16>,
}

impl View for WalletActor {
    type V = ShardModel;

    open spec fn view(&self) -> ShardModel {
        ShardModel { clients: self.clients(), wallets: self.wallets() }
    }
}

impl WalletActor {
    #[verifier::type_invariant]
    spec fn inv(&self) -> bool {
        &&& self.clients@.no_duplicates()
        &&& forall|c: u16| self.wallets@.contains_key(c) <==> self.clients@.contains(c)
        &&& forall|c: u16|
            #![trigger self.wallets@[c]]
            self.wallets@.contains_key(c) ==> self.wallets@[c].wf()
    }

    /// The clients of the shard, in the order in which they were first seen.
    pub closed spec fn clients(&self) -> Seq<u16> {
        self.clients@
    }

    /// The wallets of the shard, by client.
    pub closed spec fn wallets(&self) -> Map<u16, WalletModel> {
        self.wallets@.map_values(|w: Wallet| w@)
    }

    pub fn create() -> (r: WalletActor)
        ensures
            r@ == empty_shard(),
    {
        let r = WalletActor { wallets: HashMap::new(), clients: Vec::new() };
        proof {
            assert(r.wallets() =~= Map::<u16, WalletModel>::empty());
        }
        r
    }

    /// Applies a transaction to the wallet of its client, which is created on
    /// first reference, whether the transaction then succeeds or not.
    pub fn apply(&mut self, tx: Transaction) -> (r: ProcessorResult<()>)
        ensures
            (final(self)@, r) == shard_step(old(self)@, tx),
    {
        proof {
            use_type_invariant(&*self);
        }
        let ghost old_wallets = self.wallets@;
        let ghost old_clients = self.clients@;
        let mut taken = WalletActor::create();
        std::mem::swap(self, &mut taken);
        let WalletActor { mut wallets, mut clients } = taken;
        let mut wallet = match wallets.remove(&tx.client) {
            Some(w) => w,
            None => {
                clients.push(tx.client);
                Wallet::default()
            },
        };
        let r = wallet.process_transaction(tx);
        wallets.insert(tx.client, wallet);
        proof {
            assert(wallets@ == old_wallets.insert(tx.client, wallet));
            if !old_wallets.contains_key(tx.client) {
                assert(clients@ == old_clients.push(tx.client));
                assert forall|c: u16| old_clients.contains(c) implies clients@.contains(c) by {
                    let k = choose|k: int| 0 <= k < old_clients.len() && old_clients[k] == c;
                    assert(clients@[k] == c);
                }
                assert(clients@[old_clients.len() as int] == tx.client);
                assert forall|c: u16| clients@.contains(c) implies (old_clients.contains(c) || c == tx.client) by {
                    let k = choose|k: int| 0 <= k < clients@.len() && clients@[k] == c;
                    if k < old_clients.len() {
                        assert(old_clients[k] == c);
                    }
                }
            } else {
                assert(clients@ == old_clients);
            }
            assert(old_wallets.contains_key(tx.client) <==> old_clients.contains(tx.client));
            assert(clients@.contains(tx.client));
            assert forall|c: u16| #![auto] wallets@.contains_key(c) <==> clients@.contains(c) by {
                if c != tx.client {
                    assert(wallets@.contains_key(c) == old_wallets.contains_key(c));
                    assert(old_wallets.contains_key(c) <==> old_clients.contains(c));
                    assert(clients@.contains(c) <==> old_clients.contains(c));
                }
            }
        }
        *self = WalletActor { wallets, clients };
        proof {
            assert(self.wallets() =~= old(self).wallets().insert(
                tx.client,
                step(old(self)@.wallet_or_empty(tx.client), tx).0,
            ));
        }
        r
    }

    /// Hands over every wallet, in the order in which their clients were first
    /// seen, and leaves the shard empty: a second call hands over nothing.
    pub fn finalize(&mut self) -> (r: Vec<WalletState>)
        ensures
            r@.len() == old(self)@.clients.len(),
            forall|i: int|
                0 <= i < r@.len() ==> {
                    &&& (#[trigger] r@[i]).client_id == old(self)@.clients[i]
                    &&& r@[i].wallet@ == old(self)@.wallets[old(self)@.clients[i]]
                    &&& r@[i].wallet.wf()
                },
            final(self)@ == empty_shard(),
    {
        proof {
            use_type_invariant(&*self);
        }
        let ghost old_wallets = self.wallets@;
        let mut taken = WalletActor::create();
        std::mem::swap(self, &mut taken);
        let WalletActor { mut wallets, clients } = taken;
        let mut out: Vec<WalletState> = Vec::new();
        let mut i: usize = 0;
        proof {
            assert(clients@.subrange(0, clients@.len() as int) =~= clients@);
        }
        while i < clients.len()
            invariant
                clients@ == old(self).clients(),
                clients@.no_duplicates(),
                forall|c: u16| old_wallets.contains_key(c) <==> clients@.contains(c),
                forall|c: u16|
                    #![trigger old_wallets[c]]
                    old_wallets.contains_key(c) ==> old_wallets[c].wf(),
                old(self).wallets() == old_wallets.map_values(|w: Wallet| w@),
                i <= clients@.len(),
                out@.len() == i,
                forall|c: u16|
                    wallets@.contains_key(c) <==> clients@.subrange(i as int, clients@.len() as int).contains(c),
                forall|c: u16| #[trigger] wallets@.contains_key(c) ==> wallets@[c] == old_wallets[c],
                forall|j: int|
                    0 <= j < i ==> {
                        &&& (#[trigger] out@[j]).client_id == clients@[j]
                        &&& out@[j].wallet == old_wallets[clients@[j]]
                    },
            decreases clients@.len() - i,
        {
            let c = clients[i];
            proof {
                assert(clients@.subrange(i as int, clients@.len() as int)[0] == c);
            }
            let w = wallets.remove(&c);
            match w {
                Some(wallet) => {
                    out.push(WalletState { client_id: c, wallet });
                },
                None => {
                    assert(false);
                },
            }
            proof {
                let tail = clients@.subrange(i as int, clients@.len() as int);
                let rest = clients@.subrange(i + 1, clients@.len() as int);
                assert(tail =~= seq![c] + rest);
                assert forall|d: u16|
                    wallets@.contains_key(d) <==> clients@.subrange(i + 1, clients@.len() as int).contains(d) by {
                    if rest.contains(d) {
                        let k = choose|k: int| 0 <= k < rest.len() && rest[k] == d;
                        assert(clients@[i + 1 + k] == d);
                        assert(tail[k + 1] == d);
                        assert(d != c);
                    }
                    if wallets@.contains_key(d) {
                        assert(tail.contains(d));
                        let k = choose|k: int| 0 <= k < tail.len() && tail[k] == d;
                        assert(k != 0);
                        assert(rest[k - 1] == d);
                    }
                }
            }
            i = i + 1;
        }
        proof {
            assert forall|j: int| 0 <= j < out@.len() implies out@[j].wallet.wf() by {
                assert(clients@.contains(clients@[j]));
            }
        }
        out
    }
}

impl ChannelActor<WalletActorMessages> for WalletActor {
    type Reply = Option<Vec<WalletState>>;

    /// `Tx` applies the transaction to its client's wallet; the wallet is created
    /// if it is new. `Output` hands over every wallet and leaves the shard empty.
    fn handle(&mut self, msg: WalletActorMessages) -> (r: ProcessorResult<Option<Vec<WalletState>>>)
        ensures
            match msg {
                WalletActorMessages::Tx(tx) => {
                    &&& final(self)@ == shard_step(old(self)@, tx).0
                    &&& match shard_step(old(self)@, tx).1 {
                        Ok(_) => r == Ok::<Option<Vec<WalletState>>, ProcessorError>(None),
                        Err(e) => r == Err::<Option<Vec<WalletState>>, ProcessorError>(e),
                    }
                },
                WalletActorMessages::Output => {
                    &&& r is Ok
                    &&& r->Ok_0 is Some
                    &&& final(self)@ == empty_shard()
                    &&& r->Ok_0->0@.len() == old(self)@.clients.len()
                    &&& forall|i: int|
                        0 <= i < old(self)@.clients.len() ==> {
                            &&& (#[trigger] r->Ok_0->0@[i]).client_id == old(self)@.clients[i]
                            &&& r->Ok_0->0@[i].wallet@ == old(self)@.wallets[old(self)@.clients[i]]
                            &&& r->Ok_0->0@[i].wallet.wf()
                        }
                },
            },
    {
        match msg {
            WalletActorMessages::Tx(tx) => match self.apply(tx) {
                Ok(()) => Ok(None),
                Err(e) => Err(e),
            },
            WalletActorMessages::Output => Ok(Some(self.finalize())),
        }
    }
}

} // verus!
