//! The account store: the single owner of all accounts, applying transactions
//! strictly in arrival order. An account is created lazily, zero-valued and
//! unlocked, on the first transaction naming its client id.

use vstd::prelude::*;
use std::collections::HashMap;

use crate::account::{Account, AccountView, TxError, fits_view, tx_outcome, tx_step};
use crate::tx::{ClientId, Tx};

verus! {

broadcast use vstd::std_specs::hash::group_hash_axioms;

/// The account named by `c`, a fresh one if none is known yet.
pub open spec fn account_of(m: Map<ClientId, AccountView>, c: ClientId) -> AccountView {
    if m.contains_key(c) {
        m[c]
    } else {
        AccountView::fresh()
    }
}

/// One transaction applied to the store: the named account steps, every other
/// account is untouched. A rejected transaction leaves its account unchanged.
pub open spec fn store_step(m: Map<ClientId, AccountView>, tx: Tx) -> Map<ClientId, AccountView> {
    m.insert(tx.client_id, tx_step(account_of(m, tx.client_id), tx))
}

/// A whole sequence applied in order, rejected transactions skipped.
pub open spec fn store_run(m: Map<ClientId, AccountView>, txs: Seq<Tx>) -> Map<
    ClientId,
    AccountView,
>
    decreases txs.len(),
{
    if txs.len() == 0 {
        m
    } else {
        store_step(store_run(m, txs.drop_last()), txs.last())
    }
}

/// Whether `tx` keeps the named account's balances within the machine range.
pub open spec fn store_fits(m: Map<ClientId, AccountView>, tx: Tx) -> bool {
    fits_view(account_of(m, tx.client_id), tx)
}

/// Whether every transaction of the sequence, applied in order, keeps
/// balances within the machine range.
pub open spec fn store_fits_all(m: Map<ClientId, AccountView>, txs: Seq<Tx>) -> bool {
    forall|i: int|
        0 <= i < txs.len() ==> store_fits(store_run(m, txs.take(i)), #[trigger] txs[i])
}

/// The mapping from client id to account, together with the order in which
/// clients were first seen, which fixes the snapshot order.
pub struct AccountStore {
    pub accounts: HashMap<ClientId, Account>,
    pub order: Vec<ClientId>,
}

impl View for AccountStore {
    type V = Map<ClientId, AccountView>;

    open spec fn view(&self) -> Map<ClientId, AccountView> {
        Map::new(
            |c: ClientId| self.accounts@.contains_key(c),
            |c: ClientId| self.accounts@[c]@,
        )
    }
}

impl AccountStore {
    /// Every known account is well formed, and the first-seen list names
    /// exactly the known clients, each once.
    pub open spec fn wf(self) -> bool {
        &&& forall|c: ClientId|
            #[trigger] self.accounts@.contains_key(c) ==> self.accounts@[c]@.wf()
        &&& self.order@.no_duplicates()
        &&& self.order@.to_set() =~= self.accounts@.dom()
    }

    /// The client ids in first-seen order.
    pub open spec fn clients(self) -> Seq<ClientId> {
        self.order@
    }

    /// An empty store: no accounts yet.
    pub fn new() -> (r: AccountStore)
        ensures
            r.wf(),
            r@ =~= Map::<ClientId, AccountView>::empty(),
            r.clients() == Seq::<ClientId>::empty(),
    {
        let r = AccountStore { accounts: HashMap::new(), order: Vec::new() };
        proof {
            assert(r.order@.to_set() =~= r.accounts@.dom());
        }
        r
    }

    /// Whether applying `tx` keeps the named account's balances within the
    /// machine range; callers check this before [`AccountStore::apply_tx`].
    pub fn can_apply(&self, tx: Tx) -> (r: bool)
        ensures
            r == store_fits(self@, tx),
    {
        match self.accounts.get(&tx.client_id) {
            Some(acct) => acct.check_fits(tx),
            None => {
                let fresh = Account::new();
                fresh.check_fits(tx)
            },
        }
    }

    /// Applies one transaction to the account it names, creating the account
    /// if it is new. The result is the account's own verdict; a rejection
    /// changes nothing.
    pub fn apply_tx(&mut self, tx: Tx) -> (r: Result<(), TxError>)
        requires
            old(self).wf(),
            store_fits(old(self)@, tx),
        ensures
            final(self).wf(),
            final(self)@ == store_step(old(self)@, tx),
            match tx_outcome(account_of(old(self)@, tx.client_id), tx) {
                Ok(_) => r == Ok::<(), TxError>(()),
                Err(e) => r == Err::<(), TxError>(e),
            },
            final(self).clients() == if old(self)@.contains_key(tx.client_id) {
                old(self).clients()
            } else {
                old(self).clients().push(tx.client_id)
            },
    {
        let ghost pre = self@;
        let ghost pre_map = self.accounts@;
        let ghost pre_order = self.order@;
        let c = tx.client_id;
        let mut acct = match self.accounts.remove(&c) {
            Some(a) => a,
            None => {
                self.order.push(c);
                Account::new()
            },
        };
        proof {
            assert(acct@ == account_of(pre, c));
        }
        let r = acct.process_tx(tx);
        self.accounts.insert(c, acct);
        proof {
            assert(self.accounts@ =~= pre_map.insert(c, acct));
            assert(self@ =~= store_step(pre, tx));
            if pre_map.contains_key(c) {
                assert(self.order@.to_set() =~= self.accounts@.dom());
            } else {
                pre_order.lemma_push_to_set_commute(c);
                assert(self.order@.to_set() =~= self.accounts@.dom());
                assert(!pre_order.contains(c));
                assert forall|i: int, j: int|
                    0 <= i < j < self.order@.len() implies self.order@[i] != self.order@[j] by {
                    if j == self.order@.len() - 1 {
                        assert(pre_order.contains(pre_order[i]));
                    }
                }
                assert(self.order@.no_duplicates());
            }
        }
        r
    }

    /// Applies a batch in order, skipping rejected transactions, and stops
    /// only if some transaction would push a balance out of the machine
    /// range: `Some(i)` names the first such index, with everything before it
    /// applied; `None` means the whole batch was applied.
    #[verifier::rlimit(100)]
    #[verifier::loop_isolation(false)]
    pub fn apply_batch(&mut self, batch: &Vec<Tx>) -> (r: Option<usize>)
        requires
            old(self).wf(),
        ensures
            final(self).wf(),
            match r {
                None => {
                    &&& store_fits_all(old(self)@, batch@)
                    &&& final(self)@ == store_run(old(self)@, batch@)
                },
                Some(i) => {
                    &&& i < batch@.len()
                    &&& store_fits_all(old(self)@, batch@.take(i as int))
                    &&& !store_fits(store_run(old(self)@, batch@.take(i as int)), batch@[i as int])
                    &&& final(self)@ == store_run(old(self)@, batch@.take(i as int))
                },
            },
    {
        let ghost pre = self@;
        let n = batch.len();
        for i in 0..n
            invariant
                n == batch@.len(),
                self.wf(),
                store_fits_all(pre, batch@.take(i as int)),
                self@ == store_run(pre, batch@.take(i as int)),
        {
            let tx = batch[i];
            if !self.can_apply(tx) {
                return Some(i);
            }
            let _ = self.apply_tx(tx);
            proof {
                lemma_store_run_take_succ(pre, batch@, i as int);
                lemma_store_fits_all_extend(pre, batch@, i as int);
            }
        }
        proof {
            assert(batch@.take(n as int) =~= batch@);
        }
        None
    }
}

/// Unrolls [`store_run`] one step at the end of a prefix: running the first
/// `i + 1` transactions is running the first `i` and then stepping once.
pub proof fn lemma_store_run_take_succ(m: Map<ClientId, AccountView>, txs: Seq<Tx>, i: int)
    requires
        0 <= i < txs.len(),
    ensures
        store_run(m, txs.take(i + 1)) == store_step(store_run(m, txs.take(i)), txs[i]),
{
    assert(txs.take(i + 1).drop_last() =~= txs.take(i));
    assert(txs.take(i + 1).last() == txs[i]);
}

/// Extends [`store_fits_all`] over a prefix by one transaction that fits.
pub proof fn lemma_store_fits_all_extend(m: Map<ClientId, AccountView>, txs: Seq<Tx>, i: int)
    requires
        0 <= i < txs.len(),
        store_fits_all(m, txs.take(i)),
        store_fits(store_run(m, txs.take(i)), txs[i]),
    ensures
        store_fits_all(m, txs.take(i + 1)),
{
    let s = txs.take(i + 1);
    assert forall|j: int| 0 <= j < s.len() implies store_fits(
        store_run(m, s.take(j)),
        #[trigger] s[j],
    ) by {
        assert(s.take(j) =~= txs.take(j));
        if j < i {
            let p = txs.take(i);
            assert(p[j] == txs[j]);
            assert(p.take(j) =~= txs.take(j));
            assert(store_fits(store_run(m, p.take(j)), p[j]));
        }
    }
}

} // verus!
