//! ERC20 balance deltas keyed by (token, address).
//!
//! Both legs of a transfer subtract the amount — the receiver is debited,
//! not credited. That asymmetry is deliberate here: the persistence layer
//! downstream compensates for it, so it must be preserved, not repaired.

use vstd::prelude::*;
use vstd::pervasive::VecAdditionalExecFns;

use crate::events::{ERC20Transfer, ERC20TransferView};
use crate::keyed::{
    distinct_keys, find_first, lemma_find_first_at, lemma_find_first_found, lemma_find_first_mem,
    lemma_find_first_none, lemma_upsert_first_distinct, lemma_upsert_first_membership,
    lemma_upsert_first_push, lemma_upsert_first_update, upsert_first,
};
use crate::native::unit_bound;
use crate::MAX_BATCH_LEN;

verus! {

/// The per-(token, address) ERC20 balance delta accumulated over one batch.
#[derive(Debug)]
pub struct ERC20TokenBalanceChange {
    pub token: String,
    pub address: String,
    pub balance_change: i128,
}

pub ghost struct Erc20BalanceView {
    pub token: Seq<char>,
    pub address: Seq<char>,
    pub balance_change: int,
}

impl View for ERC20TokenBalanceChange {
    type V = Erc20BalanceView;

    open spec fn view(&self) -> Erc20BalanceView {
        Erc20BalanceView {
            token: self.token@,
            address: self.address@,
            balance_change: self.balance_change as int,
        }
    }
}

impl DeepView for ERC20TokenBalanceChange {
    type V = Erc20BalanceView;

    open spec fn deep_view(&self) -> Erc20BalanceView {
        self@
    }
}

/// ERC20 balance deltas keyed by (token, address), in first-touch order.
#[derive(Debug)]
pub struct Erc20BalanceStore {
    pub entries: Vec<ERC20TokenBalanceChange>,
}

impl View for Erc20BalanceStore {
    type V = Seq<Erc20BalanceView>;

    open spec fn view(&self) -> Seq<Erc20BalanceView> {
        self.entries.deep_view()
    }
}

pub open spec fn erc20_key() -> spec_fn(Erc20BalanceView) -> (Seq<char>, Seq<char>) {
    |e: Erc20BalanceView| (e.token, e.address)
}

/// The stored entry for (token, address), else a zero-valued entry for it.
pub open spec fn erc20_stored_or_default(
    s: Seq<Erc20BalanceView>,
    token: Seq<char>,
    address: Seq<char>,
) -> Erc20BalanceView {
    match find_first(s, erc20_key(), (token, address)) {
        Some(e) => e,
        None => Erc20BalanceView { token, address, balance_change: 0 },
    }
}

impl Erc20BalanceStore {
    pub fn new() -> (s: Self)
        ensures
            s@ == Seq::<Erc20BalanceView>::empty(),
    {
        let s = Erc20BalanceStore { entries: Vec::new() };
        proof {
            assert(s@ =~= Seq::<Erc20BalanceView>::empty());
        }
        s
    }

    /// Write `entry` back under its (token, address) key.
    pub fn insert(&mut self, entry: ERC20TokenBalanceChange)
        ensures
            final(self)@ == upsert_first(old(self)@, erc20_key(), entry@),
    {
        let n = self.entries.len();
        let mut i: usize = 0;
        while i < n
            invariant
                n == self.entries.len(),
                i <= n,
                self.entries@ == old(self).entries@,
                forall|j: int|
                    0 <= j < i ==> (#[trigger] self@[j].token, self@[j].address) != (
                    entry@.token,
                    entry@.address,
                    ),
            decreases n - i,
        {
            if self.entries[i].token == entry.token && self.entries[i].address == entry.address {
                proof {
                    lemma_upsert_first_update(self@, erc20_key(), entry@, i as int);
                }
                let ghost prior = self@;
                self.entries.set(i, entry);
                proof {
                    assert(self@ =~= prior.update(i as int, entry@));
                }
                return ;
            }
            i += 1;
        }
        proof {
            lemma_upsert_first_push(self@, erc20_key(), entry@);
        }
        let ghost prior = self@;
        self.entries.push(entry);
        proof {
            assert(self@ =~= prior.push(entry@));
        }
    }
}

/// Pure lookup-with-default for (token, address); never inserts.
pub fn get_erc20_token_balance_stored(
    storage: &Erc20BalanceStore,
    token: String,
    address: String,
) -> (r: ERC20TokenBalanceChange)
    ensures
        r@ == erc20_stored_or_default(storage@, token@, address@),
{
    let n = storage.entries.len();
    let mut i: usize = 0;
    while i < n
        invariant
            n == storage.entries.len(),
            i <= n,
            forall|j: int|
                0 <= j < i ==> (#[trigger] storage@[j].token, storage@[j].address) != (
                token@,
                address@,
                ),
        decreases n - i,
    {
        if storage.entries[i].token == token && storage.entries[i].address == address {
            proof {
                lemma_find_first_at(storage@, erc20_key(), i as int);
            }
            return ERC20TokenBalanceChange {
                token: storage.entries[i].token.clone(),
                address: storage.entries[i].address.clone(),
                balance_change: storage.entries[i].balance_change,
            };
        }
        i += 1;
    }
    proof {
        lemma_find_first_none(storage@, erc20_key(), (token@, address@));
    }
    ERC20TokenBalanceChange { token, address, balance_change: 0 }
}

/// One transfer: subtract the amount on the sender's entry, then subtract
/// it again on the receiver's.
pub open spec fn erc20_step(
    m: Seq<Erc20BalanceView>,
    t: ERC20TransferView,
) -> Seq<Erc20BalanceView> {
    let sender = erc20_stored_or_default(m, t.token, t.from_address);
    let debited = upsert_first(
        m,
        erc20_key(),
        Erc20BalanceView {
            token: sender.token,
            address: sender.address,
            balance_change: sender.balance_change - t.amount,
        },
    );
    let receiver = erc20_stored_or_default(debited, t.token, t.to_address);
    upsert_first(
        debited,
        erc20_key(),
        Erc20BalanceView {
            token: receiver.token,
            address: receiver.address,
            balance_change: receiver.balance_change - t.amount,
        },
    )
}

/// The store after the first `n` transfers.
pub open spec fn erc20_prefix(ts: Seq<ERC20TransferView>, n: int) -> Seq<Erc20BalanceView>
    decreases n,
{
    if n <= 0 {
        Seq::empty()
    } else {
        erc20_step(erc20_prefix(ts, n - 1), ts[n - 1])
    }
}

/// The ERC20 balance deltas of one whole batch, in input order.
pub open spec fn erc20_changes(ts: Seq<ERC20TransferView>) -> Seq<Erc20BalanceView> {
    erc20_prefix(ts, ts.len() as int)
}

/// Every delta in `s` lies within `[-b, b]`.
pub open spec fn erc20_bounded(s: Seq<Erc20BalanceView>, b: int) -> bool {
    forall|j: int| 0 <= j < s.len() ==> -b <= #[trigger] s[j].balance_change <= b
}

proof fn lemma_erc20_bounded_upsert(s: Seq<Erc20BalanceView>, v: Erc20BalanceView, b_old: int, b_new: int)
    requires
        erc20_bounded(s, b_old),
        b_old <= b_new,
        -b_new <= v.balance_change <= b_new,
    ensures
        erc20_bounded(upsert_first(s, erc20_key(), v), b_new),
{
    lemma_upsert_first_membership(s, erc20_key(), v);
    let u = upsert_first(s, erc20_key(), v);
    assert forall|j: int| 0 <= j < u.len() implies -b_new <= #[trigger] u[j].balance_change
        <= b_new by {
        if u[j] != v {
            let w = choose|w: int| 0 <= w < s.len() && u[j] == s[w];
            assert(-b_old <= s[w].balance_change <= b_old);
        }
    }
}

proof fn lemma_erc20_lookup_bounded(
    s: Seq<Erc20BalanceView>,
    token: Seq<char>,
    address: Seq<char>,
    b: int,
)
    requires
        erc20_bounded(s, b),
        b >= 0,
    ensures
        -b <= erc20_stored_or_default(s, token, address).balance_change <= b,
        erc20_stored_or_default(s, token, address).token == token,
        erc20_stored_or_default(s, token, address).address == address,
{
    if find_first(s, erc20_key(), (token, address)) is Some {
        lemma_find_first_found(s, erc20_key(), (token, address));
        lemma_find_first_mem(s, erc20_key(), (token, address));
        let j = choose|j: int|
            0 <= j < s.len() && find_first(s, erc20_key(), (token, address))->0 == s[j];
        assert(-b <= s[j].balance_change <= b);
    }
}

/// Fold the transfers into per-(token, address) ERC20 balance deltas.
pub fn accumulate_erc20(erc20_transfers: &Vec<ERC20Transfer>) -> (r: Erc20BalanceStore)
    requires
        erc20_transfers@.len() <= MAX_BATCH_LEN,
    ensures
        r@ == erc20_changes(erc20_transfers.deep_view()),
{
    let ghost tv = erc20_transfers.deep_view();
    let mut store = Erc20BalanceStore::new();

    let mut i: usize = 0;
    while i < erc20_transfers.len()
        invariant
            i <= erc20_transfers.len(),
            erc20_transfers@.len() <= MAX_BATCH_LEN,
            tv == erc20_transfers.deep_view(),
            store@ == erc20_prefix(tv, i as int),
            erc20_bounded(store@, 2 * (i as int) * unit_bound()),
        decreases erc20_transfers.len() - i,
    {
        let transfer = &erc20_transfers[i];
        let amount: i128 = transfer.amount as i128;
        let ghost bound = 2 * (i as int) * unit_bound();

        let mut sender_balance = get_erc20_token_balance_stored(
            &store,
            transfer.token.clone(),
            transfer.from_address.clone(),
        );
        proof {
            lemma_erc20_lookup_bounded(store@, transfer.token@, transfer.from_address@, bound);
        }
        sender_balance.balance_change = sender_balance.balance_change - amount;
        proof {
            lemma_erc20_bounded_upsert(store@, sender_balance@, bound, bound + unit_bound());
        }
        store.insert(sender_balance);

        let mut receiver_balance = get_erc20_token_balance_stored(
            &store,
            transfer.token.clone(),
            transfer.to_address.clone(),
        );
        proof {
            lemma_erc20_lookup_bounded(store@, transfer.token@, transfer.to_address@, bound + unit_bound());
        }
        receiver_balance.balance_change = receiver_balance.balance_change - amount;
        proof {
            lemma_erc20_bounded_upsert(
                store@,
                receiver_balance@,
                bound + unit_bound(),
                2 * (i + 1) * unit_bound(),
            );
        }
        store.insert(receiver_balance);
        i += 1;
    }
    store
}


proof fn lemma_erc20_prefix_distinct(ts: Seq<ERC20TransferView>, n: int)
    requires
        0 <= n,
    ensures
        distinct_keys(erc20_prefix(ts, n), erc20_key()),
    decreases n,
{
    if n > 0 {
        lemma_erc20_prefix_distinct(ts, n - 1);
        let m = erc20_prefix(ts, n - 1);
        let t = ts[n - 1];
        let sender = erc20_stored_or_default(m, t.token, t.from_address);
        let debit = Erc20BalanceView {
            token: sender.token,
            address: sender.address,
            balance_change: sender.balance_change - t.amount,
        };
        lemma_upsert_first_distinct(m, erc20_key(), debit);
        let debited = upsert_first(m, erc20_key(), debit);
        let receiver = erc20_stored_or_default(debited, t.token, t.to_address);
        lemma_upsert_first_distinct(
            debited,
            erc20_key(),
            Erc20BalanceView {
                token: receiver.token,
                address: receiver.address,
                balance_change: receiver.balance_change - t.amount,
            },
        );
    }
}

/// Map law: the ERC20 deltas of a batch hold at most one entry per
/// (token, address).
pub proof fn lemma_erc20_changes_distinct(ts: Seq<ERC20TransferView>)
    ensures
        distinct_keys(erc20_changes(ts), erc20_key()),
{
    lemma_erc20_prefix_distinct(ts, ts.len() as int);
}

} // verus!
