//! ERC1155 balance deltas keyed by (token, address, id).
//!
//! Each transfer carries index-aligned `ids` and `values`; every pair
//! debits the sender and credits the receiver by the same amount, so the
//! deltas for any one (token, id) sum to zero across all addresses.

use vstd::prelude::*;
use vstd::pervasive::VecAdditionalExecFns;

use crate::events::{ERC1155Transfer, ERC1155TransferView};
use crate::keyed::{
    distinct_keys, find_first, lemma_find_first_at, lemma_find_first_found,
    lemma_find_first_mem, lemma_find_first_none, lemma_sum_by_upsert,
    lemma_upsert_first_distinct, lemma_upsert_first_membership, lemma_upsert_first_push,
    lemma_upsert_first_update, sum_by, upsert_first,
};
use crate::native::unit_bound;
use crate::MAX_BATCH_LEN;

verus! {

/// The per-(token, address, id) ERC1155 balance delta of one batch.
#[derive(Debug)]
pub struct ERC1155BalancesChange {
    pub token: String,
    pub address: String,
    pub id: String,
    pub balance_change: i128,
}

pub ghost struct Erc1155BalanceView {
    pub token: Seq<char>,
    pub address: Seq<char>,
    pub id: Seq<char>,
    pub balance_change: int,
}

impl View for ERC1155BalancesChange {
    type V = Erc1155BalanceView;

    open spec fn view(&self) -> Erc1155BalanceView {
        Erc1155BalanceView {
            token: self.token@,
            address: self.address@,
            id: self.id@,
            balance_change: self.balance_change as int,
        }
    }
}

impl DeepView for ERC1155BalancesChange {
    type V = Erc1155BalanceView;

    open spec fn deep_view(&self) -> Erc1155BalanceView {
        self@
    }
}

/// ERC1155 balance deltas keyed by (token, address, id), in first-touch
/// order.
#[derive(Debug)]
pub struct Erc1155BalanceStore {
    pub entries: Vec<ERC1155BalancesChange>,
}

impl View for Erc1155BalanceStore {
    type V = Seq<Erc1155BalanceView>;

    open spec fn view(&self) -> Seq<Erc1155BalanceView> {
        self.entries.deep_view()
    }
}

pub open spec fn erc1155_key() -> spec_fn(Erc1155BalanceView) -> (Seq<char>, Seq<char>, Seq<char>) {
    |e: Erc1155BalanceView| (e.token, e.address, e.id)
}

/// The stored entry for (token, address, id), else a zero-valued entry.
pub open spec fn erc1155_stored_or_default(
    s: Seq<Erc1155BalanceView>,
    token: Seq<char>,
    address: Seq<char>,
    id: Seq<char>,
) -> Erc1155BalanceView {
    match find_first(s, erc1155_key(), (token, address, id)) {
        Some(e) => e,
        None => Erc1155BalanceView { token, address, id, balance_change: 0 },
    }
}

impl Erc1155BalanceStore {
    pub fn new() -> (s: Self)
        ensures
            s@ == Seq::<Erc1155BalanceView>::empty(),
    {
        let s = Erc1155BalanceStore { entries: Vec::new() };
        proof {
            assert(s@ =~= Seq::<Erc1155BalanceView>::empty());
        }
        s
    }

    /// Write `entry` back under its (token, address, id) key.
    pub fn insert(&mut self, entry: ERC1155BalancesChange)
        ensures
            final(self)@ == upsert_first(old(self)@, erc1155_key(), entry@),
    {
        let n = self.entries.len();
        let mut i: usize = 0;
        while i < n
            invariant
                n == self.entries.len(),
                i <= n,
                self.entries@ == old(self).entries@,
                forall|j: int|
                    0 <= j < i ==> (#[trigger] self@[j].token, self@[j].address, self@[j].id) != (
                    entry@.token,
                    entry@.address,
                    entry@.id,
                    ),
            decreases n - i,
        {
            if self.entries[i].token == entry.token && self.entries[i].address == entry.address
                && self.entries[i].id == entry.id {
                proof {
                    lemma_upsert_first_update(self@, erc1155_key(), entry@, i as int);
                }
                let ghost prior = self@;
                self.entries.set(i, entry);
                proof {
                    assert(self@ =~= prior.update(i as int, entry@));
                }
                return ;
            }
            i += 1;
        }
        proof {
            lemma_upsert_first_push(self@, erc1155_key(), entry@);
        }
        let ghost prior = self@;
        self.entries.push(entry);
        proof {
            assert(self@ =~= prior.push(entry@));
        }
    }
}

/// Pure lookup-with-default for (token, address, id); never inserts.
pub fn get_erc1155_transfer_balance_stored(
    storage: &Erc1155BalanceStore,
    address: String,
    token: String,
    id: String,
) -> (r: ERC1155BalancesChange)
    ensures
        r@ == erc1155_stored_or_default(storage@, token@, address@, id@),
{
    let n = storage.entries.len();
    let mut i: usize = 0;
    while i < n
        invariant
            n == storage.entries.len(),
            i <= n,
            forall|j: int|
                0 <= j < i ==> (#[trigger] storage@[j].token, storage@[j].address, storage@[j].id)
                    != (token@, address@, id@),
        decreases n - i,
    {
        if storage.entries[i].token == token && storage.entries[i].address == address
            && storage.entries[i].id == id {
            proof {
                lemma_find_first_at(storage@, erc1155_key(), i as int);
            }
            return ERC1155BalancesChange {
                token: storage.entries[i].token.clone(),
                address: storage.entries[i].address.clone(),
                id: storage.entries[i].id.clone(),
                balance_change: storage.entries[i].balance_change,
            };
        }
        i += 1;
    }
    proof {
        lemma_find_first_none(storage@, erc1155_key(), (token@, address@, id@));
    }
    ERC1155BalancesChange { token, address, id, balance_change: 0 }
}

/// One (id, value) pair: debit the sender's entry, credit the receiver's.
pub open spec fn erc1155_item_step(
    m: Seq<Erc1155BalanceView>,
    token: Seq<char>,
    from: Seq<char>,
    to: Seq<char>,
    id: Seq<char>,
    value: int,
) -> Seq<Erc1155BalanceView> {
    let sender = erc1155_stored_or_default(m, token, from, id);
    let debited = upsert_first(
        m,
        erc1155_key(),
        Erc1155BalanceView {
            token: sender.token,
            address: sender.address,
            id: sender.id,
            balance_change: sender.balance_change - value,
        },
    );
    let receiver = erc1155_stored_or_default(debited, token, to, id);
    upsert_first(
        debited,
        erc1155_key(),
        Erc1155BalanceView {
            token: receiver.token,
            address: receiver.address,
            id: receiver.id,
            balance_change: receiver.balance_change + value,
        },
    )
}

/// The store after the first `k` (id, value) pairs of one transfer.
pub open spec fn erc1155_items_prefix(
    m0: Seq<Erc1155BalanceView>,
    t: ERC1155TransferView,
    k: int,
) -> Seq<Erc1155BalanceView>
    decreases k,
{
    if k <= 0 {
        m0
    } else {
        erc1155_item_step(
            erc1155_items_prefix(m0, t, k - 1),
            t.token,
            t.from_address,
            t.to_address,
            t.ids[k - 1],
            t.values[k - 1],
        )
    }
}

/// One whole transfer: its pairs in index order.
pub open spec fn erc1155_transfer_step(
    m: Seq<Erc1155BalanceView>,
    t: ERC1155TransferView,
) -> Seq<Erc1155BalanceView> {
    erc1155_items_prefix(m, t, t.ids.len() as int)
}

/// The store after the first `n` transfers.
pub open spec fn erc1155_prefix(ts: Seq<ERC1155TransferView>, n: int) -> Seq<Erc1155BalanceView>
    decreases n,
{
    if n <= 0 {
        Seq::empty()
    } else {
        erc1155_transfer_step(erc1155_prefix(ts, n - 1), ts[n - 1])
    }
}

/// The ERC1155 balance deltas of one whole batch, in input order.
pub open spec fn erc1155_changes(ts: Seq<ERC1155TransferView>) -> Seq<Erc1155BalanceView> {
    erc1155_prefix(ts, ts.len() as int)
}

/// How many (id, value) pairs the first `n` transfers carry.
pub open spec fn erc1155_total_items(ts: Seq<ERC1155TransferView>, n: int) -> int
    decreases n,
{
    if n <= 0 {
        0
    } else {
        erc1155_total_items(ts, n - 1) + ts[n - 1].ids.len()
    }
}

proof fn lemma_erc1155_total_items_mono(ts: Seq<ERC1155TransferView>, n1: int, n2: int)
    requires
        0 <= n1 <= n2,
    ensures
        erc1155_total_items(ts, n1) <= erc1155_total_items(ts, n2),
    decreases n2,
{
    if n1 < n2 {
        lemma_erc1155_total_items_mono(ts, n1, n2 - 1);
    }
}

/// Every delta in `s` lies within `[-b, b]`.
pub open spec fn erc1155_bounded(s: Seq<Erc1155BalanceView>, b: int) -> bool {
    forall|j: int| 0 <= j < s.len() ==> -b <= #[trigger] s[j].balance_change <= b
}

proof fn lemma_erc1155_bounded_upsert(
    s: Seq<Erc1155BalanceView>,
    v: Erc1155BalanceView,
    b_old: int,
    b_new: int,
)
    requires
        erc1155_bounded(s, b_old),
        b_old <= b_new,
        -b_new <= v.balance_change <= b_new,
    ensures
        erc1155_bounded(upsert_first(s, erc1155_key(), v), b_new),
{
    lemma_upsert_first_membership(s, erc1155_key(), v);
    let u = upsert_first(s, erc1155_key(), v);
    assert forall|j: int| 0 <= j < u.len() implies -b_new <= #[trigger] u[j].balance_change
        <= b_new by {
        if u[j] != v {
            let w = choose|w: int| 0 <= w < s.len() && u[j] == s[w];
            assert(-b_old <= s[w].balance_change <= b_old);
        }
    }
}

proof fn lemma_erc1155_lookup_bounded(
    s: Seq<Erc1155BalanceView>,
    token: Seq<char>,
    address: Seq<char>,
    id: Seq<char>,
    b: int,
)
    requires
        erc1155_bounded(s, b),
        b >= 0,
    ensures
        -b <= erc1155_stored_or_default(s, token, address, id).balance_change <= b,
        erc1155_stored_or_default(s, token, address, id).token == token,
        erc1155_stored_or_default(s, token, address, id).address == address,
        erc1155_stored_or_default(s, token, address, id).id == id,
{
    if find_first(s, erc1155_key(), (token, address, id)) is Some {
        lemma_find_first_found(s, erc1155_key(), (token, address, id));
        lemma_find_first_mem(s, erc1155_key(), (token, address, id));
        let j = choose|j: int|
            0 <= j < s.len() && find_first(s, erc1155_key(), (token, address, id))->0 == s[j];
        assert(-b <= s[j].balance_change <= b);
    }
}

/// Fold the transfers into per-(token, address, id) balance deltas. The
/// `ids`/`values` length match is a caller obligation, as is the bound on
/// the total number of pairs.
pub fn accumulate_erc1155(erc1155_transfers: &Vec<ERC1155Transfer>) -> (r: Erc1155BalanceStore)
    requires
        forall|i: int|
            0 <= i < erc1155_transfers.deep_view().len()
                ==> (#[trigger] erc1155_transfers.deep_view()[i]).ids.len()
                == erc1155_transfers.deep_view()[i].values.len(),
        erc1155_total_items(
            erc1155_transfers.deep_view(),
            erc1155_transfers.deep_view().len() as int,
        ) <= MAX_BATCH_LEN,
    ensures
        r@ == erc1155_changes(erc1155_transfers.deep_view()),
{
    let ghost tv = erc1155_transfers.deep_view();
    let mut store = Erc1155BalanceStore::new();

    let mut i: usize = 0;
    while i < erc1155_transfers.len()
        invariant
            i <= erc1155_transfers.len(),
            tv == erc1155_transfers.deep_view(),
            forall|w: int| 0 <= w < tv.len() ==> (#[trigger] tv[w]).ids.len() == tv[w].values.len(),
            erc1155_total_items(tv, tv.len() as int) <= MAX_BATCH_LEN,
            store@ == erc1155_prefix(tv, i as int),
            erc1155_bounded(store@, 2 * erc1155_total_items(tv, i as int) * unit_bound()),
        decreases erc1155_transfers.len() - i,
    {
        let transfer = &erc1155_transfers[i];
        proof {
            lemma_erc1155_total_items_mono(tv, i + 1, tv.len() as int);
            lemma_erc1155_total_items_mono(tv, 0, i as int);
        }

        let mut j: usize = 0;
        while j < transfer.ids.len()
            invariant
                j <= transfer.ids.len(),
                transfer == &erc1155_transfers[i as int],
                i < erc1155_transfers.len(),
                tv == erc1155_transfers.deep_view(),
                transfer.deep_view() == tv[i as int],
                transfer@.ids.len() == transfer@.values.len(),
                erc1155_total_items(tv, i as int) + transfer@.ids.len() == erc1155_total_items(
                    tv,
                    i as int + 1,
                ),
                erc1155_total_items(tv, i as int + 1) <= MAX_BATCH_LEN,
                0 <= erc1155_total_items(tv, i as int),
                store@ == erc1155_items_prefix(erc1155_prefix(tv, i as int), tv[i as int], j as int),
                erc1155_bounded(
                    store@,
                    2 * (erc1155_total_items(tv, i as int) + j as int) * unit_bound(),
                ),
            decreases transfer.ids.len() - j,
        {
            let id = &transfer.ids[j];
            let value: i128 = transfer.values[j] as i128;
            let ghost bound = 2 * (erc1155_total_items(tv, i as int) + j as int) * unit_bound();

            let mut sender_stored_balance = get_erc1155_transfer_balance_stored(
                &store,
                transfer.from_address.clone(),
                transfer.token.clone(),
                id.clone(),
            );
            proof {
                lemma_erc1155_lookup_bounded(
                    store@,
                    transfer.token@,
                    transfer.from_address@,
                    id@,
                    bound,
                );
            }
            sender_stored_balance.balance_change = sender_stored_balance.balance_change - value;
            proof {
                lemma_erc1155_bounded_upsert(
                    store@,
                    sender_stored_balance@,
                    bound,
                    bound + unit_bound(),
                );
            }
            store.insert(sender_stored_balance);

            let mut receiver_stored_balance = get_erc1155_transfer_balance_stored(
                &store,
                transfer.to_address.clone(),
                transfer.token.clone(),
                id.clone(),
            );
            proof {
                lemma_erc1155_lookup_bounded(
                    store@,
                    transfer.token@,
                    transfer.to_address@,
                    id@,
                    bound + unit_bound(),
                );
            }
            receiver_stored_balance.balance_change = receiver_stored_balance.balance_change
                + value;
            proof {
                lemma_erc1155_bounded_upsert(
                    store@,
                    receiver_stored_balance@,
                    bound + unit_bound(),
                    2 * (erc1155_total_items(tv, i as int) + j as int + 1) * unit_bound(),
                );
            }
            store.insert(receiver_stored_balance);
            j += 1;
        }
        i += 1;
    }
    store
}

/// The contribution of an entry to the (token, id) total: its delta when
/// it is for that token and id, else nothing.
pub open spec fn erc1155_change_for(token: Seq<char>, id: Seq<char>) -> spec_fn(
    Erc1155BalanceView,
) -> int {
    |e: Erc1155BalanceView| if e.token == token && e.id == id {
        e.balance_change
    } else {
        0
    }
}

proof fn lemma_erc1155_item_sum(
    m: Seq<Erc1155BalanceView>,
    token: Seq<char>,
    from: Seq<char>,
    to: Seq<char>,
    id: Seq<char>,
    value: int,
    f_token: Seq<char>,
    f_id: Seq<char>,
)
    ensures
        sum_by(
            erc1155_item_step(m, token, from, to, id, value),
            erc1155_change_for(f_token, f_id),
        ) == sum_by(m, erc1155_change_for(f_token, f_id)),
{
    let f = erc1155_change_for(f_token, f_id);
    let sender = erc1155_stored_or_default(m, token, from, id);
    if find_first(m, erc1155_key(), (token, from, id)) is Some {
        lemma_find_first_found(m, erc1155_key(), (token, from, id));
    }
    let debit = Erc1155BalanceView {
        token: sender.token,
        address: sender.address,
        id: sender.id,
        balance_change: sender.balance_change - value,
    };
    lemma_sum_by_upsert(m, erc1155_key(), f, debit);
    let debited = upsert_first(m, erc1155_key(), debit);
    let receiver = erc1155_stored_or_default(debited, token, to, id);
    if find_first(debited, erc1155_key(), (token, to, id)) is Some {
        lemma_find_first_found(debited, erc1155_key(), (token, to, id));
    }
    lemma_sum_by_upsert(
        debited,
        erc1155_key(),
        f,
        Erc1155BalanceView {
            token: receiver.token,
            address: receiver.address,
            id: receiver.id,
            balance_change: receiver.balance_change + value,
        },
    );
}

proof fn lemma_erc1155_items_sum(
    m0: Seq<Erc1155BalanceView>,
    t: ERC1155TransferView,
    k: int,
    f_token: Seq<char>,
    f_id: Seq<char>,
)
    requires
        0 <= k,
    ensures
        sum_by(erc1155_items_prefix(m0, t, k), erc1155_change_for(f_token, f_id)) == sum_by(
            m0,
            erc1155_change_for(f_token, f_id),
        ),
    decreases k,
{
    if k > 0 {
        lemma_erc1155_items_sum(m0, t, k - 1, f_token, f_id);
        lemma_erc1155_item_sum(
            erc1155_items_prefix(m0, t, k - 1),
            t.token,
            t.from_address,
            t.to_address,
            t.ids[k - 1],
            t.values[k - 1],
            f_token,
            f_id,
        );
    }
}

proof fn lemma_erc1155_prefix_sum(
    ts: Seq<ERC1155TransferView>,
    n: int,
    f_token: Seq<char>,
    f_id: Seq<char>,
)
    requires
        0 <= n <= ts.len(),
    ensures
        sum_by(erc1155_prefix(ts, n), erc1155_change_for(f_token, f_id)) == 0,
    decreases n,
{
    if n > 0 {
        lemma_erc1155_prefix_sum(ts, n - 1, f_token, f_id);
        lemma_erc1155_items_sum(
            erc1155_prefix(ts, n - 1),
            ts[n - 1],
            ts[n - 1].ids.len() as int,
            f_token,
            f_id,
        );
    }
}

/// Zero-sum law: for any (token, id), the ERC1155 deltas of a batch sum to
/// zero over all addresses touched — every pair debits the sender and
/// credits the receiver by the same amount.
pub proof fn lemma_erc1155_zero_sum(ts: Seq<ERC1155TransferView>, token: Seq<char>, id: Seq<char>)
    ensures
        sum_by(erc1155_changes(ts), erc1155_change_for(token, id)) == 0,
{
    lemma_erc1155_prefix_sum(ts, ts.len() as int, token, id);
}


proof fn lemma_erc1155_items_distinct(m0: Seq<Erc1155BalanceView>, t: ERC1155TransferView, k: int)
    requires
        0 <= k,
        distinct_keys(m0, erc1155_key()),
    ensures
        distinct_keys(erc1155_items_prefix(m0, t, k), erc1155_key()),
    decreases k,
{
    if k > 0 {
        lemma_erc1155_items_distinct(m0, t, k - 1);
        let m = erc1155_items_prefix(m0, t, k - 1);
        let id = t.ids[k - 1];
        let value = t.values[k - 1];
        let sender = erc1155_stored_or_default(m, t.token, t.from_address, id);
        let debit = Erc1155BalanceView {
            token: sender.token,
            address: sender.address,
            id: sender.id,
            balance_change: sender.balance_change - value,
        };
        lemma_upsert_first_distinct(m, erc1155_key(), debit);
        let debited = upsert_first(m, erc1155_key(), debit);
        let receiver = erc1155_stored_or_default(debited, t.token, t.to_address, id);
        lemma_upsert_first_distinct(
            debited,
            erc1155_key(),
            Erc1155BalanceView {
                token: receiver.token,
                address: receiver.address,
                id: receiver.id,
                balance_change: receiver.balance_change + value,
            },
        );
    }
}

proof fn lemma_erc1155_prefix_distinct(ts: Seq<ERC1155TransferView>, n: int)
    requires
        0 <= n,
    ensures
        distinct_keys(erc1155_prefix(ts, n), erc1155_key()),
    decreases n,
{
    if n > 0 {
        lemma_erc1155_prefix_distinct(ts, n - 1);
        lemma_erc1155_items_distinct(
            erc1155_prefix(ts, n - 1),
            ts[n - 1],
            ts[n - 1].ids.len() as int,
        );
    }
}

/// Map law: the ERC1155 deltas of a batch hold at most one entry per
/// (token, address, id).
pub proof fn lemma_erc1155_changes_distinct(ts: Seq<ERC1155TransferView>)
    ensures
        distinct_keys(erc1155_changes(ts), erc1155_key()),
{
    lemma_erc1155_prefix_distinct(ts, ts.len() as int);
}

} // verus!
