//! Native-currency balance deltas: miner rewards per block (a zero-valued
//! policy hook for now) and sender-debit / receiver-credit per transaction.

use vstd::prelude::*;
use vstd::pervasive::VecAdditionalExecFns;

use crate::events::{Block, BlockView, Transaction, TransactionView};
use crate::keyed::{
    distinct_keys, find_first, lemma_find_first_at, lemma_find_first_found, lemma_find_first_mem,
    lemma_find_first_none, lemma_sum_by_upsert, lemma_upsert_first_distinct,
    lemma_upsert_first_membership, lemma_upsert_first_push, lemma_upsert_first_update, sum_by,
    upsert_first,
};
use crate::MAX_BATCH_LEN;

verus! {

/// The per-address native balance delta accumulated over one batch.
#[derive(Debug)]
pub struct NativeTokenBalanceChange {
    pub address: String,
    pub balance_change: i128,
}

pub ghost struct NativeBalanceView {
    pub address: Seq<char>,
    pub balance_change: int,
}

impl View for NativeTokenBalanceChange {
    type V = NativeBalanceView;

    open spec fn view(&self) -> NativeBalanceView {
        NativeBalanceView { address: self.address@, balance_change: self.balance_change as int }
    }
}

impl DeepView for NativeTokenBalanceChange {
    type V = NativeBalanceView;

    open spec fn deep_view(&self) -> NativeBalanceView {
        self@
    }
}

/// Native balance deltas keyed by address; entries keep distinct addresses
/// and their first-touch order.
#[derive(Debug)]
pub struct NativeBalanceStore {
    pub entries: Vec<NativeTokenBalanceChange>,
}

impl View for NativeBalanceStore {
    type V = Seq<NativeBalanceView>;

    open spec fn view(&self) -> Seq<NativeBalanceView> {
        self.entries.deep_view()
    }
}

pub open spec fn native_key() -> spec_fn(NativeBalanceView) -> Seq<char> {
    |e: NativeBalanceView| e.address
}

/// The stored entry for `address`, else a zero-valued entry for it.
pub open spec fn native_stored_or_default(
    s: Seq<NativeBalanceView>,
    address: Seq<char>,
) -> NativeBalanceView {
    match find_first(s, native_key(), address) {
        Some(e) => e,
        None => NativeBalanceView { address, balance_change: 0 },
    }
}

impl NativeBalanceStore {
    pub fn new() -> (s: Self)
        ensures
            s@ == Seq::<NativeBalanceView>::empty(),
    {
        let s = NativeBalanceStore { entries: Vec::new() };
        proof {
            assert(s@ =~= Seq::<NativeBalanceView>::empty());
        }
        s
    }

    /// Write `entry` back under its address: replace the entry with that
    /// address, or append when the address is new.
    pub fn insert(&mut self, entry: NativeTokenBalanceChange)
        ensures
            final(self)@ == upsert_first(old(self)@, native_key(), entry@),
    {
        let n = self.entries.len();
        let mut i: usize = 0;
        while i < n
            invariant
                n == self.entries.len(),
                i <= n,
                self.entries@ == old(self).entries@,
                forall|j: int| 0 <= j < i ==> #[trigger] self@[j].address != entry@.address,
            decreases n - i,
        {
            if self.entries[i].address == entry.address {
                proof {
                    lemma_upsert_first_update(self@, native_key(), entry@, i as int);
                }
                let ghost prior = self@;
                self.entries.set(i, entry);
                proof {
                    assert(self@ =~= prior.update(i as int, entry@));
                }
                return ;
            }
            i += 1;
        }
        proof {
            lemma_upsert_first_push(self@, native_key(), entry@);
        }
        let ghost prior = self@;
        self.entries.push(entry);
        proof {
            assert(self@ =~= prior.push(entry@));
        }
    }
}

/// Pure lookup-with-default: the entry stored for `address`, else a fresh
/// zero-valued entry for it. Never inserts; writing back is the caller's job.
pub fn get_native_balance_stored(
    storage: &NativeBalanceStore,
    address: String,
) -> (r: NativeTokenBalanceChange)
    ensures
        r@ == native_stored_or_default(storage@, address@),
{
    let n = storage.entries.len();
    let mut i: usize = 0;
    while i < n
        invariant
            n == storage.entries.len(),
            i <= n,
            forall|j: int| 0 <= j < i ==> #[trigger] storage@[j].address != address@,
        decreases n - i,
    {
        if storage.entries[i].address == address {
            proof {
                lemma_find_first_at(storage@, native_key(), i as int);
            }
            return NativeTokenBalanceChange {
                address: storage.entries[i].address.clone(),
                balance_change: storage.entries[i].balance_change,
            };
        }
        i += 1;
    }
    proof {
        lemma_find_first_none(storage@, native_key(), address@);
    }
    NativeTokenBalanceChange { address, balance_change: 0 }
}

/// Reward credited to a block's miner. A deliberately zero-valued policy
/// hook, kept separate so a real reward computation can replace it without
/// touching the transfer logic.
pub open spec fn spec_block_reward(b: BlockView) -> int {
    0
}

/// Executable face of the reward policy hook.
pub fn block_reward(block: &Block) -> (r: i128)
    ensures
        r as int == spec_block_reward(block@),
{
    0
}

/// One block: credit the miner's entry with the (currently zero) reward.
pub open spec fn native_block_step(
    m: Seq<NativeBalanceView>,
    b: BlockView,
) -> Seq<NativeBalanceView> {
    let cur = native_stored_or_default(m, b.miner);
    upsert_first(
        m,
        native_key(),
        NativeBalanceView {
            address: cur.address,
            balance_change: cur.balance_change + spec_block_reward(b),
        },
    )
}

/// The store after the first `n` blocks.
pub open spec fn native_blocks_prefix(blocks: Seq<BlockView>, n: int) -> Seq<NativeBalanceView>
    decreases n,
{
    if n <= 0 {
        Seq::empty()
    } else {
        native_block_step(native_blocks_prefix(blocks, n - 1), blocks[n - 1])
    }
}

/// One transaction: debit the sender; credit the receiver when there is
/// one. A contract creation (`to_address` absent) only debits the sender.
pub open spec fn native_tx_step(
    m: Seq<NativeBalanceView>,
    t: TransactionView,
) -> Seq<NativeBalanceView> {
    let sender = native_stored_or_default(m, t.from_address);
    let debited = upsert_first(
        m,
        native_key(),
        NativeBalanceView {
            address: sender.address,
            balance_change: sender.balance_change - t.value,
        },
    );
    match t.to_address {
        Some(to) => {
            let receiver = native_stored_or_default(debited, to);
            upsert_first(
                debited,
                native_key(),
                NativeBalanceView {
                    address: receiver.address,
                    balance_change: receiver.balance_change + t.value,
                },
            )
        },
        None => debited,
    }
}

/// The store after the first `n` transactions, starting from `m0`.
pub open spec fn native_txs_prefix(
    m0: Seq<NativeBalanceView>,
    txs: Seq<TransactionView>,
    n: int,
) -> Seq<NativeBalanceView>
    decreases n,
{
    if n <= 0 {
        m0
    } else {
        native_tx_step(native_txs_prefix(m0, txs, n - 1), txs[n - 1])
    }
}

/// The native balance deltas of one whole batch: blocks first, then
/// transactions, each in input order.
pub open spec fn native_changes(
    blocks: Seq<BlockView>,
    txs: Seq<TransactionView>,
) -> Seq<NativeBalanceView> {
    native_txs_prefix(
        native_blocks_prefix(blocks, blocks.len() as int),
        txs,
        txs.len() as int,
    )
}

/// Magnitude of one `i64` event amount: every accumulated delta moves by at
/// most this much per update.
pub open spec fn unit_bound() -> int {
    0x8000_0000_0000_0000
}

/// Every delta in `s` lies within `[-b, b]`.
pub open spec fn native_bounded(s: Seq<NativeBalanceView>, b: int) -> bool {
    forall|j: int| 0 <= j < s.len() ==> -b <= #[trigger] s[j].balance_change <= b
}

proof fn lemma_native_bounded_upsert(
    s: Seq<NativeBalanceView>,
    v: NativeBalanceView,
    b_old: int,
    b_new: int,
)
    requires
        native_bounded(s, b_old),
        b_old <= b_new,
        -b_new <= v.balance_change <= b_new,
    ensures
        native_bounded(upsert_first(s, native_key(), v), b_new),
{
    lemma_upsert_first_membership(s, native_key(), v);
    let u = upsert_first(s, native_key(), v);
    assert forall|j: int| 0 <= j < u.len() implies -b_new <= #[trigger] u[j].balance_change
        <= b_new by {
        if u[j] != v {
            let w = choose|w: int| 0 <= w < s.len() && u[j] == s[w];
            assert(-b_old <= s[w].balance_change <= b_old);
        }
    }
}

/// The stored-or-default entry for a bounded store is itself bounded, and
/// carries the address it was looked up under.
proof fn lemma_native_lookup_bounded(s: Seq<NativeBalanceView>, address: Seq<char>, b: int)
    requires
        native_bounded(s, b),
        b >= 0,
    ensures
        -b <= native_stored_or_default(s, address).balance_change <= b,
        native_stored_or_default(s, address).address == address,
{
    if find_first(s, native_key(), address) is Some {
        lemma_find_first_found(s, native_key(), address);
        lemma_find_first_mem(s, native_key(), address);
        let j = choose|j: int|
            0 <= j < s.len() && find_first(s, native_key(), address)->0 == s[j];
        assert(-b <= s[j].balance_change <= b);
    }
}

/// Fold blocks, then transactions, into per-address native balance deltas.
pub fn accumulate_native(blocks: &Vec<Block>, transactions: &Vec<Transaction>) -> (r:
    NativeBalanceStore)
    requires
        transactions@.len() <= MAX_BATCH_LEN,
    ensures
        r@ == native_changes(blocks.deep_view(), transactions.deep_view()),
{
    let ghost bv = blocks.deep_view();
    let ghost tv = transactions.deep_view();
    let mut store = NativeBalanceStore::new();

    let mut i: usize = 0;
    while i < blocks.len()
        invariant
            i <= blocks.len(),
            bv == blocks.deep_view(),
            store@ == native_blocks_prefix(bv, i as int),
            native_bounded(store@, 0),
        decreases blocks.len() - i,
    {
        let block = &blocks[i];
        let reward = block_reward(block);
        let mut balance = get_native_balance_stored(&store, block.miner.clone());
        proof {
            lemma_native_lookup_bounded(store@, block.miner@, 0);
        }
        balance.balance_change = balance.balance_change + reward;
        proof {
            lemma_native_bounded_upsert(store@, balance@, 0, 0);
        }
        store.insert(balance);
        i += 1;
    }

    let ghost m0 = store@;
    let mut i: usize = 0;
    while i < transactions.len()
        invariant
            i <= transactions.len(),
            transactions@.len() <= MAX_BATCH_LEN,
            tv == transactions.deep_view(),
            store@ == native_txs_prefix(m0, tv, i as int),
            native_bounded(store@, 2 * (i as int) * unit_bound()),
        decreases transactions.len() - i,
    {
        let transaction = &transactions[i];
        let value: i128 = transaction.value as i128;
        let ghost bound = 2 * (i as int) * unit_bound();

        let mut sender_balance = get_native_balance_stored(
            &store,
            transaction.from_address.clone(),
        );
        proof {
            lemma_native_lookup_bounded(store@, transaction.from_address@, bound);
        }
        sender_balance.balance_change = sender_balance.balance_change - value;
        proof {
            lemma_native_bounded_upsert(store@, sender_balance@, bound, bound + unit_bound());
        }
        store.insert(sender_balance);

        match &transaction.to_address {
            Some(receiver) => {
                let mut receiver_balance = get_native_balance_stored(&store, receiver.clone());
                proof {
                    lemma_native_lookup_bounded(store@, receiver@, bound + unit_bound());
                }
                receiver_balance.balance_change = receiver_balance.balance_change + value;
                proof {
                    lemma_native_bounded_upsert(
                        store@,
                        receiver_balance@,
                        bound + unit_bound(),
                        2 * (i + 1) * unit_bound(),
                    );
                }
                store.insert(receiver_balance);
            },
            None => {
                proof {
                    assert(native_bounded(store@, 2 * (i + 1) * unit_bound()));
                }
            },
        }
        i += 1;
    }
    store
}

/// The signed delta an entry contributes to the batch total.
pub open spec fn native_change_of() -> spec_fn(NativeBalanceView) -> int {
    |e: NativeBalanceView| e.balance_change
}

proof fn lemma_native_blocks_sum(blocks: Seq<BlockView>, n: int)
    requires
        0 <= n <= blocks.len(),
    ensures
        sum_by(native_blocks_prefix(blocks, n), native_change_of()) == 0,
    decreases n,
{
    if n > 0 {
        lemma_native_blocks_sum(blocks, n - 1);
        let m = native_blocks_prefix(blocks, n - 1);
        let b = blocks[n - 1];
        let cur = native_stored_or_default(m, b.miner);
        if find_first(m, native_key(), b.miner) is Some {
            lemma_find_first_found(m, native_key(), b.miner);
        }
        lemma_sum_by_upsert(
            m,
            native_key(),
            native_change_of(),
            NativeBalanceView {
                address: cur.address,
                balance_change: cur.balance_change + spec_block_reward(b),
            },
        );
    }
}

proof fn lemma_native_txs_sum(m0: Seq<NativeBalanceView>, txs: Seq<TransactionView>, n: int)
    requires
        0 <= n <= txs.len(),
        forall|i: int| 0 <= i < txs.len() ==> (#[trigger] txs[i].to_address) is Some,
    ensures
        sum_by(native_txs_prefix(m0, txs, n), native_change_of()) == sum_by(
            m0,
            native_change_of(),
        ),
    decreases n,
{
    if n > 0 {
        lemma_native_txs_sum(m0, txs, n - 1);
        let m = native_txs_prefix(m0, txs, n - 1);
        let t = txs[n - 1];
        let sender = native_stored_or_default(m, t.from_address);
        let debit = NativeBalanceView {
            address: sender.address,
            balance_change: sender.balance_change - t.value,
        };
        if find_first(m, native_key(), t.from_address) is Some {
            lemma_find_first_found(m, native_key(), t.from_address);
        }
        lemma_sum_by_upsert(m, native_key(), native_change_of(), debit);
        let debited = upsert_first(m, native_key(), debit);
        let to = t.to_address->0;
        let receiver = native_stored_or_default(debited, to);
        if find_first(debited, native_key(), to) is Some {
            lemma_find_first_found(debited, native_key(), to);
        }
        lemma_sum_by_upsert(
            debited,
            native_key(),
            native_change_of(),
            NativeBalanceView {
                address: receiver.address,
                balance_change: receiver.balance_change + t.value,
            },
        );
    }
}

proof fn lemma_native_blocks_distinct(blocks: Seq<BlockView>, n: int)
    requires
        0 <= n,
    ensures
        distinct_keys(native_blocks_prefix(blocks, n), native_key()),
    decreases n,
{
    if n > 0 {
        lemma_native_blocks_distinct(blocks, n - 1);
        let m = native_blocks_prefix(blocks, n - 1);
        let cur = native_stored_or_default(m, blocks[n - 1].miner);
        lemma_upsert_first_distinct(
            m,
            native_key(),
            NativeBalanceView {
                address: cur.address,
                balance_change: cur.balance_change + spec_block_reward(blocks[n - 1]),
            },
        );
    }
}

proof fn lemma_native_txs_distinct(m0: Seq<NativeBalanceView>, txs: Seq<TransactionView>, n: int)
    requires
        0 <= n,
        distinct_keys(m0, native_key()),
    ensures
        distinct_keys(native_txs_prefix(m0, txs, n), native_key()),
    decreases n,
{
    if n > 0 {
        lemma_native_txs_distinct(m0, txs, n - 1);
        let m = native_txs_prefix(m0, txs, n - 1);
        let t = txs[n - 1];
        let sender = native_stored_or_default(m, t.from_address);
        let debit = NativeBalanceView {
            address: sender.address,
            balance_change: sender.balance_change - t.value,
        };
        lemma_upsert_first_distinct(m, native_key(), debit);
        if t.to_address is Some {
            let debited = upsert_first(m, native_key(), debit);
            let receiver = native_stored_or_default(debited, t.to_address->0);
            lemma_upsert_first_distinct(
                debited,
                native_key(),
                NativeBalanceView {
                    address: receiver.address,
                    balance_change: receiver.balance_change + t.value,
                },
            );
        }
    }
}

/// Map law: the native deltas of a batch hold at most one entry per
/// address.
pub proof fn lemma_native_changes_distinct(blocks: Seq<BlockView>, txs: Seq<TransactionView>)
    ensures
        distinct_keys(native_changes(blocks, txs), native_key()),
{
    lemma_native_blocks_distinct(blocks, blocks.len() as int);
    lemma_native_txs_distinct(
        native_blocks_prefix(blocks, blocks.len() as int),
        txs,
        txs.len() as int,
    );
}

/// Zero-sum law: when every transaction names a receiver (no contract
/// creations), the native balance deltas of a batch sum to exactly zero —
/// each transaction debits one account and credits another by the same
/// amount, and block rewards are zero.
pub proof fn lemma_native_zero_sum(blocks: Seq<BlockView>, txs: Seq<TransactionView>)
    requires
        forall|i: int| 0 <= i < txs.len() ==> (#[trigger] txs[i].to_address) is Some,
    ensures
        sum_by(native_changes(blocks, txs), native_change_of()) == 0,
{
    lemma_native_blocks_sum(blocks, blocks.len() as int);
    lemma_native_txs_sum(
        native_blocks_prefix(blocks, blocks.len() as int),
        txs,
        txs.len() as int,
    );
}

} // verus!
