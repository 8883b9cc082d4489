//! Incremental per-batch aggregates over raw blockchain events.
//!
//! The crate folds ordered batches of typed events (blocks, native
//! transactions, ERC20/721/1155 transfers, DEX trades) into keyed maps of
//! deltas: per-address native balance changes, per-(token, address) ERC20
//! balance changes, per-(token, id) ERC721 ownership records, per-(token,
//! address, id) ERC1155 balance changes, and minute/hour/day time-bucketed
//! trading statistics per (pair, bucket). Every map value is a delta for the
//! one batch; merging deltas into long-lived state is the caller's concern.
//!
//! All monetary amounts are fixed-point integers at a caller-chosen scale:
//! event amounts are `i64`, accumulated deltas are `i128`. The batch-length
//! bound [`MAX_BATCH_LEN`] keeps every intermediate sum inside the `i128`
//! range and is far beyond any batch that fits in memory.

use vstd::prelude::*;

pub mod dex;
pub mod erc1155;
pub mod erc20;
pub mod erc721;
pub mod events;
pub mod keyed;
pub mod native;

use crate::dex::{
    accumulate_dex, dex_changes, DexAggregateStore, DexBucketView, Granularity,
};
use crate::erc1155::{
    accumulate_erc1155, erc1155_changes, erc1155_total_items, Erc1155BalanceStore,
    Erc1155BalanceView,
};
use crate::erc20::{accumulate_erc20, erc20_changes, Erc20BalanceStore, Erc20BalanceView};
use crate::erc721::{accumulate_erc721, erc721_changes, Erc721OwnerStore, Erc721OwnerView};
use crate::events::{Block, DexTrade, ERC1155Transfer, ERC20Transfer, ERC721Transfer, Transaction};
use crate::native::{accumulate_native, native_changes, NativeBalanceStore, NativeBalanceView};

verus! {

/// Largest admitted batch length: with two `i64`-sized updates per event,
/// no accumulated `i128` delta can leave its range.
pub const MAX_BATCH_LEN: u64 = 0x4000_0000_0000_0000;

/// Fold one batch of ordered event sequences into its seven delta maps:
/// native balances by address, ERC20 balances by (token, address), ERC721
/// owners by (token, id), ERC1155 balances by (token, address, id), and
/// DEX aggregates by (pair, bucket) at minute, hour and day granularity.
///
/// The five accumulators are independent of one another; only the order
/// within each input sequence matters. The batch-length bounds and the
/// ERC1155 `ids`/`values` length match are caller obligations.
pub fn aggregate_data(
    blocks: &Vec<Block>,
    transactions: &Vec<Transaction>,
    erc20_transfers: &Vec<ERC20Transfer>,
    erc721_transfers: &Vec<ERC721Transfer>,
    erc1155_transfers: &Vec<ERC1155Transfer>,
    dex_trades: &Vec<DexTrade>,
) -> (r: (
    NativeBalanceStore,
    Erc20BalanceStore,
    Erc721OwnerStore,
    Erc1155BalanceStore,
    DexAggregateStore,
    DexAggregateStore,
    DexAggregateStore,
))
    requires
        transactions@.len() <= MAX_BATCH_LEN,
        erc20_transfers@.len() <= MAX_BATCH_LEN,
        forall|i: int|
            0 <= i < erc1155_transfers.deep_view().len()
                ==> (#[trigger] erc1155_transfers.deep_view()[i]).ids.len()
                == erc1155_transfers.deep_view()[i].values.len(),
        erc1155_total_items(
            erc1155_transfers.deep_view(),
            erc1155_transfers.deep_view().len() as int,
        ) <= MAX_BATCH_LEN,
        dex_trades@.len() <= MAX_BATCH_LEN,
    ensures
        r.0@ == native_changes(blocks.deep_view(), transactions.deep_view()),
        r.1@ == erc20_changes(erc20_transfers.deep_view()),
        r.2@ == erc721_changes(erc721_transfers.deep_view()),
        r.3@ == erc1155_changes(erc1155_transfers.deep_view()),
        r.4@ == dex_changes(dex_trades.deep_view(), Granularity::Minute),
        r.5@ == dex_changes(dex_trades.deep_view(), Granularity::Hour),
        r.6@ == dex_changes(dex_trades.deep_view(), Granularity::Day),
{
    (
        accumulate_native(blocks, transactions),
        accumulate_erc20(erc20_transfers),
        accumulate_erc721(erc721_transfers),
        accumulate_erc1155(erc1155_transfers),
        accumulate_dex(dex_trades, Granularity::Minute),
        accumulate_dex(dex_trades, Granularity::Hour),
        accumulate_dex(dex_trades, Granularity::Day),
    )
}

/// Empty-batch law: an empty input batch yields an empty map for every
/// event type, at every granularity.
pub proof fn lemma_empty_batches()
    ensures
        native_changes(Seq::empty(), Seq::empty()) == Seq::<NativeBalanceView>::empty(),
        erc20_changes(Seq::empty()) == Seq::<Erc20BalanceView>::empty(),
        erc721_changes(Seq::empty()) == Seq::<Erc721OwnerView>::empty(),
        erc1155_changes(Seq::empty()) == Seq::<Erc1155BalanceView>::empty(),
        forall|g: Granularity|
            #[trigger] dex_changes(Seq::empty(), g) == Seq::<DexBucketView>::empty(),
{
}

} // verus!
