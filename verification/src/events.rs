//! The typed event records a batch is made of, with their mathematical views.
//!
//! Events are produced upstream (decoded and normalized there) and consumed
//! read-only here. Addresses, tokens and bucket keys are already-normalized
//! strings; every amount is a fixed-point integer at a caller-chosen scale.

use vstd::prelude::*;

verus! {

/// A mined block; only the miner matters to the accumulators.
pub struct Block {
    pub miner: String,
}

pub ghost struct BlockView {
    pub miner: Seq<char>,
}

impl View for Block {
    type V = BlockView;

    open spec fn view(&self) -> BlockView {
        BlockView { miner: self.miner@ }
    }
}

impl DeepView for Block {
    type V = BlockView;

    open spec fn deep_view(&self) -> BlockView {
        self@
    }
}

/// A native-currency transaction. `to_address` is `None` for a
/// contract-creation transaction, which debits the sender only.
pub struct Transaction {
    pub from_address: String,
    pub to_address: Option<String>,
    pub value: i64,
}

pub ghost struct TransactionView {
    pub from_address: Seq<char>,
    pub to_address: Option<Seq<char>>,
    pub value: int,
}

impl View for Transaction {
    type V = TransactionView;

    open spec fn view(&self) -> TransactionView {
        TransactionView {
            from_address: self.from_address@,
            to_address: self.to_address.deep_view(),
            value: self.value as int,
        }
    }
}

impl DeepView for Transaction {
    type V = TransactionView;

    open spec fn deep_view(&self) -> TransactionView {
        self@
    }
}

/// An ERC20 token transfer.
pub struct ERC20Transfer {
    pub token: String,
    pub from_address: String,
    pub to_address: String,
    pub amount: i64,
}

pub ghost struct ERC20TransferView {
    pub token: Seq<char>,
    pub from_address: Seq<char>,
    pub to_address: Seq<char>,
    pub amount: int,
}

impl View for ERC20Transfer {
    type V = ERC20TransferView;

    open spec fn view(&self) -> ERC20TransferView {
        ERC20TransferView {
            token: self.token@,
            from_address: self.from_address@,
            to_address: self.to_address@,
            amount: self.amount as int,
        }
    }
}

impl DeepView for ERC20Transfer {
    type V = ERC20TransferView;

    open spec fn deep_view(&self) -> ERC20TransferView {
        self@
    }
}

/// An ERC721 token transfer.
pub struct ERC721Transfer {
    pub token: String,
    pub id: String,
    pub from_address: String,
    pub to_address: String,
}

pub ghost struct ERC721TransferView {
    pub token: Seq<char>,
    pub id: Seq<char>,
    pub from_address: Seq<char>,
    pub to_address: Seq<char>,
}

impl View for ERC721Transfer {
    type V = ERC721TransferView;

    open spec fn view(&self) -> ERC721TransferView {
        ERC721TransferView {
            token: self.token@,
            id: self.id@,
            from_address: self.from_address@,
            to_address: self.to_address@,
        }
    }
}

impl DeepView for ERC721Transfer {
    type V = ERC721TransferView;

    open spec fn deep_view(&self) -> ERC721TransferView {
        self@
    }
}

/// An ERC1155 multi-id transfer: `ids` and `values` are index-aligned and
/// must have the same length (a caller obligation).
pub struct ERC1155Transfer {
    pub token: String,
    pub from_address: String,
    pub to_address: String,
    pub ids: Vec<String>,
    pub values: Vec<i64>,
}

pub ghost struct ERC1155TransferView {
    pub token: Seq<char>,
    pub from_address: Seq<char>,
    pub to_address: Seq<char>,
    pub ids: Seq<Seq<char>>,
    pub values: Seq<int>,
}

impl View for ERC1155Transfer {
    type V = ERC1155TransferView;

    open spec fn view(&self) -> ERC1155TransferView {
        ERC1155TransferView {
            token: self.token@,
            from_address: self.from_address@,
            to_address: self.to_address@,
            ids: self.ids.deep_view(),
            values: Seq::new(self.values@.len(), |i: int| self.values@[i] as int),
        }
    }
}

impl DeepView for ERC1155Transfer {
    type V = ERC1155TransferView;

    open spec fn deep_view(&self) -> ERC1155TransferView {
        self@
    }
}

/// A decentralized-exchange trade. The minute/hour/day bucket keys are
/// derived upstream from `timestamp` and carried along with the trade.
pub struct DexTrade {
    pub pair_address: String,
    pub factory: String,
    pub token0_amount: i64,
    pub token1_amount: i64,
    pub swap_rate: i64,
    pub timestamp: i64,
    pub log_index: i32,
    pub time_minutes: String,
    pub time_hours: String,
    pub time_days: String,
}

pub ghost struct DexTradeView {
    pub pair_address: Seq<char>,
    pub factory: Seq<char>,
    pub token0_amount: int,
    pub token1_amount: int,
    pub swap_rate: int,
    pub timestamp: int,
    pub log_index: int,
    pub time_minutes: Seq<char>,
    pub time_hours: Seq<char>,
    pub time_days: Seq<char>,
}

impl View for DexTrade {
    type V = DexTradeView;

    open spec fn view(&self) -> DexTradeView {
        DexTradeView {
            pair_address: self.pair_address@,
            factory: self.factory@,
            token0_amount: self.token0_amount as int,
            token1_amount: self.token1_amount as int,
            swap_rate: self.swap_rate as int,
            timestamp: self.timestamp as int,
            log_index: self.log_index as int,
            time_minutes: self.time_minutes@,
            time_hours: self.time_hours@,
            time_days: self.time_days@,
        }
    }
}

impl DeepView for DexTrade {
    type V = DexTradeView;

    open spec fn deep_view(&self) -> DexTradeView {
        self@
    }
}

} // verus!
