use chain_aggregates::aggregate_data;
use chain_aggregates::dex::{accumulate_dex, get_dex_aggregates, DexAggregateStore, Granularity};
use chain_aggregates::erc1155::{
    accumulate_erc1155, get_erc1155_transfer_balance_stored, Erc1155BalanceStore,
};
use chain_aggregates::erc20::{accumulate_erc20, get_erc20_token_balance_stored};
use chain_aggregates::erc721::{accumulate_erc721, get_erc721_token_owner_stored};
use chain_aggregates::events::{
    Block, DexTrade, ERC1155Transfer, ERC20Transfer, ERC721Transfer, Transaction,
};
use chain_aggregates::native::{
    accumulate_native, get_native_balance_stored, NativeBalanceStore, NativeTokenBalanceChange,
};

fn tx(from: &str, to: Option<&str>, value: i64) -> Transaction {
    Transaction {
        from_address: from.to_string(),
        to_address: to.map(|a| a.to_string()),
        value,
    }
}

fn erc20(token: &str, from: &str, to: &str, amount: i64) -> ERC20Transfer {
    ERC20Transfer {
        token: token.to_string(),
        from_address: from.to_string(),
        to_address: to.to_string(),
        amount,
    }
}

fn erc721(token: &str, id: &str, from: &str, to: &str) -> ERC721Transfer {
    ERC721Transfer {
        token: token.to_string(),
        id: id.to_string(),
        from_address: from.to_string(),
        to_address: to.to_string(),
    }
}

fn erc1155(token: &str, from: &str, to: &str, ids: &[&str], values: &[i64]) -> ERC1155Transfer {
    ERC1155Transfer {
        token: token.to_string(),
        from_address: from.to_string(),
        to_address: to.to_string(),
        ids: ids.iter().map(|i| i.to_string()).collect(),
        values: values.to_vec(),
    }
}

fn trade(ts: i64, log_index: i32, rate: i64, amount0: i64, amount1: i64) -> DexTrade {
    DexTrade {
        pair_address: "pair".to_string(),
        factory: "factory".to_string(),
        token0_amount: amount0,
        token1_amount: amount1,
        swap_rate: rate,
        timestamp: ts,
        log_index,
        time_minutes: format!("minute-{}", ts / 60),
        time_hours: format!("hour-{}", ts / 3600),
        time_days: format!("day-{}", ts / 86400),
    }
}

fn native_entry<'a>(store: &'a NativeBalanceStore, address: &str) -> &'a NativeTokenBalanceChange {
    store
        .entries
        .iter()
        .find(|e| e.address == address)
        .expect("no entry for address")
}

fn minute_rate(store: &DexAggregateStore, ts: i64) -> i64 {
    let bucket = format!("minute-{}", ts / 60);
    store
        .entries
        .iter()
        .find(|e| e.data.pair == "pair" && e.bucket == bucket)
        .expect("no entry for bucket")
        .data
        .swap_rate
}

#[test]
fn native_transfer_debits_and_credits() {
    let store = accumulate_native(&vec![], &vec![tx("alice", Some("bob"), 40)]);
    assert_eq!(store.entries.len(), 2);
    assert_eq!(native_entry(&store, "alice").balance_change, -40);
    assert_eq!(native_entry(&store, "bob").balance_change, 40);
}

#[test]
fn native_transfers_sum_to_zero() {
    let store = accumulate_native(
        &vec![Block { miner: "miner".to_string() }],
        &vec![
            tx("alice", Some("bob"), 40),
            tx("bob", Some("carol"), 15),
            tx("alice", Some("carol"), 5),
        ],
    );
    let total: i128 = store.entries.iter().map(|e| e.balance_change).sum();
    assert_eq!(total, 0);
}

#[test]
fn native_contract_creation_debits_sender_only() {
    let store = accumulate_native(&vec![], &vec![tx("alice", None, 25)]);
    assert_eq!(store.entries.len(), 1);
    assert_eq!(store.entries[0].address, "alice");
    assert_eq!(store.entries[0].balance_change, -25);
}

#[test]
fn native_block_reward_is_zero_placeholder() {
    let store = accumulate_native(&vec![Block { miner: "miner".to_string() }], &vec![]);
    assert_eq!(store.entries.len(), 1);
    assert_eq!(store.entries[0].address, "miner");
    assert_eq!(store.entries[0].balance_change, 0);
}

#[test]
fn native_self_transfer_nets_to_zero() {
    let store = accumulate_native(&vec![], &vec![tx("alice", Some("alice"), 9)]);
    assert_eq!(store.entries.len(), 1);
    assert_eq!(store.entries[0].balance_change, 0);
}

#[test]
fn get_native_balance_defaults_to_zero() {
    let store = NativeBalanceStore { entries: vec![] };
    let entry = get_native_balance_stored(&store, "alice".to_string());
    assert_eq!(entry.address, "alice");
    assert_eq!(entry.balance_change, 0);
}

#[test]
fn get_native_balance_returns_stored_entry() {
    let store = accumulate_native(&vec![], &vec![tx("alice", Some("bob"), 7)]);
    let entry = get_native_balance_stored(&store, "bob".to_string());
    assert_eq!(entry.balance_change, 7);
}

#[test]
fn erc20_both_legs_subtract() {
    let store = accumulate_erc20(&vec![erc20("tok", "alice", "bob", 12)]);
    assert_eq!(store.entries.len(), 2);
    let sender = get_erc20_token_balance_stored(&store, "tok".to_string(), "alice".to_string());
    let receiver = get_erc20_token_balance_stored(&store, "tok".to_string(), "bob".to_string());
    assert_eq!(sender.balance_change, -12);
    assert_eq!(receiver.balance_change, -12);
}

#[test]
fn erc20_accumulates_per_token_and_address() {
    let store = accumulate_erc20(&vec![
        erc20("tok", "alice", "bob", 10),
        erc20("tok", "alice", "carol", 5),
        erc20("other", "alice", "bob", 3),
    ]);
    let alice_tok = get_erc20_token_balance_stored(&store, "tok".to_string(), "alice".to_string());
    let alice_other =
        get_erc20_token_balance_stored(&store, "other".to_string(), "alice".to_string());
    assert_eq!(alice_tok.balance_change, -15);
    assert_eq!(alice_other.balance_change, -3);
}

#[test]
fn erc721_last_transfer_wins() {
    let store = accumulate_erc721(&vec![
        erc721("tok", "1", "alice", "bob"),
        erc721("tok", "1", "bob", "carol"),
        erc721("tok", "2", "alice", "dave"),
    ]);
    assert_eq!(store.entries.len(), 2);
    let owner1 = get_erc721_token_owner_stored(
        &store,
        "tok".to_string(),
        "1".to_string(),
        "unused".to_string(),
    );
    let owner2 = get_erc721_token_owner_stored(
        &store,
        "tok".to_string(),
        "2".to_string(),
        "unused".to_string(),
    );
    assert_eq!(owner1.to_owner, "carol");
    assert_eq!(owner2.to_owner, "dave");
}

#[test]
fn get_erc721_owner_seeds_fresh_entry_with_current_owner() {
    let store = accumulate_erc721(&vec![]);
    let entry = get_erc721_token_owner_stored(
        &store,
        "tok".to_string(),
        "1".to_string(),
        "alice".to_string(),
    );
    assert_eq!(entry.token, "tok");
    assert_eq!(entry.id, "1");
    assert_eq!(entry.to_owner, "alice");
}

#[test]
fn erc1155_debits_sender_credits_receiver_per_id() {
    let store = accumulate_erc1155(&vec![erc1155("tok", "alice", "bob", &["1", "2"], &[5, 7])]);
    assert_eq!(store.entries.len(), 4);
    let sender_1 = get_erc1155_transfer_balance_stored(
        &store,
        "alice".to_string(),
        "tok".to_string(),
        "1".to_string(),
    );
    let receiver_1 = get_erc1155_transfer_balance_stored(
        &store,
        "bob".to_string(),
        "tok".to_string(),
        "1".to_string(),
    );
    let sender_2 = get_erc1155_transfer_balance_stored(
        &store,
        "alice".to_string(),
        "tok".to_string(),
        "2".to_string(),
    );
    let receiver_2 = get_erc1155_transfer_balance_stored(
        &store,
        "bob".to_string(),
        "tok".to_string(),
        "2".to_string(),
    );
    assert_eq!(sender_1.balance_change, -5);
    assert_eq!(receiver_1.balance_change, 5);
    assert_eq!(sender_2.balance_change, -7);
    assert_eq!(receiver_2.balance_change, 7);
}

#[test]
fn erc1155_sums_to_zero_per_token_and_id() {
    let store = accumulate_erc1155(&vec![
        erc1155("tok", "alice", "bob", &["1"], &[5]),
        erc1155("tok", "bob", "carol", &["1", "2"], &[3, 4]),
    ]);
    let total_id1: i128 = store
        .entries
        .iter()
        .filter(|e| e.token == "tok" && e.id == "1")
        .map(|e| e.balance_change)
        .sum();
    let total_id2: i128 = store
        .entries
        .iter()
        .filter(|e| e.token == "tok" && e.id == "2")
        .map(|e| e.balance_change)
        .sum();
    assert_eq!(total_id1, 0);
    assert_eq!(total_id2, 0);
}

#[test]
fn get_erc1155_balance_defaults_to_zero() {
    let store = Erc1155BalanceStore { entries: vec![] };
    let entry = get_erc1155_transfer_balance_stored(
        &store,
        "alice".to_string(),
        "tok".to_string(),
        "1".to_string(),
    );
    assert_eq!(entry.token, "tok");
    assert_eq!(entry.address, "alice");
    assert_eq!(entry.id, "1");
    assert_eq!(entry.balance_change, 0);
}

#[test]
fn dex_tie_break_later_log_wins() {
    let store = accumulate_dex(
        &vec![trade(100, 1, 1, 0, 0), trade(100, 2, 2, 0, 0)],
        Granularity::Minute,
    );
    assert_eq!(minute_rate(&store, 100), 2);
}

#[test]
fn dex_tie_break_out_of_order_log_index() {
    // The bucket already exists, so the trade with log index 5 records its
    // rate; the later trade with the smaller log index 2 must not win.
    let store = accumulate_dex(
        &vec![trade(90, 0, 9, 0, 0), trade(100, 5, 1, 0, 0), trade(100, 2, 2, 0, 0)],
        Granularity::Minute,
    );
    assert_eq!(minute_rate(&store, 100), 1);
}

#[test]
fn dex_first_trade_keeps_seed_rate() {
    // A fresh bucket is seeded with the creating trade's timestamp and log
    // index, so the first trade loses its own tie-break: the zero seed rate
    // stays until a second trade hits the bucket.
    let store = accumulate_dex(&vec![trade(100, 5, 1, 0, 0)], Granularity::Minute);
    assert_eq!(minute_rate(&store, 100), 0);
}

#[test]
fn dex_latest_timestamp_wins() {
    let store = accumulate_dex(
        &vec![trade(60, 9, 1, 0, 0), trade(70, 4, 2, 0, 0), trade(80, 1, 3, 0, 0)],
        Granularity::Minute,
    );
    assert_eq!(minute_rate(&store, 60), 3);
}

#[test]
fn dex_older_timestamp_does_not_win() {
    let mut older = trade(60, 9, 7, 0, 0);
    older.time_minutes = "minute-2".to_string();
    let store = accumulate_dex(
        &vec![trade(120, 1, 1, 0, 0), trade(130, 2, 2, 0, 0), older],
        Granularity::Minute,
    );
    // The out-of-order trade still advances the bookkeeping fields but must
    // leave the recorded rate alone.
    assert_eq!(minute_rate(&store, 120), 2);
    let entry = get_dex_aggregates(
        &store,
        "pair".to_string(),
        "factory".to_string(),
        "minute-2".to_string(),
        0,
        0,
    );
    assert_eq!(entry.last_trade, 60);
    assert_eq!(entry.last_trade_log_index, 9);
}

#[test]
fn dex_volumes_sum_absolute_amounts() {
    let store = accumulate_dex(
        &vec![trade(60, 1, 1, 5, -2), trade(70, 2, 2, -3, 4)],
        Granularity::Minute,
    );
    assert_eq!(store.entries.len(), 1);
    assert_eq!(store.entries[0].data.token0_volume, 8);
    assert_eq!(store.entries[0].data.token1_volume, 6);
}

#[test]
fn dex_buckets_split_by_granularity() {
    let trades = vec![trade(60, 1, 1, 5, 5), trade(120, 2, 2, 5, 5), trade(86400 + 60, 3, 3, 5, 5)];
    let minute = accumulate_dex(&trades, Granularity::Minute);
    let hour = accumulate_dex(&trades, Granularity::Hour);
    let day = accumulate_dex(&trades, Granularity::Day);
    assert_eq!(minute.entries.len(), 3);
    assert_eq!(hour.entries.len(), 2);
    assert_eq!(day.entries.len(), 2);
}

#[test]
fn get_dex_aggregates_seeds_fresh_entry() {
    let store = DexAggregateStore { entries: vec![] };
    let entry = get_dex_aggregates(
        &store,
        "pair".to_string(),
        "factory".to_string(),
        "minute-1".to_string(),
        777,
        3,
    );
    assert_eq!(entry.pair, "pair");
    assert_eq!(entry.factory, "factory");
    assert_eq!(entry.token0_volume, 0);
    assert_eq!(entry.token1_volume, 0);
    assert_eq!(entry.swap_rate, 0);
    assert_eq!(entry.last_trade, 777);
    assert_eq!(entry.last_trade_log_index, 3);
}

#[test]
fn empty_batches_yield_empty_maps() {
    let result = aggregate_data(&vec![], &vec![], &vec![], &vec![], &vec![], &vec![]);
    assert!(result.0.entries.is_empty());
    assert!(result.1.entries.is_empty());
    assert!(result.2.entries.is_empty());
    assert!(result.3.entries.is_empty());
    assert!(result.4.entries.is_empty());
    assert!(result.5.entries.is_empty());
    assert!(result.6.entries.is_empty());
}

#[test]
fn aggregate_data_fills_all_seven_maps() {
    let result = aggregate_data(
        &vec![Block { miner: "miner".to_string() }],
        &vec![tx("alice", Some("bob"), 10)],
        &vec![erc20("tok", "alice", "bob", 4)],
        &vec![erc721("tok", "1", "alice", "bob")],
        &vec![erc1155("tok", "alice", "bob", &["1"], &[2])],
        &vec![trade(60, 1, 5, 3, 3)],
    );
    assert_eq!(result.0.entries.len(), 3);
    assert_eq!(result.1.entries.len(), 2);
    assert_eq!(result.2.entries.len(), 1);
    assert_eq!(result.3.entries.len(), 2);
    assert_eq!(result.4.entries.len(), 1);
    assert_eq!(result.5.entries.len(), 1);
    assert_eq!(result.6.entries.len(), 1);
    assert_eq!(result.2.entries[0].to_owner, "bob");
    assert_eq!(result.4.entries[0].bucket, "minute-1");
    assert_eq!(result.5.entries[0].bucket, "hour-0");
    assert_eq!(result.6.entries[0].bucket, "day-0");
}
