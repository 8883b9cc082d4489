//! Time-bucketed DEX trading statistics keyed by (pair, bucket).
//!
//! Each trade lands in one bucket per granularity (minute, hour, day).
//! A bucket accumulates absolute-value volumes, and records a swap rate
//! chosen by an explicit tie-break: a strictly newer timestamp always wins,
//! and within one timestamp a strictly larger log index wins. The
//! `last_trade` / `last_trade_log_index` bookkeeping advances on every
//! trade, even one that lost the tie-break — deliberately preserved
//! behavior, not corrected here. A fresh bucket is seeded with the
//! creating trade's timestamp and log index (and a zero rate), so the
//! first trade in a bucket loses its own tie-break and leaves the zero
//! seed rate in place.

use vstd::prelude::*;
use vstd::pervasive::VecAdditionalExecFns;

use crate::events::{DexTrade, DexTradeView};
use crate::keyed::{
    distinct_keys, find_first, lemma_find_first_at, lemma_find_first_found,
    lemma_find_first_mem, lemma_find_first_none, lemma_find_first_upsert,
    lemma_upsert_first_distinct, lemma_upsert_first_membership, lemma_upsert_first_push,
    lemma_upsert_first_update, upsert_first,
};
use crate::native::unit_bound;
use crate::MAX_BATCH_LEN;

verus! {

/// The three bucket granularities a trade is aggregated under.
#[derive(Clone, Copy, Debug)]
pub enum Granularity {
    Minute,
    Hour,
    Day,
}

/// The bucket key of a trade under one granularity; the keys themselves
/// are derived upstream and carried on the trade.
pub open spec fn bucket_of(t: DexTradeView, g: Granularity) -> Seq<char> {
    match g {
        Granularity::Minute => t.time_minutes,
        Granularity::Hour => t.time_hours,
        Granularity::Day => t.time_days,
    }
}

/// The aggregated trading data of one (pair, bucket).
#[derive(Debug)]
pub struct DexPairAggregatedData {
    pub pair: String,
    pub factory: String,
    pub token0_volume: i128,
    pub token1_volume: i128,
    pub swap_rate: i64,
    pub last_trade: i64,
    pub last_trade_log_index: i32,
}

pub ghost struct DexPairView {
    pub pair: Seq<char>,
    pub factory: Seq<char>,
    pub token0_volume: int,
    pub token1_volume: int,
    pub swap_rate: int,
    pub last_trade: int,
    pub last_trade_log_index: int,
}

impl View for DexPairAggregatedData {
    type V = DexPairView;

    open spec fn view(&self) -> DexPairView {
        DexPairView {
            pair: self.pair@,
            factory: self.factory@,
            token0_volume: self.token0_volume as int,
            token1_volume: self.token1_volume as int,
            swap_rate: self.swap_rate as int,
            last_trade: self.last_trade as int,
            last_trade_log_index: self.last_trade_log_index as int,
        }
    }
}

impl DeepView for DexPairAggregatedData {
    type V = DexPairView;

    open spec fn deep_view(&self) -> DexPairView {
        self@
    }
}

/// One store entry: aggregated data together with its bucket key.
#[derive(Debug)]
pub struct DexBucketAggregate {
    pub bucket: String,
    pub data: DexPairAggregatedData,
}

pub ghost struct DexBucketView {
    pub bucket: Seq<char>,
    pub data: DexPairView,
}

impl View for DexBucketAggregate {
    type V = DexBucketView;

    open spec fn view(&self) -> DexBucketView {
        DexBucketView { bucket: self.bucket@, data: self.data@ }
    }
}

impl DeepView for DexBucketAggregate {
    type V = DexBucketView;

    open spec fn deep_view(&self) -> DexBucketView {
        self@
    }
}

/// DEX aggregates of one granularity keyed by (pair, bucket), in
/// first-touch order.
#[derive(Debug)]
pub struct DexAggregateStore {
    pub entries: Vec<DexBucketAggregate>,
}

impl View for DexAggregateStore {
    type V = Seq<DexBucketView>;

    open spec fn view(&self) -> Seq<DexBucketView> {
        self.entries.deep_view()
    }
}

pub open spec fn dex_key() -> spec_fn(DexBucketView) -> (Seq<char>, Seq<char>) {
    |e: DexBucketView| (e.data.pair, e.bucket)
}

/// The stored entry for (pair, bucket), else a fresh one seeded with the
/// asking trade's factory, timestamp and log index, zero volumes and a
/// zero rate.
pub open spec fn dex_stored_or_default(
    s: Seq<DexBucketView>,
    pair: Seq<char>,
    bucket: Seq<char>,
    factory: Seq<char>,
    timestamp: int,
    log_index: int,
) -> DexBucketView {
    match find_first(s, dex_key(), (pair, bucket)) {
        Some(e) => e,
        None => DexBucketView {
            bucket,
            data: DexPairView {
                pair,
                factory,
                token0_volume: 0,
                token1_volume: 0,
                swap_rate: 0,
                last_trade: timestamp,
                last_trade_log_index: log_index,
            },
        },
    }
}

impl DexAggregateStore {
    pub fn new() -> (s: Self)
        ensures
            s@ == Seq::<DexBucketView>::empty(),
    {
        let s = DexAggregateStore { entries: Vec::new() };
        proof {
            assert(s@ =~= Seq::<DexBucketView>::empty());
        }
        s
    }

    /// Write `entry` back under its (pair, bucket) key.
    pub fn insert(&mut self, entry: DexBucketAggregate)
        ensures
            final(self)@ == upsert_first(old(self)@, dex_key(), entry@),
    {
        let n = self.entries.len();
        let mut i: usize = 0;
        while i < n
            invariant
                n == self.entries.len(),
                i <= n,
                self.entries@ == old(self).entries@,
                forall|j: int|
                    0 <= j < i ==> (#[trigger] self@[j].data.pair, self@[j].bucket) != (
                    entry@.data.pair,
                    entry@.bucket,
                    ),
            decreases n - i,
        {
            if self.entries[i].data.pair == entry.data.pair && self.entries[i].bucket
                == entry.bucket {
                proof {
                    lemma_upsert_first_update(self@, dex_key(), entry@, i as int);
                }
                let ghost prior = self@;
                self.entries.set(i, entry);
                proof {
                    assert(self@ =~= prior.update(i as int, entry@));
                }
                return ;
            }
            i += 1;
        }
        proof {
            lemma_upsert_first_push(self@, dex_key(), entry@);
        }
        let ghost prior = self@;
        self.entries.push(entry);
        proof {
            assert(self@ =~= prior.push(entry@));
        }
    }
}

/// Pure lookup-with-default for (pair, bucket); a fresh entry is seeded
/// from the asking trade. Never inserts.
pub fn get_dex_aggregates(
    storage: &DexAggregateStore,
    pair: String,
    factory: String,
    time_string: String,
    timestamp: i64,
    log_index: i32,
) -> (r: DexPairAggregatedData)
    ensures
        r@ == dex_stored_or_default(
            storage@,
            pair@,
            time_string@,
            factory@,
            timestamp as int,
            log_index as int,
        ).data,
{
    let n = storage.entries.len();
    let mut i: usize = 0;
    while i < n
        invariant
            n == storage.entries.len(),
            i <= n,
            forall|j: int|
                0 <= j < i ==> (#[trigger] storage@[j].data.pair, storage@[j].bucket) != (
                pair@,
                time_string@,
                ),
        decreases n - i,
    {
        if storage.entries[i].data.pair == pair && storage.entries[i].bucket == time_string {
            proof {
                lemma_find_first_at(storage@, dex_key(), i as int);
            }
            let found = &storage.entries[i].data;
            return DexPairAggregatedData {
                pair: found.pair.clone(),
                factory: found.factory.clone(),
                token0_volume: found.token0_volume,
                token1_volume: found.token1_volume,
                swap_rate: found.swap_rate,
                last_trade: found.last_trade,
                last_trade_log_index: found.last_trade_log_index,
            };
        }
        i += 1;
    }
    proof {
        lemma_find_first_none(storage@, dex_key(), (pair@, time_string@));
    }
    DexPairAggregatedData {
        pair,
        factory,
        token0_volume: 0,
        token1_volume: 0,
        swap_rate: 0,
        last_trade: timestamp,
        last_trade_log_index: log_index,
    }
}

/// One trade against one granularity's store: fetch or seed the bucket,
/// settle the swap-rate tie-break, advance the bookkeeping fields, and add
/// the absolute trade amounts to the volumes.
pub open spec fn dex_step(m: Seq<DexBucketView>, t: DexTradeView, g: Granularity) -> Seq<
    DexBucketView,
> {
    let bucket = bucket_of(t, g);
    let cur = dex_stored_or_default(m, t.pair_address, bucket, t.factory, t.timestamp, t.log_index);
    let rate = if cur.data.last_trade == t.timestamp {
        if cur.data.last_trade_log_index < t.log_index {
            t.swap_rate
        } else {
            cur.data.swap_rate
        }
    } else if cur.data.last_trade < t.timestamp {
        t.swap_rate
    } else {
        cur.data.swap_rate
    };
    upsert_first(
        m,
        dex_key(),
        DexBucketView {
            bucket: cur.bucket,
            data: DexPairView {
                pair: cur.data.pair,
                factory: cur.data.factory,
                token0_volume: cur.data.token0_volume + vstd::math::abs(t.token0_amount),
                token1_volume: cur.data.token1_volume + vstd::math::abs(t.token1_amount),
                swap_rate: rate,
                last_trade: t.timestamp,
                last_trade_log_index: t.log_index,
            },
        },
    )
}

/// The store after the first `n` trades under granularity `g`.
pub open spec fn dex_prefix(ts: Seq<DexTradeView>, n: int, g: Granularity) -> Seq<DexBucketView>
    decreases n,
{
    if n <= 0 {
        Seq::empty()
    } else {
        dex_step(dex_prefix(ts, n - 1, g), ts[n - 1], g)
    }
}

/// The aggregates of one whole batch under granularity `g`, in input order.
pub open spec fn dex_changes(ts: Seq<DexTradeView>, g: Granularity) -> Seq<DexBucketView> {
    dex_prefix(ts, ts.len() as int, g)
}

/// Every volume in `s` lies within `[0, b]`.
pub open spec fn dex_bounded(s: Seq<DexBucketView>, b: int) -> bool {
    forall|j: int|
        0 <= j < s.len() ==> {
            &&& 0 <= (#[trigger] s[j].data).token0_volume <= b
            &&& 0 <= s[j].data.token1_volume <= b
        }
}

proof fn lemma_dex_bounded_upsert(s: Seq<DexBucketView>, v: DexBucketView, b_old: int, b_new: int)
    requires
        dex_bounded(s, b_old),
        b_old <= b_new,
        0 <= v.data.token0_volume <= b_new,
        0 <= v.data.token1_volume <= b_new,
    ensures
        dex_bounded(upsert_first(s, dex_key(), v), b_new),
{
    lemma_upsert_first_membership(s, dex_key(), v);
    let u = upsert_first(s, dex_key(), v);
    assert forall|j: int| 0 <= j < u.len() implies {
        &&& 0 <= (#[trigger] u[j].data).token0_volume <= b_new
        &&& 0 <= u[j].data.token1_volume <= b_new
    } by {
        if u[j] != v {
            let w = choose|w: int| 0 <= w < s.len() && u[j] == s[w];
            assert(0 <= s[w].data.token0_volume <= b_old);
            assert(0 <= s[w].data.token1_volume <= b_old);
        }
    }
}

proof fn lemma_dex_lookup_bounded(
    s: Seq<DexBucketView>,
    pair: Seq<char>,
    bucket: Seq<char>,
    factory: Seq<char>,
    timestamp: int,
    log_index: int,
    b: int,
)
    requires
        dex_bounded(s, b),
        b >= 0,
    ensures
        ({
            let e = dex_stored_or_default(s, pair, bucket, factory, timestamp, log_index);
            &&& 0 <= e.data.token0_volume <= b
            &&& 0 <= e.data.token1_volume <= b
            &&& e.data.pair == pair
            &&& e.bucket == bucket
        }),
{
    if find_first(s, dex_key(), (pair, bucket)) is Some {
        lemma_find_first_found(s, dex_key(), (pair, bucket));
        lemma_find_first_mem(s, dex_key(), (pair, bucket));
        let j = choose|j: int|
            0 <= j < s.len() && find_first(s, dex_key(), (pair, bucket))->0 == s[j];
        assert(0 <= s[j].data.token0_volume <= b);
        assert(0 <= s[j].data.token1_volume <= b);
    }
}

/// The bucket key of `trade` under granularity `g`.
pub fn bucket_key<'a>(trade: &'a DexTrade, granularity: Granularity) -> (r: &'a String)
    ensures
        r@ == bucket_of(trade@, granularity),
{
    match granularity {
        Granularity::Minute => &trade.time_minutes,
        Granularity::Hour => &trade.time_hours,
        Granularity::Day => &trade.time_days,
    }
}

/// Fold the trades into one granularity's (pair, bucket) aggregates.
pub fn accumulate_dex(dex_trades: &Vec<DexTrade>, granularity: Granularity) -> (r:
    DexAggregateStore)
    requires
        dex_trades@.len() <= MAX_BATCH_LEN,
    ensures
        r@ == dex_changes(dex_trades.deep_view(), granularity),
{
    let ghost tv = dex_trades.deep_view();
    let mut store = DexAggregateStore::new();

    let mut i: usize = 0;
    while i < dex_trades.len()
        invariant
            i <= dex_trades.len(),
            dex_trades@.len() <= MAX_BATCH_LEN,
            tv == dex_trades.deep_view(),
            store@ == dex_prefix(tv, i as int, granularity),
            dex_bounded(store@, (i as int) * unit_bound()),
        decreases dex_trades.len() - i,
    {
        let trade = &dex_trades[i];
        let bucket = bucket_key(trade, granularity);
        let ghost bound = (i as int) * unit_bound();

        let amount0: i128 = trade.token0_amount as i128;
        let amount0: i128 = if amount0 < 0 {
            -amount0
        } else {
            amount0
        };
        let amount1: i128 = trade.token1_amount as i128;
        let amount1: i128 = if amount1 < 0 {
            -amount1
        } else {
            amount1
        };

        let mut aggregate = get_dex_aggregates(
            &store,
            trade.pair_address.clone(),
            trade.factory.clone(),
            bucket.clone(),
            trade.timestamp,
            trade.log_index,
        );
        proof {
            lemma_dex_lookup_bounded(
                store@,
                trade.pair_address@,
                bucket@,
                trade.factory@,
                trade.timestamp as int,
                trade.log_index as int,
                bound,
            );
        }

        if aggregate.last_trade == trade.timestamp {
            if aggregate.last_trade_log_index < trade.log_index {
                aggregate.swap_rate = trade.swap_rate;
            }
        } else if aggregate.last_trade < trade.timestamp {
            aggregate.swap_rate = trade.swap_rate;
        }

        aggregate.last_trade = trade.timestamp;
        aggregate.last_trade_log_index = trade.log_index;

        aggregate.token0_volume = aggregate.token0_volume + amount0;
        aggregate.token1_volume = aggregate.token1_volume + amount1;

        let entry = DexBucketAggregate { bucket: bucket.clone(), data: aggregate };
        proof {
            lemma_dex_bounded_upsert(store@, entry@, bound, (i as int + 1) * unit_bound());
        }
        store.insert(entry);
        i += 1;
    }
    store
}

/// The (pair, bucket) key a trade falls under for granularity `g`.
pub open spec fn dex_trade_key(t: DexTradeView, g: Granularity) -> (Seq<char>, Seq<char>) {
    (t.pair_address, bucket_of(t, g))
}

/// How many of the first `n` trades hit (pair, bucket) under `g`.
pub open spec fn dex_hit_count(
    ts: Seq<DexTradeView>,
    n: int,
    g: Granularity,
    pair: Seq<char>,
    bucket: Seq<char>,
) -> int
    decreases n,
{
    if n <= 0 {
        0
    } else {
        dex_hit_count(ts, n - 1, g, pair, bucket) + if dex_trade_key(ts[n - 1], g) == (
            pair,
            bucket,
        ) {
            1int
        } else {
            0int
        }
    }
}

/// The index of the last of the first `n` trades hitting (pair, bucket),
/// or a negative value when none does.
pub open spec fn dex_last_hit(
    ts: Seq<DexTradeView>,
    n: int,
    g: Granularity,
    pair: Seq<char>,
    bucket: Seq<char>,
) -> int
    decreases n,
{
    if n <= 0 {
        -1
    } else if dex_trade_key(ts[n - 1], g) == (pair, bucket) {
        n - 1
    } else {
        dex_last_hit(ts, n - 1, g, pair, bucket)
    }
}

proof fn lemma_dex_hit_count_nonneg(
    ts: Seq<DexTradeView>,
    n: int,
    g: Granularity,
    pair: Seq<char>,
    bucket: Seq<char>,
)
    ensures
        dex_hit_count(ts, n, g, pair, bucket) >= 0,
    decreases n,
{
    if n > 0 {
        lemma_dex_hit_count_nonneg(ts, n - 1, g, pair, bucket);
    }
}

proof fn lemma_dex_rate_prefix(
    ts: Seq<DexTradeView>,
    n: int,
    g: Granularity,
    pair: Seq<char>,
    bucket: Seq<char>,
)
    requires
        0 <= n <= ts.len(),
        forall|i: int, j: int|
            0 <= i < j < ts.len() ==> (#[trigger] ts[i]).timestamp < (#[trigger] ts[j]).timestamp,
    ensures
        ({
            let found = find_first(dex_prefix(ts, n, g), dex_key(), (pair, bucket));
            let c = dex_hit_count(ts, n, g, pair, bucket);
            let l = dex_last_hit(ts, n, g, pair, bucket);
            &&& (found is Some <==> c >= 1)
            &&& c >= 1 ==> {
                &&& 0 <= l < n
                &&& dex_trade_key(ts[l], g) == (pair, bucket)
                &&& found->0.data.last_trade == ts[l].timestamp
                &&& found->0.data.last_trade_log_index == ts[l].log_index
                &&& found->0.data.swap_rate == if c >= 2 {
                    ts[l].swap_rate
                } else {
                    0
                }
            }
        }),
    decreases n,
{
    if n == 0 {
        lemma_find_first_none(dex_prefix(ts, 0, g), dex_key(), (pair, bucket));
    } else {
        lemma_dex_rate_prefix(ts, n - 1, g, pair, bucket);
        lemma_dex_hit_count_nonneg(ts, n - 1, g, pair, bucket);
        let m = dex_prefix(ts, n - 1, g);
        let t = ts[n - 1];
        let tb = bucket_of(t, g);
        let cur = dex_stored_or_default(m, t.pair_address, tb, t.factory, t.timestamp, t.log_index);
        let rate = if cur.data.last_trade == t.timestamp {
            if cur.data.last_trade_log_index < t.log_index {
                t.swap_rate
            } else {
                cur.data.swap_rate
            }
        } else if cur.data.last_trade < t.timestamp {
            t.swap_rate
        } else {
            cur.data.swap_rate
        };
        let v = DexBucketView {
            bucket: cur.bucket,
            data: DexPairView {
                pair: cur.data.pair,
                factory: cur.data.factory,
                token0_volume: cur.data.token0_volume + vstd::math::abs(t.token0_amount),
                token1_volume: cur.data.token1_volume + vstd::math::abs(t.token1_amount),
                swap_rate: rate,
                last_trade: t.timestamp,
                last_trade_log_index: t.log_index,
            },
        };
        if find_first(m, dex_key(), (t.pair_address, tb)) is Some {
            lemma_find_first_found(m, dex_key(), (t.pair_address, tb));
        }
        assert(dex_key()(v) == (t.pair_address, tb));
        assert(dex_prefix(ts, n, g) == upsert_first(m, dex_key(), v));
        lemma_find_first_upsert(m, dex_key(), v, (pair, bucket));
        if dex_trade_key(t, g) == (pair, bucket) {
            assert(t.pair_address == pair && tb == bucket);
            assert(find_first(dex_prefix(ts, n, g), dex_key(), (pair, bucket)) == Some(v));
            assert(dex_hit_count(ts, n, g, pair, bucket) == dex_hit_count(
                ts,
                n - 1,
                g,
                pair,
                bucket,
            ) + 1);
            assert(dex_last_hit(ts, n, g, pair, bucket) == n - 1);
            if dex_hit_count(ts, n - 1, g, pair, bucket) >= 1 {
                let l_prev = dex_last_hit(ts, n - 1, g, pair, bucket);
                assert(0 <= l_prev < n - 1);
                assert(ts[l_prev].timestamp < ts[n - 1].timestamp);
                assert(cur == find_first(m, dex_key(), (pair, bucket))->0);
                assert(cur.data.last_trade == ts[l_prev].timestamp);
                assert(cur.data.last_trade < t.timestamp);
                assert(rate == t.swap_rate);
            } else {
                assert(find_first(m, dex_key(), (pair, bucket)) is None);
                assert(cur.data.last_trade == t.timestamp);
                assert(cur.data.last_trade_log_index == t.log_index);
                assert(rate == 0);
            }
        } else {
            assert((pair, bucket) != dex_key()(v));
            assert(find_first(dex_prefix(ts, n, g), dex_key(), (pair, bucket)) == find_first(
                m,
                dex_key(),
                (pair, bucket),
            ));
            assert(dex_hit_count(ts, n, g, pair, bucket) == dex_hit_count(
                ts,
                n - 1,
                g,
                pair,
                bucket,
            ));
            assert(dex_last_hit(ts, n, g, pair, bucket) == dex_last_hit(
                ts,
                n - 1,
                g,
                pair,
                bucket,
            ));
        }
    }
}

/// Latest-rate law: when timestamps increase strictly across the batch,
/// the recorded swap rate of any (pair, bucket) that two or more trades
/// hit is the rate of the last trade hitting it, whatever the log indices.
/// A bucket hit exactly once keeps its zero seed rate instead, because the
/// seeding makes the creating trade lose its own tie-break.
pub proof fn lemma_dex_latest_rate(
    ts: Seq<DexTradeView>,
    g: Granularity,
    pair: Seq<char>,
    bucket: Seq<char>,
)
    requires
        forall|i: int, j: int|
            0 <= i < j < ts.len() ==> (#[trigger] ts[i]).timestamp < (#[trigger] ts[j]).timestamp,
        dex_hit_count(ts, ts.len() as int, g, pair, bucket) >= 2,
    ensures
        ({
            let found = find_first(dex_changes(ts, g), dex_key(), (pair, bucket));
            let l = dex_last_hit(ts, ts.len() as int, g, pair, bucket);
            &&& found is Some
            &&& 0 <= l < ts.len()
            &&& dex_trade_key(ts[l], g) == (pair, bucket)
            &&& found->0.data.swap_rate == ts[l].swap_rate
        }),
{
    lemma_dex_rate_prefix(ts, ts.len() as int, g, pair, bucket);
}


proof fn lemma_dex_prefix_distinct(ts: Seq<DexTradeView>, n: int, g: Granularity)
    requires
        0 <= n,
    ensures
        distinct_keys(dex_prefix(ts, n, g), dex_key()),
    decreases n,
{
    if n > 0 {
        lemma_dex_prefix_distinct(ts, n - 1, g);
        let m = dex_prefix(ts, n - 1, g);
        let t = ts[n - 1];
        let bucket = bucket_of(t, g);
        let cur = dex_stored_or_default(
            m,
            t.pair_address,
            bucket,
            t.factory,
            t.timestamp,
            t.log_index,
        );
        let rate = if cur.data.last_trade == t.timestamp {
            if cur.data.last_trade_log_index < t.log_index {
                t.swap_rate
            } else {
                cur.data.swap_rate
            }
        } else if cur.data.last_trade < t.timestamp {
            t.swap_rate
        } else {
            cur.data.swap_rate
        };
        lemma_upsert_first_distinct(
            m,
            dex_key(),
            DexBucketView {
                bucket: cur.bucket,
                data: DexPairView {
                    pair: cur.data.pair,
                    factory: cur.data.factory,
                    token0_volume: cur.data.token0_volume + vstd::math::abs(t.token0_amount),
                    token1_volume: cur.data.token1_volume + vstd::math::abs(t.token1_amount),
                    swap_rate: rate,
                    last_trade: t.timestamp,
                    last_trade_log_index: t.log_index,
                },
            },
        );
    }
}

/// Map law: the DEX aggregates of a batch hold at most one entry per
/// (pair, bucket), at every granularity.
pub proof fn lemma_dex_changes_distinct(ts: Seq<DexTradeView>, g: Granularity)
    ensures
        distinct_keys(dex_changes(ts, g), dex_key()),
{
    lemma_dex_prefix_distinct(ts, ts.len() as int, g);
}

} // verus!
