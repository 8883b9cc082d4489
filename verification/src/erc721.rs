//! ERC721 ownership transitions keyed by (token, id).
//!
//! An entry records the owner at the end of the batch: later transfers for
//! the same (token, id) overwrite `to_owner`, so the last transfer in input
//! order wins. The first occurrence seeds the entry with the transfer's
//! `from_address` as owner before the overwrite; that seed is structural
//! only and carries no meaning beyond initializing the accumulator.

use vstd::prelude::*;
use vstd::pervasive::VecAdditionalExecFns;

use crate::events::{ERC721Transfer, ERC721TransferView};
use crate::keyed::{
    distinct_keys, find_first, lemma_find_first_at, lemma_find_first_found,
    lemma_find_first_none, lemma_find_first_upsert, lemma_upsert_first_distinct,
    lemma_upsert_first_push, lemma_upsert_first_update, upsert_first,
};

verus! {

/// The owner of one (token, id) after the batch.
#[derive(Debug)]
pub struct ERC721OwnerChange {
    pub token: String,
    pub id: String,
    pub to_owner: String,
}

pub ghost struct Erc721OwnerView {
    pub token: Seq<char>,
    pub id: Seq<char>,
    pub to_owner: Seq<char>,
}

impl View for ERC721OwnerChange {
    type V = Erc721OwnerView;

    open spec fn view(&self) -> Erc721OwnerView {
        Erc721OwnerView { token: self.token@, id: self.id@, to_owner: self.to_owner@ }
    }
}

impl DeepView for ERC721OwnerChange {
    type V = Erc721OwnerView;

    open spec fn deep_view(&self) -> Erc721OwnerView {
        self@
    }
}

/// ERC721 owner records keyed by (token, id), in first-touch order.
#[derive(Debug)]
pub struct Erc721OwnerStore {
    pub entries: Vec<ERC721OwnerChange>,
}

impl View for Erc721OwnerStore {
    type V = Seq<Erc721OwnerView>;

    open spec fn view(&self) -> Seq<Erc721OwnerView> {
        self.entries.deep_view()
    }
}

pub open spec fn erc721_key() -> spec_fn(Erc721OwnerView) -> (Seq<char>, Seq<char>) {
    |e: Erc721OwnerView| (e.token, e.id)
}

/// The stored entry for (token, id), else one seeded with `current_owner`.
pub open spec fn erc721_stored_or_default(
    s: Seq<Erc721OwnerView>,
    token: Seq<char>,
    id: Seq<char>,
    current_owner: Seq<char>,
) -> Erc721OwnerView {
    match find_first(s, erc721_key(), (token, id)) {
        Some(e) => e,
        None => Erc721OwnerView { token, id, to_owner: current_owner },
    }
}

impl Erc721OwnerStore {
    pub fn new() -> (s: Self)
        ensures
            s@ == Seq::<Erc721OwnerView>::empty(),
    {
        let s = Erc721OwnerStore { entries: Vec::new() };
        proof {
            assert(s@ =~= Seq::<Erc721OwnerView>::empty());
        }
        s
    }

    /// Write `entry` back under its (token, id) key.
    pub fn insert(&mut self, entry: ERC721OwnerChange)
        ensures
            final(self)@ == upsert_first(old(self)@, erc721_key(), entry@),
    {
        let n = self.entries.len();
        let mut i: usize = 0;
        while i < n
            invariant
                n == self.entries.len(),
                i <= n,
                self.entries@ == old(self).entries@,
                forall|j: int|
                    0 <= j < i ==> (#[trigger] self@[j].token, self@[j].id) != (
                    entry@.token,
                    entry@.id,
                    ),
            decreases n - i,
        {
            if self.entries[i].token == entry.token && self.entries[i].id == entry.id {
                proof {
                    lemma_upsert_first_update(self@, erc721_key(), entry@, i as int);
                }
                let ghost prior = self@;
                self.entries.set(i, entry);
                proof {
                    assert(self@ =~= prior.update(i as int, entry@));
                }
                return ;
            }
            i += 1;
        }
        proof {
            lemma_upsert_first_push(self@, erc721_key(), entry@);
        }
        let ghost prior = self@;
        self.entries.push(entry);
        proof {
            assert(self@ =~= prior.push(entry@));
        }
    }
}

/// Pure lookup-with-default for (token, id); a fresh entry is seeded with
/// `current_owner`. Never inserts.
pub fn get_erc721_token_owner_stored(
    storage: &Erc721OwnerStore,
    token: String,
    id: String,
    current_owner: String,
) -> (r: ERC721OwnerChange)
    ensures
        r@ == erc721_stored_or_default(storage@, token@, id@, current_owner@),
{
    let n = storage.entries.len();
    let mut i: usize = 0;
    while i < n
        invariant
            n == storage.entries.len(),
            i <= n,
            forall|j: int|
                0 <= j < i ==> (#[trigger] storage@[j].token, storage@[j].id) != (token@, id@),
        decreases n - i,
    {
        if storage.entries[i].token == token && storage.entries[i].id == id {
            proof {
                lemma_find_first_at(storage@, erc721_key(), i as int);
            }
            return ERC721OwnerChange {
                token: storage.entries[i].token.clone(),
                id: storage.entries[i].id.clone(),
                to_owner: storage.entries[i].to_owner.clone(),
            };
        }
        i += 1;
    }
    proof {
        lemma_find_first_none(storage@, erc721_key(), (token@, id@));
    }
    ERC721OwnerChange { token, id, to_owner: current_owner }
}

/// One transfer: fetch or seed the (token, id) entry, then overwrite its
/// owner with the transfer's `to_address`.
pub open spec fn erc721_step(
    m: Seq<Erc721OwnerView>,
    t: ERC721TransferView,
) -> Seq<Erc721OwnerView> {
    let cur = erc721_stored_or_default(m, t.token, t.id, t.from_address);
    upsert_first(
        m,
        erc721_key(),
        Erc721OwnerView { token: cur.token, id: cur.id, to_owner: t.to_address },
    )
}

/// The store after the first `n` transfers.
pub open spec fn erc721_prefix(ts: Seq<ERC721TransferView>, n: int) -> Seq<Erc721OwnerView>
    decreases n,
{
    if n <= 0 {
        Seq::empty()
    } else {
        erc721_step(erc721_prefix(ts, n - 1), ts[n - 1])
    }
}

/// The ERC721 owner records of one whole batch, in input order.
pub open spec fn erc721_changes(ts: Seq<ERC721TransferView>) -> Seq<Erc721OwnerView> {
    erc721_prefix(ts, ts.len() as int)
}

/// Fold the transfers into per-(token, id) owner records.
pub fn accumulate_erc721(erc721_transfers: &Vec<ERC721Transfer>) -> (r: Erc721OwnerStore)
    ensures
        r@ == erc721_changes(erc721_transfers.deep_view()),
{
    let ghost tv = erc721_transfers.deep_view();
    let mut store = Erc721OwnerStore::new();

    let mut i: usize = 0;
    while i < erc721_transfers.len()
        invariant
            i <= erc721_transfers.len(),
            tv == erc721_transfers.deep_view(),
            store@ == erc721_prefix(tv, i as int),
        decreases erc721_transfers.len() - i,
    {
        let transfer = &erc721_transfers[i];
        let mut erc721_owner = get_erc721_token_owner_stored(
            &store,
            transfer.token.clone(),
            transfer.id.clone(),
            transfer.from_address.clone(),
        );
        erc721_owner.to_owner = transfer.to_address.clone();
        store.insert(erc721_owner);
        i += 1;
    }
    store
}

/// The `to_address` of the last of the first `n` transfers that touches
/// (token, id), if any does.
pub open spec fn erc721_last_owner(
    ts: Seq<ERC721TransferView>,
    n: int,
    token: Seq<char>,
    id: Seq<char>,
) -> Option<Seq<char>>
    decreases n,
{
    if n <= 0 {
        None
    } else if ts[n - 1].token == token && ts[n - 1].id == id {
        Some(ts[n - 1].to_address)
    } else {
        erc721_last_owner(ts, n - 1, token, id)
    }
}

proof fn lemma_erc721_prefix_owner(
    ts: Seq<ERC721TransferView>,
    n: int,
    token: Seq<char>,
    id: Seq<char>,
)
    requires
        0 <= n <= ts.len(),
    ensures
        match erc721_last_owner(ts, n, token, id) {
            Some(owner) => find_first(erc721_prefix(ts, n), erc721_key(), (token, id)) is Some
                && find_first(erc721_prefix(ts, n), erc721_key(), (token, id))->0.to_owner
                == owner,
            None => find_first(erc721_prefix(ts, n), erc721_key(), (token, id)) is None,
        },
    decreases n,
{
    if n > 0 {
        lemma_erc721_prefix_owner(ts, n - 1, token, id);
        let m = erc721_prefix(ts, n - 1);
        let t = ts[n - 1];
        let cur = erc721_stored_or_default(m, t.token, t.id, t.from_address);
        lemma_find_first_upsert(
            m,
            erc721_key(),
            Erc721OwnerView { token: cur.token, id: cur.id, to_owner: t.to_address },
            (token, id),
        );
        if find_first(m, erc721_key(), (t.token, t.id)) is Some {
            lemma_find_first_found(m, erc721_key(), (t.token, t.id));
        }
    } else {
        lemma_find_first_none(erc721_prefix(ts, 0), erc721_key(), (token, id));
    }
}

/// Last-transfer-wins law: replaying a batch in order, the recorded owner
/// of every (token, id) is the `to_address` of the last transfer in input
/// order that touches it; a pair no transfer touches has no entry.
pub proof fn lemma_erc721_last_transfer_wins(
    ts: Seq<ERC721TransferView>,
    token: Seq<char>,
    id: Seq<char>,
)
    ensures
        match erc721_last_owner(ts, ts.len() as int, token, id) {
            Some(owner) => find_first(erc721_changes(ts), erc721_key(), (token, id)) is Some
                && find_first(erc721_changes(ts), erc721_key(), (token, id))->0.to_owner
                == owner,
            None => find_first(erc721_changes(ts), erc721_key(), (token, id)) is None,
        },
{
    lemma_erc721_prefix_owner(ts, ts.len() as int, token, id);
}


proof fn lemma_erc721_prefix_distinct(ts: Seq<ERC721TransferView>, n: int)
    requires
        0 <= n,
    ensures
        distinct_keys(erc721_prefix(ts, n), erc721_key()),
    decreases n,
{
    if n > 0 {
        lemma_erc721_prefix_distinct(ts, n - 1);
        let m = erc721_prefix(ts, n - 1);
        let t = ts[n - 1];
        let cur = erc721_stored_or_default(m, t.token, t.id, t.from_address);
        lemma_upsert_first_distinct(
            m,
            erc721_key(),
            Erc721OwnerView { token: cur.token, id: cur.id, to_owner: t.to_address },
        );
    }
}

/// Map law: the ERC721 owner records of a batch hold at most one entry
/// per (token, id).
pub proof fn lemma_erc721_changes_distinct(ts: Seq<ERC721TransferView>)
    ensures
        distinct_keys(erc721_changes(ts), erc721_key()),
{
    lemma_erc721_prefix_distinct(ts, ts.len() as int);
}

} // verus!
