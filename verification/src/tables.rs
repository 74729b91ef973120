//! The pool registry and the bid table in memory: rows in vectors, no key
//! twice, patched in step with the model of `pools`.

use vstd::prelude::*;
use crate::pools::{
    best_among, is_not, lemma_apply_quote_wf, with_pool, without, PoolModel, SellQuote,
};
use crate::primitives::{Address, U256};

verus! {

/// One row of the bid table.
struct BidEntry {
    pool: Address,
    bid: U256,
}

/// One row of the registry.
struct AssetEntry {
    asset: Address,
    pools: Vec<Address>,
}

/// No pool has two rows.
spec fn bid_keys_distinct(rows: Seq<BidEntry>) -> bool {
    forall|i: int, j: int| 0 <= i < j < rows.len() ==> rows[i].pool != rows[j].pool
}

/// Whether some row is for `pool`.
spec fn has_bid(rows: Seq<BidEntry>, pool: Address) -> bool {
    exists|i: int| 0 <= i < rows.len() && (#[trigger] rows[i]).pool == pool
}

/// The rows as a map from pool to bid.
spec fn bids_view(rows: Seq<BidEntry>) -> Map<Address, U256> {
    Map::new(
        |pool: Address| has_bid(rows, pool),
        |pool: Address| rows[choose|i: int| 0 <= i < rows.len() && (#[trigger] rows[i]).pool == pool].bid,
    )
}

/// With distinct keys, the row for a pool is where the map's value comes from.
proof fn lemma_bid_row(rows: Seq<BidEntry>, i: int)
    requires
        bid_keys_distinct(rows),
        0 <= i < rows.len(),
    ensures
        bids_view(rows).dom().contains(rows[i].pool),
        bids_view(rows)[rows[i].pool] == rows[i].bid,
{
    let pool = rows[i].pool;
    let j = choose|j: int| 0 <= j < rows.len() && (#[trigger] rows[j]).pool == pool;
    assert(j == i);
}

/// The row of `pool`, if it has one.
fn find_bid(rows: &Vec<BidEntry>, pool: &Address) -> (r: Option<usize>)
    ensures
        match r {
            Some(i) => i < rows.len() && rows[i as int].pool == *pool,
            None => !has_bid(rows@, *pool),
        },
{
    let mut i: usize = 0;
    while i < rows.len()
        invariant
            i <= rows.len(),
            forall|k: int| 0 <= k < i ==> rows[k].pool != *pool,
        decreases rows.len() - i,
    {
        if rows[i].pool == *pool {
            return Some(i);
        }
        i += 1;
    }
    None
}

/// Sets the bid of `pool`, in its row or in a new one.
fn set_bid(rows: &mut Vec<BidEntry>, pool: Address, bid: U256)
    requires
        bid_keys_distinct(old(rows)@),
    ensures
        bid_keys_distinct(final(rows)@),
        bids_view(final(rows)@) == bids_view(old(rows)@).insert(pool, bid),
{
    let found = find_bid(rows, &pool);
    match found {
        Some(i) => {
            rows[i].bid = bid;
        },
        None => {
            rows.push(BidEntry { pool, bid });
        },
    }
    proof {
        let before = old(rows)@;
        let after = rows@;
        assert(bid_keys_distinct(after));
        assert forall|k: Address| #[trigger]
            bids_view(after).dom().contains(k) == bids_view(before).insert(pool, bid).dom().contains(
                k,
            ) by {
            if has_bid(after, k) {
                let j = choose|j: int| 0 <= j < after.len() && (#[trigger] after[j]).pool == k;
                if k != pool {
                    assert(before[j].pool == k);
                }
            }
            if has_bid(before, k) {
                let j = choose|j: int| 0 <= j < before.len() && (#[trigger] before[j]).pool == k;
                assert(after[j].pool == k);
            }
            if k == pool {
                match found {
                    Some(i) => {
                        assert(after[i as int].pool == k);
                    },
                    None => {
                        assert(after[after.len() - 1].pool == k);
                    },
                }
            }
        }
        assert forall|k: Address| bids_view(after).dom().contains(k) implies #[trigger] bids_view(
            after,
        )[k] == bids_view(before).insert(pool, bid)[k] by {
            let j = choose|j: int| 0 <= j < after.len() && (#[trigger] after[j]).pool == k;
            lemma_bid_row(after, j);
            if k != pool {
                assert(before[j].pool == k);
                lemma_bid_row(before, j);
            } else {
                match found {
                    Some(i) => {
                        assert(after[i as int].pool == k);
                        assert(j == i);
                    },
                    None => {
                        assert(after[after.len() - 1].pool == k);
                        assert(j == after.len() - 1);
                    },
                }
            }
        }
        assert(bids_view(after) =~= bids_view(before).insert(pool, bid));
    }
}

/// Removes the row of `pool`, if it has one.
fn remove_bid(rows: &mut Vec<BidEntry>, pool: &Address)
    requires
        bid_keys_distinct(old(rows)@),
    ensures
        bid_keys_distinct(final(rows)@),
        bids_view(final(rows)@) == bids_view(old(rows)@).remove(*pool),
{
    let found = find_bid(rows, pool);
    if let Some(i) = found {
        rows.remove(i);
    }
    proof {
        let before = old(rows)@;
        let after = rows@;
        assert(bid_keys_distinct(after));
        assert forall|k: Address| #[trigger]
            bids_view(after).dom().contains(k) == bids_view(before).remove(*pool).dom().contains(
                k,
            ) by {
            if has_bid(after, k) {
                let j = choose|j: int| 0 <= j < after.len() && (#[trigger] after[j]).pool == k;
                match found {
                    Some(i) => {
                        if j < i {
                            assert(before[j].pool == k);
                        } else {
                            assert(before[j + 1].pool == k);
                        }
                    },
                    None => {},
                }
            }
            if has_bid(before, k) && k != *pool {
                let j = choose|j: int| 0 <= j < before.len() && (#[trigger] before[j]).pool == k;
                match found {
                    Some(i) => {
                        if j < i {
                            assert(after[j].pool == k);
                        } else {
                            assert(after[j - 1].pool == k);
                        }
                    },
                    None => {},
                }
            }
        }
        assert forall|k: Address| bids_view(after).dom().contains(k) implies #[trigger] bids_view(
            after,
        )[k] == bids_view(before).remove(*pool)[k] by {
            let j = choose|j: int| 0 <= j < after.len() && (#[trigger] after[j]).pool == k;
            lemma_bid_row(after, j);
            match found {
                Some(i) => {
                    if j < i {
                        lemma_bid_row(before, j);
                    } else {
                        lemma_bid_row(before, j + 1);
                    }
                },
                None => {
                    lemma_bid_row(before, j);
                },
            }
        }
        assert(bids_view(after) =~= bids_view(before).remove(*pool));
    }
}

/// No asset has two rows.
spec fn asset_keys_distinct(rows: Seq<AssetEntry>) -> bool {
    forall|i: int, j: int| 0 <= i < j < rows.len() ==> rows[i].asset != rows[j].asset
}

/// Whether some row is for `asset`.
spec fn has_asset(rows: Seq<AssetEntry>, asset: Address) -> bool {
    exists|i: int| 0 <= i < rows.len() && (#[trigger] rows[i]).asset == asset
}

/// The rows as a map from asset to the pools that buy it.
spec fn registry_view(rows: Seq<AssetEntry>) -> Map<Address, Seq<Address>> {
    Map::new(
        |asset: Address| has_asset(rows, asset),
        |asset: Address|
            rows[choose|i: int| 0 <= i < rows.len() && (#[trigger] rows[i]).asset == asset].pools@,
    )
}

/// With distinct keys, the row for an asset is where the map's value comes from.
proof fn lemma_asset_row(rows: Seq<AssetEntry>, i: int)
    requires
        asset_keys_distinct(rows),
        0 <= i < rows.len(),
    ensures
        registry_view(rows).dom().contains(rows[i].asset),
        registry_view(rows)[rows[i].asset] == rows[i].pools@,
{
    let asset = rows[i].asset;
    let j = choose|j: int| 0 <= j < rows.len() && (#[trigger] rows[j]).asset == asset;
    assert(j == i);
}

/// The row of `asset`, if it has one.
fn find_asset(rows: &Vec<AssetEntry>, asset: &Address) -> (r: Option<usize>)
    ensures
        match r {
            Some(i) => i < rows.len() && rows[i as int].asset == *asset,
            None => !has_asset(rows@, *asset),
        },
{
    let mut i: usize = 0;
    while i < rows.len()
        invariant
            i <= rows.len(),
            forall|k: int| 0 <= k < i ==> rows[k].asset != *asset,
        decreases rows.len() - i,
    {
        if rows[i].asset == *asset {
            return Some(i);
        }
        i += 1;
    }
    None
}

/// Whether `pool` stands in `pools`.
fn contains_pool(pools: &Vec<Address>, pool: &Address) -> (r: bool)
    ensures
        r == pools@.contains(*pool),
{
    let mut i: usize = 0;
    while i < pools.len()
        invariant
            i <= pools.len(),
            forall|k: int| 0 <= k < i ==> pools[k] != *pool,
        decreases pools.len() - i,
    {
        if pools[i] == *pool {
            return true;
        }
        i += 1;
    }
    false
}

/// Registers `pool` under `asset`, unless it stands there already.
fn register_pool(rows: &mut Vec<AssetEntry>, asset: Address, pool: Address)
    requires
        asset_keys_distinct(old(rows)@),
    ensures
        asset_keys_distinct(final(rows)@),
        registry_view(final(rows)@) == registry_view(old(rows)@).insert(
            asset,
            with_pool(
                if registry_view(old(rows)@).dom().contains(asset) {
                    registry_view(old(rows)@)[asset]
                } else {
                    Seq::empty()
                },
                pool,
            ),
        ),
{
    let found = find_asset(rows, &asset);
    match found {
        Some(i) => {
            proof {
                lemma_asset_row(rows@, i as int);
            }
            if !contains_pool(&rows[i].pools, &pool) {
                rows[i].pools.push(pool);
            }
        },
        None => {
            let mut pools: Vec<Address> = Vec::new();
            pools.push(pool);
            assert(pools@ =~= with_pool(Seq::empty(), pool));
            rows.push(AssetEntry { asset, pools });
        },
    }
    proof {
        let before = old(rows)@;
        let after = rows@;
        let target = registry_view(before).insert(
            asset,
            with_pool(
                if registry_view(before).dom().contains(asset) {
                    registry_view(before)[asset]
                } else {
                    Seq::empty()
                },
                pool,
            ),
        );
        assert(asset_keys_distinct(after));
        assert forall|k: Address| #[trigger]
            registry_view(after).dom().contains(k) == target.dom().contains(k) by {
            if has_asset(after, k) {
                let j = choose|j: int| 0 <= j < after.len() && (#[trigger] after[j]).asset == k;
                if k != asset {
                    assert(before[j].asset == k);
                }
            }
            if has_asset(before, k) {
                let j = choose|j: int| 0 <= j < before.len() && (#[trigger] before[j]).asset == k;
                assert(after[j].asset == k);
            }
            if k == asset {
                match found {
                    Some(i) => {
                        assert(after[i as int].asset == k);
                    },
                    None => {
                        assert(after[after.len() - 1].asset == k);
                    },
                }
            }
        }
        assert forall|k: Address| registry_view(after).dom().contains(k) implies #[trigger] registry_view(
            after,
        )[k] == target[k] by {
            let j = choose|j: int| 0 <= j < after.len() && (#[trigger] after[j]).asset == k;
            lemma_asset_row(after, j);
            if k != asset {
                assert(before[j].asset == k);
                lemma_asset_row(before, j);
            } else {
                match found {
                    Some(i) => {
                        assert(after[i as int].asset == k);
                        assert(j == i);
                        lemma_asset_row(before, j);
                    },
                    None => {
                        assert(after[after.len() - 1].asset == k);
                        assert(j == after.len() - 1);
                    },
                }
            }
        }
        assert(registry_view(after) =~= target);
    }
}

/// A copy of `pools` without `pool`.
fn retain_others(pools: &Vec<Address>, pool: &Address) -> (kept: Vec<Address>)
    ensures
        kept@ == without(pools@, *pool),
{
    let mut kept: Vec<Address> = Vec::new();
    let mut i: usize = 0;
    assert(pools@.take(0) =~= Seq::<Address>::empty());
    assert(without(Seq::<Address>::empty(), *pool) =~= Seq::<Address>::empty()) by {
        reveal(Seq::filter);
    }
    while i < pools.len()
        invariant
            i <= pools.len(),
            kept@ == without(pools@.take(i as int), *pool),
        decreases pools.len() - i,
    {
        proof {
            pools@.take(i as int).lemma_filter_push(pools@[i as int], is_not(*pool));
            assert(pools@.take(i as int).push(pools@[i as int]) =~= pools@.take(i + 1));
        }
        if pools[i] != *pool {
            kept.push(pools[i]);
        }
        i += 1;
    }
    assert(pools@.take(pools.len() as int) =~= pools@);
    kept
}

/// Removes `pool` from the list of every asset.
fn unregister_pool(rows: &mut Vec<AssetEntry>, pool: &Address)
    requires
        asset_keys_distinct(old(rows)@),
    ensures
        asset_keys_distinct(final(rows)@),
        registry_view(final(rows)@) == registry_view(old(rows)@).map_values(
            |pools: Seq<Address>| without(pools, *pool),
        ),
{
    let mut i: usize = 0;
    while i < rows.len()
        invariant
            i <= rows.len(),
            rows.len() == old(rows).len(),
            forall|k: int| 0 <= k < rows.len() ==> (#[trigger] rows[k]).asset == old(rows)[k].asset,
            forall|k: int| 0 <= k < i ==> (#[trigger] rows[k]).pools@ == without(old(rows)[k].pools@, *pool),
            forall|k: int| i <= k < rows.len() ==> (#[trigger] rows[k]).pools@ == old(rows)[k].pools@,
        decreases rows.len() - i,
    {
        let kept = retain_others(&rows[i].pools, pool);
        rows[i].pools = kept;
        i += 1;
    }
    proof {
        let before = old(rows)@;
        let after = rows@;
        let target = registry_view(before).map_values(|pools: Seq<Address>| without(pools, *pool));
        assert forall|k: Address| #[trigger]
            registry_view(after).dom().contains(k) == target.dom().contains(k) by {
            if has_asset(after, k) {
                let j = choose|j: int| 0 <= j < after.len() && (#[trigger] after[j]).asset == k;
                assert(before[j].asset == k);
            }
            if has_asset(before, k) {
                let j = choose|j: int| 0 <= j < before.len() && (#[trigger] before[j]).asset == k;
                assert(after[j].asset == k);
            }
        }
        assert forall|k: Address| registry_view(after).dom().contains(k) implies #[trigger] registry_view(
            after,
        )[k] == target[k] by {
            let j = choose|j: int| 0 <= j < after.len() && (#[trigger] after[j]).asset == k;
            lemma_asset_row(after, j);
            assert(before[j].asset == k);
            lemma_asset_row(before, j);
        }
        assert(registry_view(after) =~= target);
    }
}

/// The pool registry and the bid table of one strategy.
pub struct PoolTables {
    sudo_pools: Vec<AssetEntry>,
    pool_bids: Vec<BidEntry>,
}

impl View for PoolTables {
    type V = PoolModel;

    closed spec fn view(&self) -> PoolModel {
        PoolModel { registry: registry_view(self.sudo_pools@), bids: bids_view(self.pool_bids@) }
    }
}

impl PoolTables {
    #[verifier::type_invariant]
    spec fn inv(self) -> bool {
        &&& asset_keys_distinct(self.sudo_pools@)
        &&& bid_keys_distinct(self.pool_bids@)
        &&& self@.wf()
    }

    /// Both tables empty.
    pub fn new() -> (tables: PoolTables)
        ensures
            tables@ == PoolModel::empty(),
    {
        let tables = PoolTables { sudo_pools: Vec::new(), pool_bids: Vec::new() };
        assert(tables@.registry =~= Map::empty());
        assert(tables@.bids =~= Map::empty());
        tables
    }

    /// Patches both tables with one quote for `pool`.
    pub fn apply_quote(&mut self, pool: Address, quote: SellQuote)
        ensures
            final(self)@ == old(self)@.apply_quote(pool, quote),
            final(self)@.wf(),
    {
        proof {
            use_type_invariant(&*self);
            lemma_apply_quote_wf(self@, pool, quote);
        }
        let mut sudo_pools: Vec<AssetEntry> = Vec::new();
        let mut pool_bids: Vec<BidEntry> = Vec::new();
        std::mem::swap(&mut sudo_pools, &mut self.sudo_pools);
        std::mem::swap(&mut pool_bids, &mut self.pool_bids);
        if quote.quote_available {
            set_bid(&mut pool_bids, pool, quote.price);
            register_pool(&mut sudo_pools, quote.nft_address, pool);
        } else {
            unregister_pool(&mut sudo_pools, &pool);
            remove_bid(&mut pool_bids, &pool);
        }
        self.pool_bids = pool_bids;
        self.sudo_pools = sudo_pools;
    }

    /// Patches both tables with the quotes of `batch`, first to last.
    pub fn apply_quotes(&mut self, batch: &Vec<(Address, SellQuote)>)
        ensures
            final(self)@ == old(self)@.apply_quotes(batch@),
            final(self)@.wf(),
    {
        proof {
            use_type_invariant(&*self);
        }
        let mut i: usize = 0;
        assert(batch@.take(0) =~= Seq::empty());
        while i < batch.len()
            invariant
                i <= batch.len(),
                self@ == old(self)@.apply_quotes(batch@.take(i as int)),
                self@.wf(),
            decreases batch.len() - i,
        {
            assert(batch@.take(i + 1).drop_last() =~= batch@.take(i as int));
            self.apply_quote(batch[i].0, batch[i].1);
            i += 1;
        }
        assert(batch@.take(batch.len() as int) =~= batch@);
    }

    /// The current bid of `pool`, if it has one.
    pub fn bid(&self, pool: &Address) -> (r: Option<U256>)
        ensures
            r == if self@.bids.dom().contains(*pool) {
                Some(self@.bids[*pool])
            } else {
                None::<U256>
            },
    {
        proof {
            use_type_invariant(self);
        }
        match find_bid(&self.pool_bids, pool) {
            Some(i) => {
                proof {
                    lemma_bid_row(self.pool_bids@, i as int);
                }
                Some(self.pool_bids[i].bid)
            },
            None => None,
        }
    }

    /// The pools registered for `asset`, in order of arrival.
    pub fn pools(&self, asset: &Address) -> (r: Vec<Address>)
        ensures
            r@ == self@.pools_of(*asset),
    {
        proof {
            use_type_invariant(self);
        }
        let mut r: Vec<Address> = Vec::new();
        if let Some(i) = find_asset(&self.sudo_pools, asset) {
            proof {
                lemma_asset_row(self.sudo_pools@, i as int);
            }
            let list = &self.sudo_pools[i].pools;
            let mut k: usize = 0;
            while k < list.len()
                invariant
                    k <= list.len(),
                    r@ == list@.take(k as int),
                decreases list.len() - k,
            {
                r.push(list[k]);
                assert(list@.take(k as int).push(list@[k as int]) =~= list@.take(k + 1));
                k += 1;
            }
            assert(list@.take(list.len() as int) =~= list@);
        }
        r
    }

    /// Every pool that has a bid, once each.
    pub fn quoted_pools(&self) -> (r: Vec<Address>)
        ensures
            r@.no_duplicates(),
            forall|pool: Address| r@.contains(pool) <==> self@.bids.dom().contains(pool),
    {
        proof {
            use_type_invariant(self);
        }
        let mut r: Vec<Address> = Vec::new();
        let mut k: usize = 0;
        while k < self.pool_bids.len()
            invariant
                k <= self.pool_bids.len(),
                r.len() == k,
                forall|j: int| 0 <= j < k ==> r[j] == self.pool_bids[j].pool,
            decreases self.pool_bids.len() - k,
        {
            r.push(self.pool_bids[k].pool);
            k += 1;
        }
        proof {
            let rows = self.pool_bids@;
            assert forall|pool: Address| r@.contains(pool) <==> self@.bids.dom().contains(pool) by {
                if r@.contains(pool) {
                    let j = choose|j: int| 0 <= j < r@.len() && r@[j] == pool;
                    assert(rows[j].pool == pool);
                }
                if has_bid(rows, pool) {
                    let j = choose|j: int| 0 <= j < rows.len() && (#[trigger] rows[j]).pool == pool;
                    assert(r@[j] == pool);
                }
            }
        }
        r
    }

    /// The best standing offer for `asset`, if any registered pool has a bid.
    pub fn best_bid(&self, asset: &Address) -> (r: Option<(Address, U256)>)
        ensures
            r == self@.best_bid(*asset),
    {
        proof {
            use_type_invariant(self);
        }
        let mut best: Option<(Address, U256)> = None;
        if let Some(i) = find_asset(&self.sudo_pools, asset) {
            proof {
                lemma_asset_row(self.sudo_pools@, i as int);
            }
            let list = &self.sudo_pools[i].pools;
            let mut k: usize = 0;
            assert(list@.take(0) =~= Seq::empty());
            while k < list.len()
                invariant
                    k <= list.len(),
                    bid_keys_distinct(self.pool_bids@),
                    best == best_among(list@.take(k as int), bids_view(self.pool_bids@)),
                decreases list.len() - k,
            {
                assert(list@.take(k + 1).drop_last() =~= list@.take(k as int));
                let pool = list[k];
                if let Some(j) = find_bid(&self.pool_bids, &pool) {
                    proof {
                        lemma_bid_row(self.pool_bids@, j as int);
                    }
                    let bid = self.pool_bids[j].bid;
                    let better = match best {
                        None => true,
                        Some((_, b)) => b.le(&bid),
                    };
                    if better {
                        best = Some((pool, bid));
                    }
                }
                k += 1;
            }
            assert(list@.take(list.len() as int) =~= list@);
        }
        best
    }
}

} // verus!
