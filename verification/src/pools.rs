//! The strategy's mirror of on-chain price state as mathematics: the pool
//! registry and the bid table as maps, what a quote does to them, and what
//! holds of them after every quote.

use vstd::prelude::*;
use crate::primitives::{Address, U256};

verus! {

/// What the quoter says of one pool at one block.
#[derive(Clone, Copy, Debug, PartialEq, Eq)]
pub struct SellQuote {
    /// Whether the pool will buy at all right now.
    pub quote_available: bool,
    /// The asset that the pool trades.
    pub nft_address: Address,
    /// What the pool pays for one item, in the chain's native unit.
    pub price: U256,
}

/// The two tables as mathematical maps.
pub struct PoolModel {
    /// For each traded asset, the pools that buy it, in order of arrival.
    pub registry: Map<Address, Seq<Address>>,
    /// For each pool with a usable quote, its current bid.
    pub bids: Map<Address, U256>,
}

/// The test that keeps every address but `pool`.
pub open spec fn is_not(pool: Address) -> spec_fn(Address) -> bool {
    |p: Address| p != pool
}

/// `pools` without every occurrence of `pool`.
pub open spec fn without(pools: Seq<Address>, pool: Address) -> Seq<Address> {
    pools.filter(is_not(pool))
}

/// `pools` with `pool` at the end, unless it is there already.
pub open spec fn with_pool(pools: Seq<Address>, pool: Address) -> Seq<Address> {
    if pools.contains(pool) {
        pools
    } else {
        pools.push(pool)
    }
}

impl PoolModel {
    /// Both tables empty.
    pub open spec fn empty() -> PoolModel {
        PoolModel { registry: Map::empty(), bids: Map::empty() }
    }

    /// The pools registered for `asset`; none where the asset is unknown.
    pub open spec fn pools_of(self, asset: Address) -> Seq<Address> {
        if self.registry.dom().contains(asset) {
            self.registry[asset]
        } else {
            Seq::empty()
        }
    }

    /// The pairing invariant: every pool that the registry holds has an entry
    /// in the bid table.
    pub open spec fn paired(self) -> bool {
        forall|asset: Address, i: int|
            self.registry.dom().contains(asset) && 0 <= i < self.registry[asset].len()
                ==> self.bids.dom().contains(#[trigger] self.registry[asset][i])
    }

    /// No pool stands twice under one asset.
    pub open spec fn distinct(self) -> bool {
        forall|asset: Address|
            self.registry.dom().contains(asset) ==> (#[trigger] self.registry[asset]).no_duplicates()
    }

    /// The best standing offer for `asset`: the registered pool with the
    /// highest bid and that bid; see `best_among`.
    pub open spec fn best_bid(self, asset: Address) -> Option<(Address, U256)> {
        best_among(self.pools_of(asset), self.bids)
    }

    /// What the tables must satisfy between updates.
    pub open spec fn wf(self) -> bool {
        self.paired() && self.distinct()
    }

    /// The tables after one quote for `pool`. An available quote sets the
    /// pool's bid and registers the pool under the quoted asset; an
    /// unavailable one removes the pool from the bid table and from every
    /// asset's list.
    pub open spec fn apply_quote(self, pool: Address, quote: SellQuote) -> PoolModel {
        if quote.quote_available {
            PoolModel {
                registry: self.registry.insert(
                    quote.nft_address,
                    with_pool(self.pools_of(quote.nft_address), pool),
                ),
                bids: self.bids.insert(pool, quote.price),
            }
        } else {
            PoolModel {
                registry: self.registry.map_values(|pools: Seq<Address>| without(pools, pool)),
                bids: self.bids.remove(pool),
            }
        }
    }

    /// The tables after the quotes of `batch`, applied first to last.
    pub open spec fn apply_quotes(self, batch: Seq<(Address, SellQuote)>) -> PoolModel
        decreases batch.len(),
    {
        if batch.len() == 0 {
            self
        } else {
            self.apply_quotes(batch.drop_last()).apply_quote(batch.last().0, batch.last().1)
        }
    }
}

/// Whether `bid` is at least what `standing` offers, if it offers anything.
pub open spec fn not_above(standing: Option<(Address, U256)>, bid: U256) -> bool {
    match standing {
        None => true,
        Some((_, b)) => b.value() <= bid.value(),
    }
}

/// The pool of `pools` with the highest bid, and that bid. Pools without a
/// bid do not count. Among pools with the same highest bid the one that
/// stands last in `pools` is taken.
pub open spec fn best_among(pools: Seq<Address>, bids: Map<Address, U256>) -> Option<(Address, U256)>
    decreases pools.len(),
{
    if pools.len() == 0 {
        None
    } else {
        let before = best_among(pools.drop_last(), bids);
        let pool = pools.last();
        if bids.dom().contains(pool) && not_above(before, bids[pool]) {
            Some((pool, bids[pool]))
        } else {
            before
        }
    }
}

/// What `best_among` picks: nothing where no pool has a bid; else a pool of
/// the list with its own bid, which no bid of the list exceeds and which
/// every later pool of the list stays under.
pub proof fn lemma_best_among(pools: Seq<Address>, bids: Map<Address, U256>)
    ensures
        match best_among(pools, bids) {
            None => forall|i: int| 0 <= i < pools.len() ==> !bids.dom().contains(#[trigger] pools[i]),
            Some((pool, bid)) => {
                &&& bids.dom().contains(pool)
                &&& bids[pool] == bid
                &&& forall|i: int|
                    0 <= i < pools.len() && bids.dom().contains(#[trigger] pools[i]) ==> bids[pools[i]].value()
                        <= bid.value()
                &&& exists|k: int|
                    0 <= k < pools.len() && #[trigger] pools[k] == pool && forall|i: int|
                        k < i < pools.len() && bids.dom().contains(#[trigger] pools[i])
                            ==> bids[pools[i]].value() < bid.value()
            },
        },
    decreases pools.len(),
{
    if pools.len() > 0 {
        let front = pools.drop_last();
        lemma_best_among(front, bids);
        let last = pools.last();
        let before = best_among(front, bids);
        assert forall|i: int| 0 <= i < front.len() implies front[i] == pools[i] by {}
        if bids.dom().contains(last) && not_above(before, bids[last]) {
            assert(pools[pools.len() - 1] == last);
        } else {
            match before {
                None => {},
                Some((pool, bid)) => {
                    let k = choose|k: int|
                        0 <= k < front.len() && #[trigger] front[k] == pool && forall|i: int|
                            k < i < front.len() && bids.dom().contains(#[trigger] front[i])
                                ==> bids[front[i]].value() < bid.value();
                    assert(pools[k] == pool);
                    assert forall|i: int|
                        k < i < pools.len() && bids.dom().contains(
                            #[trigger] pools[i],
                        ) implies bids[pools[i]].value() < bid.value() by {
                        if i < front.len() {
                            assert(front[i] == pools[i]);
                        }
                    }
                },
            }
        }
    }
}

/// Removing a pool from a list leaves the other pools, and only them.
pub proof fn lemma_without_contains(pools: Seq<Address>, pool: Address, other: Address)
    ensures
        without(pools, pool).contains(other) <==> (pools.contains(other) && other != pool),
{
    let pred = is_not(pool);
    if without(pools, pool).contains(other) {
        let i = choose|i: int| 0 <= i < without(pools, pool).len() && without(pools, pool)[i] == other;
        pools.lemma_filter_pred(pred, i);
        pools.lemma_filter_contains_rev(pred, other);
    }
    if pools.contains(other) && other != pool {
        let i = choose|i: int| 0 <= i < pools.len() && pools[i] == other;
        pools.lemma_filter_contains(pred, i);
    }
}

/// Removing a pool from a list without repeats leaves a list without repeats.
pub proof fn lemma_without_no_duplicates(pools: Seq<Address>, pool: Address)
    requires
        pools.no_duplicates(),
    ensures
        without(pools, pool).no_duplicates(),
    decreases pools.len(),
{
    let pred = is_not(pool);
    reveal(Seq::filter);
    if pools.len() > 0 {
        let front = pools.drop_last();
        lemma_without_no_duplicates(front, pool);
        if pred(pools.last()) {
            lemma_without_contains(front, pool, pools.last());
            if front.contains(pools.last()) {
                let i = choose|i: int| 0 <= i < front.len() && front[i] == pools.last();
                assert(pools[i] == pools[pools.len() - 1]);
            }
            let rest = front.filter(pred);
            assert(!rest.contains(pools.last()));
            assert(pools.filter(pred) == rest.push(pools.last()));
            assert forall|i: int, j: int|
                0 <= i < rest.len() + 1 && 0 <= j < rest.len() + 1 && i != j implies rest.push(
                pools.last(),
            )[i] != rest.push(pools.last())[j] by {
                if i < rest.len() && j < rest.len() {
                } else if i < rest.len() {
                    assert(rest.contains(rest[i]));
                } else {
                    assert(rest.contains(rest[j]));
                }
            }
        }
    }
}

/// One quote keeps the tables well formed.
pub proof fn lemma_apply_quote_wf(m: PoolModel, pool: Address, quote: SellQuote)
    requires
        m.wf(),
    ensures
        m.apply_quote(pool, quote).wf(),
{
    let n = m.apply_quote(pool, quote);
    if quote.quote_available {
        let asset0 = quote.nft_address;
        let list = with_pool(m.pools_of(asset0), pool);
        assert forall|asset: Address, i: int|
            n.registry.dom().contains(asset) && 0 <= i < n.registry[asset].len() implies n.bids.dom().contains(
            #[trigger] n.registry[asset][i],
        ) by {
            if asset == asset0 {
                if i < m.pools_of(asset0).len() {
                    assert(m.registry.dom().contains(asset0));
                    assert(list[i] == m.registry[asset0][i]);
                }
            } else {
                assert(n.registry[asset] == m.registry[asset]);
            }
        }
        assert forall|asset: Address| n.registry.dom().contains(asset) implies (
        #[trigger] n.registry[asset]).no_duplicates() by {
            if asset == asset0 {
                let old_list = m.pools_of(asset0);
                assert(old_list.no_duplicates());
                if !old_list.contains(pool) {
                    assert forall|i: int, j: int|
                        0 <= i < list.len() && 0 <= j < list.len() && i != j implies list[i] != list[j] by {
                        if i < old_list.len() && j < old_list.len() {
                        } else if i < old_list.len() {
                            assert(old_list.contains(old_list[i]));
                        } else {
                            assert(old_list.contains(old_list[j]));
                        }
                    }
                }
            } else {
                assert(n.registry[asset] == m.registry[asset]);
            }
        }
    } else {
        assert forall|asset: Address, i: int|
            n.registry.dom().contains(asset) && 0 <= i < n.registry[asset].len() implies n.bids.dom().contains(
            #[trigger] n.registry[asset][i],
        ) by {
            let list = m.registry[asset];
            let other = n.registry[asset][i];
            assert(n.registry[asset] == without(list, pool));
            assert(without(list, pool).contains(other));
            lemma_without_contains(list, pool, other);
            let k = choose|k: int| 0 <= k < list.len() && list[k] == other;
            assert(m.bids.dom().contains(m.registry[asset][k]));
        }
        assert forall|asset: Address| n.registry.dom().contains(asset) implies (
        #[trigger] n.registry[asset]).no_duplicates() by {
            assert(m.registry.dom().contains(asset));
            assert(m.registry[asset].no_duplicates());
            lemma_without_no_duplicates(m.registry[asset], pool);
        }
    }
}

/// A batch of quotes keeps the tables well formed.
pub proof fn lemma_apply_quotes_wf(m: PoolModel, batch: Seq<(Address, SellQuote)>)
    requires
        m.wf(),
    ensures
        m.apply_quotes(batch).wf(),
    decreases batch.len(),
{
    if batch.len() > 0 {
        lemma_apply_quotes_wf(m, batch.drop_last());
        lemma_apply_quote_wf(m.apply_quotes(batch.drop_last()), batch.last().0, batch.last().1);
    }
}

} // verus!
