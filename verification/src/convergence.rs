//! What the tables hold depends on the last word about each pool, not on the
//! road: a startup pass over all pools and a run of per-block patches end in
//! the same tables when they leave every pool with the same final quote.

use vstd::prelude::*;
use crate::pools::{lemma_without_contains, with_pool, without, PoolModel, SellQuote};
use crate::primitives::{Address, U256};

verus! {

/// The last quote that `batch` holds for `pool`, if it holds one.
pub open spec fn last_quote(batch: Seq<(Address, SellQuote)>, pool: Address) -> Option<SellQuote>
    decreases batch.len(),
{
    if batch.len() == 0 {
        None
    } else if batch.last().0 == pool {
        Some(batch.last().1)
    } else {
        last_quote(batch.drop_last(), pool)
    }
}

/// Where `pool` stands after `batch`: the asset and price of its last quote,
/// if that quote was available.
pub open spec fn standing(batch: Seq<(Address, SellQuote)>, pool: Address) -> Option<(Address, U256)> {
    match last_quote(batch, pool) {
        Some(quote) => if quote.quote_available {
            Some((quote.nft_address, quote.price))
        } else {
            None
        },
        None => None,
    }
}

/// Whether every pool is quoted as available under one asset only, as
/// holds of a pool on chain, which trades one asset for life.
pub open spec fn one_asset_per_pool(batch: Seq<(Address, SellQuote)>) -> bool {
    forall|i: int, j: int|
        0 <= i < batch.len() && 0 <= j < batch.len() && (#[trigger] batch[i]).0 == (#[trigger] batch[j]).0
            && batch[i].1.quote_available && batch[j].1.quote_available ==> batch[i].1.nft_address
            == batch[j].1.nft_address
}

/// Applying one batch after another is applying both in one.
pub proof fn lemma_apply_quotes_concat(
    m: PoolModel,
    first: Seq<(Address, SellQuote)>,
    second: Seq<(Address, SellQuote)>,
)
    ensures
        m.apply_quotes(first + second) == m.apply_quotes(first).apply_quotes(second),
    decreases second.len(),
{
    if second.len() == 0 {
        assert(first + second =~= first);
    } else {
        lemma_apply_quotes_concat(m, first, second.drop_last());
        assert((first + second).drop_last() =~= first + second.drop_last());
        assert((first + second).last() == second.last());
    }
}

/// The tables after the batches of `batches`, applied one after the other.
pub open spec fn apply_batches(m: PoolModel, batches: Seq<Seq<(Address, SellQuote)>>) -> PoolModel
    decreases batches.len(),
{
    if batches.len() == 0 {
        m
    } else {
        apply_batches(m, batches.drop_last()).apply_quotes(batches.last())
    }
}

/// Applying quotes batch by batch is applying them all in one run, however
/// the run was cut into batches.
pub proof fn lemma_apply_batches(m: PoolModel, batches: Seq<Seq<(Address, SellQuote)>>)
    ensures
        apply_batches(m, batches) == m.apply_quotes(batches.flatten()),
    decreases batches.len(),
{
    if batches.len() == 0 {
        assert(batches.flatten() =~= Seq::empty());
    } else {
        lemma_apply_batches(m, batches.drop_last());
        lemma_apply_quotes_concat(m, batches.drop_last().flatten(), batches.last());
        batches.drop_last().lemma_flatten_push(batches.last());
        assert(batches.drop_last().push(batches.last()) =~= batches);
    }
}

/// The last quote of a pool is one of the batch's quotes for it.
proof fn lemma_last_quote_is_held(batch: Seq<(Address, SellQuote)>, pool: Address)
    requires
        last_quote(batch, pool) is Some,
    ensures
        exists|i: int| 0 <= i < batch.len() && #[trigger] batch[i] == (pool, last_quote(batch, pool)->0),
    decreases batch.len(),
{
    if batch.last().0 == pool {
        assert(batch[batch.len() - 1] == (pool, last_quote(batch, pool)->0));
    } else {
        lemma_last_quote_is_held(batch.drop_last(), pool);
        let i = choose|i: int|
            0 <= i < batch.drop_last().len() && #[trigger] batch.drop_last()[i] == (
                pool,
                last_quote(batch.drop_last(), pool)->0,
            );
        assert(batch[i] == batch.drop_last()[i]);
    }
}

/// Starting from empty tables, the bid table holds exactly the pools whose
/// last quote was available, each at that quote's price.
pub proof fn lemma_bids_follow_last_quote(batch: Seq<(Address, SellQuote)>, pool: Address)
    ensures
        PoolModel::empty().apply_quotes(batch).bids.dom().contains(pool) <==> standing(batch, pool) is Some,
        standing(batch, pool) matches Some((_, price)) ==> PoolModel::empty().apply_quotes(batch).bids[pool]
            == price,
    decreases batch.len(),
{
    if batch.len() > 0 {
        lemma_bids_follow_last_quote(batch.drop_last(), pool);
    }
}

/// Starting from empty tables, and with every pool quoted under one asset
/// only, a pool is registered for an asset exactly when its last quote was
/// available and for that asset.
pub proof fn lemma_registry_follows_last_quote(
    batch: Seq<(Address, SellQuote)>,
    asset: Address,
    pool: Address,
)
    requires
        one_asset_per_pool(batch),
    ensures
        PoolModel::empty().apply_quotes(batch).pools_of(asset).contains(pool) <==> (standing(batch, pool)
            matches Some((a, _)) && a == asset),
    decreases batch.len(),
{
    if batch.len() > 0 {
        let front = batch.drop_last();
        let before = PoolModel::empty().apply_quotes(front);
        let after = PoolModel::empty().apply_quotes(batch);
        let quoted = batch.last().0;
        let quote = batch.last().1;
        assert(one_asset_per_pool(front)) by {
            assert forall|i: int, j: int|
                0 <= i < front.len() && 0 <= j < front.len() && (#[trigger] front[i]).0 == (
                #[trigger] front[j]).0 && front[i].1.quote_available
                    && front[j].1.quote_available implies front[i].1.nft_address
                == front[j].1.nft_address by {
                assert(front[i] == batch[i]);
                assert(front[j] == batch[j]);
            }
        }
        lemma_registry_follows_last_quote(front, asset, pool);
        if quote.quote_available {
            let list = before.pools_of(quote.nft_address);
            if asset == quote.nft_address {
                assert(after.pools_of(asset) == with_pool(list, quoted));
                if quoted == pool {
                    if !list.contains(pool) {
                        assert(list.push(pool)[list.len() as int] == pool);
                    }
                } else {
                    if list.contains(pool) {
                        let k = choose|k: int| 0 <= k < list.len() && list[k] == pool;
                        assert(with_pool(list, quoted)[k] == pool);
                    }
                    if with_pool(list, quoted).contains(pool) {
                        let k = choose|k: int|
                            0 <= k < with_pool(list, quoted).len() && with_pool(list, quoted)[k] == pool;
                        assert(list[k] == pool);
                    }
                }
            } else {
                assert(after.pools_of(asset) == before.pools_of(asset));
                if quoted == pool && before.pools_of(asset).contains(pool) {
                    lemma_last_quote_is_held(front, pool);
                    let i = choose|i: int|
                        0 <= i < front.len() && #[trigger] front[i] == (pool, last_quote(front, pool)->0);
                    assert(batch[i] == front[i]);
                    assert(batch[batch.len() - 1].0 == batch[i].0);
                    assert(false);
                }
            }
        } else {
            if before.registry.dom().contains(asset) {
                assert(after.pools_of(asset) == without(before.registry[asset], quoted));
                lemma_without_contains(before.registry[asset], quoted, pool);
            } else {
                assert(!after.registry.dom().contains(asset));
            }
        }
    } else {
        assert(!PoolModel::empty().registry.dom().contains(asset));
    }
}

/// Two runs of quotes that leave every pool standing the same way end in the
/// same bid table.
pub proof fn lemma_bids_converge(one: Seq<(Address, SellQuote)>, other: Seq<(Address, SellQuote)>)
    requires
        forall|pool: Address| standing(one, pool) == standing(other, pool),
    ensures
        PoolModel::empty().apply_quotes(one).bids == PoolModel::empty().apply_quotes(other).bids,
{
    let a = PoolModel::empty().apply_quotes(one);
    let b = PoolModel::empty().apply_quotes(other);
    assert forall|pool: Address| a.bids.dom().contains(pool) == b.bids.dom().contains(pool) by {
        lemma_bids_follow_last_quote(one, pool);
        lemma_bids_follow_last_quote(other, pool);
    }
    assert forall|pool: Address| a.bids.dom().contains(pool) implies a.bids[pool] == b.bids[pool] by {
        lemma_bids_follow_last_quote(one, pool);
        lemma_bids_follow_last_quote(other, pool);
    }
    assert(a.bids =~= b.bids);
}

/// Two runs of quotes that leave every pool standing the same way, each run
/// quoting every pool under one asset only, end with the same pools
/// registered for every asset.
pub proof fn lemma_registry_converges(one: Seq<(Address, SellQuote)>, other: Seq<(Address, SellQuote)>)
    requires
        one_asset_per_pool(one),
        one_asset_per_pool(other),
        forall|pool: Address| standing(one, pool) == standing(other, pool),
    ensures
        forall|asset: Address, pool: Address|
            PoolModel::empty().apply_quotes(one).pools_of(asset).contains(pool)
                <==> PoolModel::empty().apply_quotes(other).pools_of(asset).contains(pool),
{
    let a = PoolModel::empty().apply_quotes(one);
    let b = PoolModel::empty().apply_quotes(other);
    assert forall|asset: Address, pool: Address|
        a.pools_of(asset).contains(pool) <==> b.pools_of(asset).contains(pool) by {
        lemma_registry_follows_last_quote(one, asset, pool);
        lemma_registry_follows_last_quote(other, asset, pool);
    }
}

/// A startup pass and a run of per-block patches, each a list of batches
/// applied to empty tables, end in the same tables when they leave every
/// pool standing the same way and quote every pool under one asset only:
/// the same bid table, and for every asset the same pools registered.
pub proof fn lemma_passes_converge(
    pass: Seq<Seq<(Address, SellQuote)>>,
    patches: Seq<Seq<(Address, SellQuote)>>,
)
    requires
        one_asset_per_pool(pass.flatten()),
        one_asset_per_pool(patches.flatten()),
        forall|pool: Address| standing(pass.flatten(), pool) == standing(patches.flatten(), pool),
    ensures
        apply_batches(PoolModel::empty(), pass).bids == apply_batches(PoolModel::empty(), patches).bids,
        forall|asset: Address, pool: Address|
            apply_batches(PoolModel::empty(), pass).pools_of(asset).contains(pool) <==> apply_batches(
                PoolModel::empty(),
                patches,
            ).pools_of(asset).contains(pool),
{
    lemma_apply_batches(PoolModel::empty(), pass);
    lemma_apply_batches(PoolModel::empty(), patches);
    lemma_bids_converge(pass.flatten(), patches.flatten());
    lemma_registry_converges(pass.flatten(), patches.flatten());
}

} // verus!
