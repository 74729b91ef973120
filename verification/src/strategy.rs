//! The arbitrage strategy: buy an item listed on the marketplace and sell it
//! into the pool that pays most for it, whenever that pays more than the
//! listing asks.
//!
//! The strategy owns the pool tables and decides; it performs no request
//! itself. For each event it says what is to be fetched, and it takes what
//! came back as plain values.

use vstd::prelude::*;
use crate::pools::{lemma_best_among, PoolModel, SellQuote};
use crate::tables::PoolTables;
use crate::primitives::{Address, H256, U256};
use crate::scan::{block_windows, is_window_partition, BlockRange, QUERY_WINDOW};
use crate::state_override_middleware::StateOverrideMiddleware;
use crate::types::{
    fulfill_listing_response_to_basic_order_parameters, hash_to_fulfill_listing_request,
    is_request_for, same_order, Action, ArbCall, BlockScan, Chain, Config, Event,
    FulfillListingResponse, GasBidInfo, Listing, LogFilter, NewBlock, OpenseaOrder, Step,
    SubmitTxToMempool, Venue,
};

verus! {

/// The pool to sell into and its bid, for a listing that can be bought at a
/// profit: the listing is on the tracked chain, asks payment in the native
/// unit, and the best standing bid for its asset exceeds its price.
pub open spec fn opportunity(tables: PoolModel, listing: Listing) -> Option<(Address, U256)> {
    if listing.network != Chain::Ethereum || !listing.payment_token.is_zero() {
        None
    } else {
        match tables.best_bid(listing.nft_address) {
            None => None,
            Some((pool, bid)) => if bid.value() > listing.base_price.value() {
                Some((pool, bid))
            } else {
                None
            },
        }
    }
}

/// For a listing on the tracked chain that asks payment in the native unit,
/// and well-formed tables: a pool is chosen if and only if some pool
/// registered for the asset bids more than the listing asks; the pool chosen
/// is registered for the asset, and its bid is its own, exceeds the price and
/// is the highest among the asset's pools. No pool is chosen if and only if
/// no pool is registered for the asset or none of them bids more than the
/// price.
pub proof fn lemma_order_decision(tables: PoolModel, listing: Listing)
    requires
        tables.wf(),
        listing.network == Chain::Ethereum,
        listing.payment_token.is_zero(),
    ensures
        opportunity(tables, listing) is Some <==> exists|i: int|
            0 <= i < tables.pools_of(listing.nft_address).len() && tables.bids[#[trigger] tables.pools_of(
                listing.nft_address,
            )[i]].value() > listing.base_price.value(),
        opportunity(tables, listing) is None <==> (tables.pools_of(listing.nft_address).len() == 0
            || forall|i: int|
            0 <= i < tables.pools_of(listing.nft_address).len() ==> tables.bids[#[trigger] tables.pools_of(
                listing.nft_address,
            )[i]].value() <= listing.base_price.value()),
        opportunity(tables, listing) matches Some((pool, bid)) ==> {
            &&& tables.pools_of(listing.nft_address).contains(pool)
            &&& tables.bids[pool] == bid
            &&& bid.value() > listing.base_price.value()
            &&& forall|i: int|
                0 <= i < tables.pools_of(listing.nft_address).len() ==> tables.bids[#[trigger] tables.pools_of(
                    listing.nft_address,
                )[i]].value() <= bid.value()
        },
{
    let pools = tables.pools_of(listing.nft_address);
    lemma_best_among(pools, tables.bids);
    assert forall|i: int| 0 <= i < pools.len() implies tables.bids.dom().contains(#[trigger] pools[i]) by {
        assert(tables.registry.dom().contains(listing.nft_address));
        assert(tables.registry[listing.nft_address][i] == pools[i]);
    }
    match tables.best_bid(listing.nft_address) {
        None => {
            if pools.len() > 0 {
                assert(tables.bids.dom().contains(pools[0]));
            }
        },
        Some((pool, bid)) => {
            let k = choose|k: int| 0 <= k < pools.len() && #[trigger] pools[k] == pool;
            assert(tables.bids[pools[k]] == bid);
        },
    }
}

/// The block ranges of `filters`, in their order.
pub open spec fn ranges_of(filters: Seq<LogFilter>) -> Seq<BlockRange> {
    Seq::new(filters.len(), |i: int| filters[i].range)
}

/// Whether `filters` are the queries for the pools that the venue's factory
/// created in the blocks `from ..= to`: one query per window of
/// `QUERY_WINDOW` blocks, each for the factory's new-pool event.
pub open spec fn is_new_pool_scan(filters: Seq<LogFilter>, venue: Venue, from: u64, to: u64) -> bool {
    &&& from > to ==> filters.len() == 0
    &&& from <= to ==> is_window_partition(ranges_of(filters), from, to, QUERY_WINDOW)
    &&& forall|i: int|
        0 <= i < filters.len() ==> {
            &&& (#[trigger] filters[i]).addresses@ == seq![venue.factory_address]
            &&& filters[i].topics@ == seq![venue.new_pair_topic]
        }
}

/// Whether `filter` is the query for the known pools that the blocks
/// `from ..= to` touched: it names every pool of the bid table once, and the
/// venue's pool event topics.
pub open spec fn is_touched_pool_query(
    filter: LogFilter,
    venue: Venue,
    tables: PoolModel,
    from: u64,
    to: u64,
) -> bool {
    &&& filter.range == (BlockRange { from_block: from, to_block: to })
    &&& filter.topics@ == venue.pool_event_topics@
    &&& filter.addresses@.no_duplicates()
    &&& forall|pool: Address| filter.addresses@.contains(pool) <==> tables.bids.dom().contains(pool)
}

/// Whether `action` submits the arbitrage for `order` against `sudo_pool`:
/// a call of `contract` with the order's parameters and payment, and a
/// profit hint of the bid less the payment with the share `bid_percentage`.
pub open spec fn is_arb_submission(
    action: Action,
    contract: Address,
    bid_percentage: u64,
    sudo_pool: Address,
    sudo_bid: U256,
    order: FulfillListingResponse,
) -> bool {
    match action {
        Action::SubmitTx(submission) => {
            &&& submission.tx.contract == contract
            &&& same_order(
                order.fulfillment_data.transaction.input_data.parameters,
                submission.tx.basic_order,
            )
            &&& submission.tx.payment_value.value() == order.fulfillment_data.transaction.value
            &&& submission.tx.sudo_pool == sudo_pool
            &&& match submission.gas_bid_info {
                Some(info) => {
                    &&& info.total_profit.value() == sudo_bid.value()
                        - order.fulfillment_data.transaction.value
                    &&& info.bid_percentage == bid_percentage
                },
                None => false,
            }
        },
    }
}

/// A copy of `words`.
fn copy_words(words: &Vec<H256>) -> (copy: Vec<H256>)
    ensures
        copy@ == words@,
{
    let mut copy: Vec<H256> = Vec::new();
    let mut i: usize = 0;
    while i < words.len()
        invariant
            i <= words.len(),
            copy@ == words@.take(i as int),
        decreases words.len() - i,
    {
        copy.push(words[i]);
        assert(words@.take(i as int).push(words@[i as int]) =~= words@.take(i + 1));
        i += 1;
    }
    assert(words@.take(words.len() as int) =~= words@);
    copy
}

/// Pairs each pool with the quote that came back for it: the first pool
/// with the first quote, and so on, as far as both lists go.
pub fn get_quotes_for_pools(pools: Vec<Address>, quotes: Vec<SellQuote>) -> (r: Vec<
    (Address, SellQuote),
>)
    ensures
        r@.len() == if pools@.len() <= quotes@.len() {
            pools@.len()
        } else {
            quotes@.len()
        },
        forall|i: int| 0 <= i < r@.len() ==> #[trigger] r@[i] == (pools@[i], quotes@[i]),
{
    let mut r: Vec<(Address, SellQuote)> = Vec::new();
    let mut i: usize = 0;
    while i < pools.len() && i < quotes.len()
        invariant
            i <= pools.len(),
            i <= quotes.len(),
            r@.len() == i,
            forall|k: int| 0 <= k < i ==> #[trigger] r@[k] == (pools@[k], quotes@[k]),
        decreases pools.len() - i,
    {
        r.push((pools[i], quotes[i]));
        i += 1;
    }
    r
}

/// The pools to quote after a block: the new ones, then the touched
/// ones.
pub fn pools_to_quote(new_pools: Vec<Address>, touched_pools: Vec<Address>) -> (pools: Vec<Address>)
    ensures
        pools@ == new_pools@ + touched_pools@,
{
    let mut pools = new_pools;
    let mut touched = touched_pools;
    pools.append(&mut touched);
    pools
}

/// The state of one arbitrage strategy.
pub struct OpenseaSudoArb<M> {
    /// The call engine with the quoter installed, for reading pool state in
    /// batches.
    quoter: StateOverrideMiddleware<M>,
    /// The address at which the quoter is installed.
    quoter_address: Address,
    /// The arbitrage contract.
    arb_contract_address: Address,
    /// The counterpart venue.
    venue: Venue,
    /// The pool registry and the bid table.
    tables: PoolTables,
    /// Share of the profit to bid for inclusion, in percent.
    bid_percentage: u64,
}

impl<M> OpenseaSudoArb<M> {
    /// The pool registry and the bid table.
    pub closed spec fn tables(&self) -> PoolModel {
        self.tables@
    }

    /// The counterpart venue.
    pub closed spec fn venue(&self) -> Venue {
        self.venue
    }

    /// The arbitrage contract.
    pub closed spec fn arb_contract(&self) -> Address {
        self.arb_contract_address
    }

    /// Share of the profit to bid for inclusion, in percent.
    pub closed spec fn bid_share(&self) -> u64 {
        self.bid_percentage
    }

    /// The call engine with the quoter installed.
    pub closed spec fn call_engine(&self) -> StateOverrideMiddleware<M> {
        self.quoter
    }

    /// The address at which the quoter is installed.
    pub closed spec fn quoter_at(&self) -> Address {
        self.quoter_address
    }

    /// A strategy with empty tables. The quoter's code is installed at a
    /// fresh address on top of `client`; nothing else is overridden.
    pub fn new(client: M, config: Config, venue: Venue, quoter_code: Vec<u8>) -> (strategy: Self)
        ensures
            strategy.tables() == PoolModel::empty(),
            strategy.venue() == venue,
            strategy.arb_contract() == config.arb_contract_address,
            strategy.bid_share() == config.bid_percentage,
            strategy.call_engine().client() == client,
            strategy.call_engine().overrides() == Map::<Address, Seq<u8>>::empty().insert(
                strategy.quoter_at(),
                quoter_code@,
            ),
    {
        let mut state_override = StateOverrideMiddleware::new(client);
        let addr = state_override.add_code(quoter_code);
        OpenseaSudoArb {
            quoter: state_override,
            quoter_address: addr,
            arb_contract_address: config.arb_contract_address,
            venue,
            tables: PoolTables::new(),
            bid_percentage: config.bid_percentage,
        }
    }

    /// The call engine through which pool quotes are read.
    pub fn quoter(&self) -> (quoter: &StateOverrideMiddleware<M>)
        ensures
            *quoter == self.call_engine(),
    {
        &self.quoter
    }

    /// The address at which the quoter is installed.
    pub fn quoter_address(&self) -> (address: Address)
        ensures
            address == self.quoter_at(),
    {
        self.quoter_address
    }

    /// The pool registry and the bid table, to read.
    pub fn pool_tables(&self) -> (tables: &PoolTables)
        ensures
            tables@ == self.tables(),
    {
        &self.tables
    }

    /// The log queries that find all pools created in a block range.
    pub fn get_new_pools(&self, from_block: u64, to_block: u64) -> (filters: Vec<LogFilter>)
        ensures
            is_new_pool_scan(filters@, self.venue(), from_block, to_block),
    {
        let windows = block_windows(from_block, to_block, QUERY_WINDOW);
        let mut filters: Vec<LogFilter> = Vec::new();
        let mut i: usize = 0;
        while i < windows.len()
            invariant
                i <= windows.len(),
                filters@.len() == i,
                forall|k: int|
                    0 <= k < i ==> {
                        &&& (#[trigger] filters@[k]).range == windows@[k]
                        &&& filters@[k].addresses@ == seq![self.venue.factory_address]
                        &&& filters@[k].topics@ == seq![self.venue.new_pair_topic]
                    },
            decreases windows.len() - i,
        {
            let mut addresses: Vec<Address> = Vec::new();
            addresses.push(self.venue.factory_address);
            let mut topics: Vec<H256> = Vec::new();
            topics.push(self.venue.new_pair_topic);
            assert(addresses@ =~= seq![self.venue.factory_address]);
            assert(topics@ =~= seq![self.venue.new_pair_topic]);
            filters.push(LogFilter { range: windows[i], addresses, topics });
            i += 1;
        }
        assert(ranges_of(filters@) =~= windows@);
        filters
    }

    /// The log query that finds all known pools touched in a block range.
    pub fn get_touched_pools(&self, from_block: u64, to_block: u64) -> (filter: LogFilter)
        ensures
            is_touched_pool_query(filter, self.venue(), self.tables(), from_block, to_block),
    {
        let address_list = self.tables.quoted_pools();
        LogFilter {
            range: BlockRange { from_block, to_block },
            addresses: address_list,
            topics: copy_words(&self.venue.pool_event_topics),
        }
    }

    /// The log queries of the startup pass: every pool created from the
    /// factory's deployment up to `current_block`.
    pub fn sync_state(&self, current_block: u64) -> (filters: Vec<LogFilter>)
        ensures
            is_new_pool_scan(
                filters@,
                self.venue(),
                self.venue().factory_deployment_block,
                current_block,
            ),
    {
        self.get_new_pools(self.venue.factory_deployment_block, current_block)
    }

    /// Update the internal state of the strategy with new pool addresses and
    /// quotes.
    pub fn update_internal_pool_state(&mut self, pools_and_quotes: Vec<(Address, SellQuote)>)
        ensures
            final(self).tables() == old(self).tables().apply_quotes(pools_and_quotes@),
            final(self).tables().wf(),
            final(self).venue() == old(self).venue(),
            final(self).arb_contract() == old(self).arb_contract(),
            final(self).bid_share() == old(self).bid_share(),
            final(self).call_engine() == old(self).call_engine(),
            final(self).quoter_at() == old(self).quoter_at(),
    {
        self.tables.apply_quotes(&pools_and_quotes);
    }

    /// Decides on a new order: the pool to sell into and its bid, if the
    /// order can be bought at a profit.
    pub fn process_order_event(&self, event: &OpenseaOrder) -> (r: Option<(Address, U256)>)
        ensures
            r == opportunity(self.tables(), event.listing),
    {
        // Ignore orders that are not on the tracked chain.
        match event.listing.network {
            Chain::Ethereum => {},
            _ => {
                return None;
            },
        }
        // Ignore orders with payment in a token.
        if !event.listing.payment_token.is_zero() {
            return None;
        }
        // Find pool with highest bid.
        match self.tables.best_bid(&event.listing.nft_address) {
            None => None,
            Some((max_pool, max_bid)) => {
                // Ignore orders that are not profitable.
                if max_bid.le(&event.listing.base_price) {
                    None
                } else {
                    Some((max_pool, max_bid))
                }
            },
        }
    }

    /// Build the arbitrage transaction from the marketplace's answer and the
    /// chosen pool. A failed lookup gives no action. The payment that the
    /// order asks must not exceed the bid.
    pub fn build_arb_tx<E>(
        &self,
        sudo_pool: Address,
        sudo_bid: U256,
        response: Result<FulfillListingResponse, E>,
    ) -> (r: Option<Action>)
        requires
            response matches Ok(order) ==> order.fulfillment_data.transaction.value <= sudo_bid.value(),
        ensures
            match response {
                Ok(order) => r matches Some(action) && is_arb_submission(
                    action,
                    self.arb_contract(),
                    self.bid_share(),
                    sudo_pool,
                    sudo_bid,
                    order,
                ),
                Err(_) => r is None,
            },
    {
        let order = match response {
            Ok(order) => order,
            Err(_) => {
                return None;
            },
        };
        // Parse out arb contract parameters.
        let payment_value = U256::from_u64(order.fulfillment_data.transaction.value);
        let total_profit = sudo_bid.sub(&payment_value);
        // Build arb tx.
        let tx = ArbCall {
            contract: self.arb_contract_address,
            basic_order: fulfill_listing_response_to_basic_order_parameters(order),
            payment_value,
            sudo_pool,
        };
        Some(
            Action::SubmitTx(
                SubmitTxToMempool {
                    tx,
                    gas_bid_info: Some(GasBidInfo { total_profit, bid_percentage: self.bid_percentage }),
                },
            ),
        )
    }

    /// Says what is to be done for an event: for a new order that can be
    /// bought at a profit, the fulfillment data to fetch; for a new block,
    /// the logs to scan; else nothing.
    pub fn process_event(&self, event: Event) -> (step: Step)
        ensures
            match event {
                Event::OpenseaOrder(order) => match opportunity(self.tables(), order.listing) {
                    None => step is Done,
                    Some((pool, bid)) => {
                        &&& step matches Step::Fulfill { request, sudo_pool, sudo_bid }
                        &&& is_request_for(request, order.listing.order_hash)
                        &&& sudo_pool == pool
                        &&& sudo_bid == bid
                    },
                },
                Event::NewBlock(block) => {
                    &&& step matches Step::Scan(scan)
                    &&& is_new_pool_scan(scan.new_pools@, self.venue(), block.number, block.number)
                    &&& is_touched_pool_query(
                        scan.touched_pools,
                        self.venue(),
                        self.tables(),
                        block.number,
                        block.number,
                    )
                },
            },
    {
        match event {
            Event::OpenseaOrder(order) => match self.process_order_event(&*order) {
                None => Step::Done,
                Some((sudo_pool, sudo_bid)) => Step::Fulfill {
                    request: hash_to_fulfill_listing_request(order.listing.order_hash),
                    sudo_pool,
                    sudo_bid,
                },
            },
            Event::NewBlock(block) => Step::Scan(self.process_new_block_event(&block)),
        }
    }

    /// The log queries that a new block calls for: the pools created in it
    /// and the known pools touched in it.
    pub fn process_new_block_event(&self, event: &NewBlock) -> (scan: BlockScan)
        ensures
            is_new_pool_scan(scan.new_pools@, self.venue(), event.number, event.number),
            is_touched_pool_query(
                scan.touched_pools,
                self.venue(),
                self.tables(),
                event.number,
                event.number,
            ),
    {
        BlockScan {
            new_pools: self.get_new_pools(event.number, event.number),
            touched_pools: self.get_touched_pools(event.number, event.number),
        }
    }
}

} // verus!
