use artemis::constants::{lssvm_pair_factory_address, FACTORY_DEPLOYMENT_BLOCK};
use artemis::pools::SellQuote;
use artemis::primitives::{Address, H256, U256};
use artemis::scan::BlockRange;
use artemis::strategy::{get_quotes_for_pools, pools_to_quote, OpenseaSudoArb};
use artemis::types::{
    hash_to_fulfill_listing_request, Action, BlockScan, Chain, Config, Event, FulfillListingResponse,
    FulfillmentData, GasBidInfo, InputData, Listing, LogFilter, NewBlock, OpenseaOrder, Parameters,
    Recipient, Step, Transaction, Venue,
};
use ethers::types::H160;

const ETHER: u128 = 1_000_000_000_000_000_000;

fn addr(n: u8) -> Address {
    let mut bytes = [0u8; 20];
    bytes[19] = n;
    Address { bytes }
}

fn word(n: u8) -> H256 {
    H256 { bytes: [n; 32] }
}

fn tenths(n: u128) -> U256 {
    U256::from_u128(n * ETHER / 10)
}

fn venue() -> Venue {
    Venue {
        factory_address: lssvm_pair_factory_address(),
        factory_deployment_block: FACTORY_DEPLOYMENT_BLOCK,
        new_pair_topic: word(0xf5),
        pool_event_topics: vec![word(0xa1), word(0xa2), word(0xa3), word(0xa4)],
    }
}

fn strategy() -> OpenseaSudoArb<()> {
    OpenseaSudoArb::new(
        (),
        Config { arb_contract_address: addr(0xcc), bid_percentage: 80 },
        venue(),
        vec![0x60, 0x80, 0x60, 0x40],
    )
}

fn available(asset: Address, price: U256) -> SellQuote {
    SellQuote { quote_available: true, nft_address: asset, price }
}

fn unavailable(asset: Address) -> SellQuote {
    SellQuote { quote_available: false, nft_address: asset, price: U256::zero() }
}

fn listing(asset: Address, price: U256) -> Listing {
    Listing {
        nft_address: asset,
        network: Chain::Ethereum,
        payment_token: Address::zero(),
        base_price: price,
        order_hash: word(0x77),
    }
}

fn order(listing: Listing) -> OpenseaOrder {
    OpenseaOrder { listing }
}

fn parameters() -> Parameters {
    Parameters {
        consideration_token: Address::zero(),
        consideration_identifier: U256::zero(),
        consideration_amount: tenths(9),
        offerer: addr(0x0f),
        zone: addr(0x20),
        offer_token: addr(1),
        offer_identifier: U256::from_u64(4242),
        offer_amount: U256::from_u64(1),
        basic_order_type: 0,
        start_time: U256::from_u64(1_680_000_000),
        end_time: U256::from_u64(1_690_000_000),
        zone_hash: word(0),
        salt: U256 { hi: 1, lo: 2 },
        offerer_conduit_key: word(0x0c),
        fulfiller_conduit_key: word(0),
        total_original_additional_recipients: U256::from_u64(1),
        additional_recipients: vec![Recipient { amount: tenths(1), recipient: addr(0xfe) }],
        signature: vec![0xab; 65],
    }
}

fn response(value: u64) -> FulfillListingResponse {
    FulfillListingResponse {
        fulfillment_data: FulfillmentData {
            transaction: Transaction { value, input_data: InputData { parameters: parameters() } },
        },
    }
}

#[test]
fn factory_constants() {
    assert_eq!(FACTORY_DEPLOYMENT_BLOCK, 14650730);
    let expected: H160 = "0xb16c1342e617a5b6e4b631eb114483fdb289c0a4".parse().unwrap();
    assert_eq!(lssvm_pair_factory_address().bytes, expected.0);
}

#[test]
fn new_strategy_has_empty_tables_and_the_quoter_installed() {
    let strategy = strategy();
    assert_eq!(strategy.pool_tables().quoted_pools(), Vec::<Address>::new());
    let mut state = strategy.quoter().state().clone();
    let installed = state.account(H160(strategy.quoter_address().bytes)).code.clone();
    assert_eq!(installed.map(|code| code.to_vec()), Some(vec![0x60, 0x80, 0x60, 0x40]));
    let overrides = serde_json::to_value(strategy.quoter().state()).unwrap();
    assert_eq!(overrides.as_object().unwrap().len(), 1);
}

#[test]
fn order_is_sold_into_the_pool_with_the_highest_bid() {
    let mut strategy = strategy();
    strategy.update_internal_pool_state(vec![
        (addr(0x11), available(addr(1), tenths(12))),
        (addr(0x12), available(addr(1), tenths(9))),
    ]);
    let event = order(listing(addr(1), tenths(10)));
    assert_eq!(strategy.process_order_event(&event), Some((addr(0x11), tenths(12))));

    // The order asks 1.0 up front; the pool pays 1.2.
    let action = strategy.build_arb_tx::<String>(addr(0x11), tenths(12), Ok(response(ETHER as u64)));
    match action {
        Some(Action::SubmitTx(submission)) => {
            assert_eq!(submission.tx.sudo_pool, addr(0x11));
            assert_eq!(submission.tx.contract, addr(0xcc));
            assert_eq!(submission.tx.payment_value, U256::from_u128(ETHER));
            assert_eq!(
                submission.gas_bid_info,
                Some(GasBidInfo { total_profit: tenths(2), bid_percentage: 80 })
            );
            assert_eq!(submission.tx.basic_order.offer_token, addr(1));
            assert_eq!(submission.tx.basic_order.offer_identifier, U256::from_u64(4242));
            assert_eq!(submission.tx.basic_order.signature, vec![0xab; 65]);
            assert_eq!(submission.tx.basic_order.additional_recipients.len(), 1);
            assert_eq!(submission.tx.basic_order.additional_recipients[0].recipient, addr(0xfe));
            assert_eq!(submission.tx.basic_order.offerer_conduit_key, [0x0c; 32]);
        }
        None => panic!("no action for a profitable order"),
    }
}

#[test]
fn profit_is_bid_less_payment() {
    let strategy = strategy();
    let bid = U256 { hi: 1, lo: 5 };
    match strategy.build_arb_tx::<String>(addr(0x11), bid, Ok(response(6))) {
        Some(Action::SubmitTx(submission)) => {
            let info = submission.gas_bid_info.unwrap();
            assert_eq!(info.total_profit, U256 { hi: 0, lo: u128::MAX });
            assert_eq!(info.bid_percentage, 80);
            assert_eq!(submission.tx.payment_value, U256 { hi: 0, lo: 6 });
        }
        None => panic!("no action"),
    }
    match strategy.build_arb_tx::<String>(addr(0x11), U256::from_u64(6), Ok(response(6))) {
        Some(Action::SubmitTx(submission)) => {
            assert_eq!(submission.gas_bid_info.unwrap().total_profit, U256::zero());
        }
        None => panic!("no action"),
    }
}

#[test]
fn failed_lookup_gives_no_action() {
    let strategy = strategy();
    let action = strategy.build_arb_tx(addr(0x11), tenths(12), Err("marketplace is down".to_string()));
    assert_eq!(action, None);
}

#[test]
fn order_at_or_above_the_best_bid_is_passed_over() {
    let mut strategy = strategy();
    strategy.update_internal_pool_state(vec![
        (addr(0x11), available(addr(1), tenths(12))),
        (addr(0x12), available(addr(1), tenths(9))),
    ]);
    assert_eq!(strategy.process_order_event(&order(listing(addr(1), tenths(12)))), None);
    assert_eq!(strategy.process_order_event(&order(listing(addr(1), tenths(13)))), None);
    let just_under = U256::from_u128(12 * ETHER / 10 - 1);
    assert_eq!(
        strategy.process_order_event(&order(listing(addr(1), just_under))),
        Some((addr(0x11), tenths(12)))
    );
}

#[test]
fn order_for_an_asset_without_pools_is_passed_over() {
    let mut strategy = strategy();
    assert_eq!(strategy.process_order_event(&order(listing(addr(1), U256::zero()))), None);
    strategy.update_internal_pool_state(vec![(addr(0x11), available(addr(1), tenths(12)))]);
    assert_eq!(strategy.process_order_event(&order(listing(addr(2), U256::zero()))), None);
    strategy.update_internal_pool_state(vec![(addr(0x11), unavailable(addr(1)))]);
    assert_eq!(strategy.process_order_event(&order(listing(addr(1), U256::zero()))), None);
}

#[test]
fn order_on_another_chain_is_passed_over() {
    let mut strategy = strategy();
    strategy.update_internal_pool_state(vec![(addr(0x11), available(addr(1), tenths(12)))]);
    let mut foreign = listing(addr(1), tenths(1));
    foreign.network = Chain::Other;
    assert_eq!(strategy.process_order_event(&order(foreign)), None);
}

#[test]
fn order_paid_in_a_token_is_passed_over() {
    let mut strategy = strategy();
    strategy.update_internal_pool_state(vec![(addr(0x11), available(addr(1), tenths(12)))]);
    let mut token = listing(addr(1), tenths(1));
    token.payment_token = addr(0x99);
    assert_eq!(strategy.process_order_event(&order(token)), None);
}

#[test]
fn profitable_order_asks_for_its_fulfillment_data() {
    let mut strategy = strategy();
    strategy.update_internal_pool_state(vec![(addr(0x11), available(addr(1), tenths(12)))]);
    let step = strategy.process_event(Event::OpenseaOrder(Box::new(order(listing(addr(1), tenths(10))))));
    assert_eq!(
        step,
        Step::Fulfill {
            request: hash_to_fulfill_listing_request(word(0x77)),
            sudo_pool: addr(0x11),
            sudo_bid: tenths(12),
        }
    );
}

#[test]
fn unprofitable_order_asks_for_nothing() {
    let mut strategy = strategy();
    strategy.update_internal_pool_state(vec![(addr(0x11), available(addr(1), tenths(12)))]);
    let step = strategy.process_event(Event::OpenseaOrder(Box::new(order(listing(addr(1), tenths(12))))));
    assert_eq!(step, Step::Done);
}

fn new_pool_filter(from_block: u64, to_block: u64) -> LogFilter {
    LogFilter {
        range: BlockRange { from_block, to_block },
        addresses: vec![lssvm_pair_factory_address()],
        topics: vec![word(0xf5)],
    }
}

#[test]
fn new_block_asks_for_its_new_and_touched_pools() {
    let mut strategy = strategy();
    strategy.update_internal_pool_state(vec![
        (addr(0x11), available(addr(1), tenths(12))),
        (addr(0x12), available(addr(2), tenths(9))),
        (addr(0x13), unavailable(addr(2))),
    ]);
    let block = NewBlock { hash: word(1), number: 17_000_000 };
    let step = strategy.process_event(Event::NewBlock(block));
    let expected = BlockScan {
        new_pools: vec![new_pool_filter(17_000_000, 17_000_000)],
        touched_pools: LogFilter {
            range: BlockRange { from_block: 17_000_000, to_block: 17_000_000 },
            addresses: vec![addr(0x11), addr(0x12)],
            topics: venue().pool_event_topics,
        },
    };
    assert_eq!(step, Step::Scan(expected.clone()));
    assert_eq!(strategy.process_new_block_event(&block), expected);
}

#[test]
fn touched_pool_unknown_to_the_bid_table_enters_when_quoted() {
    let mut strategy = strategy();
    strategy.update_internal_pool_state(vec![(addr(0x11), available(addr(1), tenths(12)))]);
    // A price update from a pool that is not in the bid table: it is quoted
    // with the rest.
    let pools = pools_to_quote(vec![], vec![addr(0x15)]);
    let pairs = get_quotes_for_pools(pools, vec![available(addr(1), tenths(15))]);
    strategy.update_internal_pool_state(pairs);
    assert_eq!(strategy.pool_tables().bid(&addr(0x15)), Some(tenths(15)));
    assert_eq!(strategy.pool_tables().pools(&addr(1)), vec![addr(0x11), addr(0x15)]);
}

#[test]
fn touched_pool_unknown_to_the_bid_table_without_quote_is_a_no_op() {
    let mut strategy = strategy();
    strategy.update_internal_pool_state(vec![(addr(0x11), available(addr(1), tenths(12)))]);
    let pairs = get_quotes_for_pools(vec![addr(0x15)], vec![unavailable(addr(1))]);
    strategy.update_internal_pool_state(pairs);
    assert_eq!(strategy.pool_tables().bid(&addr(0x15)), None);
    assert_eq!(strategy.pool_tables().quoted_pools(), vec![addr(0x11)]);
    assert_eq!(strategy.pool_tables().pools(&addr(1)), vec![addr(0x11)]);
    assert_eq!(strategy.pool_tables().bid(&addr(0x11)), Some(tenths(12)));
}

#[test]
fn each_pool_gets_the_quote_at_its_place() {
    let pairs = get_quotes_for_pools(
        vec![addr(1), addr(2), addr(3)],
        vec![available(addr(9), tenths(1)), unavailable(addr(9)), available(addr(8), tenths(3))],
    );
    assert_eq!(
        pairs,
        vec![
            (addr(1), available(addr(9), tenths(1))),
            (addr(2), unavailable(addr(9))),
            (addr(3), available(addr(8), tenths(3))),
        ]
    );
}

#[test]
fn pairing_stops_with_the_shorter_list() {
    let quotes = vec![available(addr(9), tenths(1)), unavailable(addr(9))];
    assert_eq!(
        get_quotes_for_pools(vec![addr(1)], quotes.clone()),
        vec![(addr(1), available(addr(9), tenths(1)))]
    );
    assert_eq!(
        get_quotes_for_pools(vec![addr(1), addr(2), addr(3)], quotes.clone()),
        vec![(addr(1), quotes[0]), (addr(2), quotes[1])]
    );
    assert_eq!(get_quotes_for_pools(vec![], quotes), vec![]);
}

#[test]
fn new_pools_are_quoted_before_touched_ones() {
    assert_eq!(
        pools_to_quote(vec![addr(3), addr(1)], vec![addr(2), addr(1)]),
        vec![addr(3), addr(1), addr(2), addr(1)]
    );
    assert_eq!(pools_to_quote(vec![], vec![]), Vec::<Address>::new());
}

#[test]
fn new_pool_scan_is_windowed() {
    let strategy = strategy();
    assert_eq!(
        strategy.get_new_pools(100, 4_500),
        vec![new_pool_filter(100, 2_099), new_pool_filter(2_100, 4_099), new_pool_filter(4_100, 4_500)]
    );
    assert_eq!(strategy.get_new_pools(5, 4), Vec::<LogFilter>::new());
}

#[test]
fn startup_scan_starts_at_the_factory_deployment() {
    let strategy = strategy();
    let filters = strategy.sync_state(14_655_000);
    assert_eq!(
        filters,
        vec![
            new_pool_filter(14_650_730, 14_652_729),
            new_pool_filter(14_652_730, 14_654_729),
            new_pool_filter(14_654_730, 14_655_000),
        ]
    );
    assert_eq!(strategy.sync_state(14_650_729), Vec::<LogFilter>::new());
    assert_eq!(strategy.sync_state(14_650_730), vec![new_pool_filter(14_650_730, 14_650_730)]);
}

#[test]
fn touched_pool_query_names_every_pool_with_a_bid() {
    let mut strategy = strategy();
    assert_eq!(
        strategy.get_touched_pools(10, 20),
        LogFilter {
            range: BlockRange { from_block: 10, to_block: 20 },
            addresses: vec![],
            topics: venue().pool_event_topics,
        }
    );
    strategy.update_internal_pool_state(vec![
        (addr(0x11), available(addr(1), tenths(12))),
        (addr(0x12), available(addr(1), tenths(9))),
        (addr(0x11), available(addr(1), tenths(13))),
    ]);
    let mut addresses = strategy.get_touched_pools(10, 20).addresses;
    addresses.sort_by_key(|a| a.bytes);
    assert_eq!(addresses, vec![addr(0x11), addr(0x12)]);
}

#[test]
fn pool_without_quote_at_startup_enters_neither_table() {
    let mut strategy = strategy();
    let pools = vec![addr(0x11), addr(0x12), addr(0x13)];
    let quotes = vec![unavailable(addr(1)), available(addr(1), tenths(5)), unavailable(addr(2))];
    strategy.update_internal_pool_state(get_quotes_for_pools(pools, quotes));
    assert_eq!(strategy.pool_tables().quoted_pools(), vec![addr(0x12)]);
    assert_eq!(strategy.pool_tables().pools(&addr(1)), vec![addr(0x12)]);
    assert_eq!(strategy.pool_tables().pools(&addr(2)), Vec::<Address>::new());
}
