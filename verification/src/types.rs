//! The data that crosses the strategy's boundary: events that come in,
//! actions that go out, configuration, and the marketplace's fulfillment
//! messages.

use vstd::prelude::*;
use crate::primitives::{Address, H256, U256};
use crate::scan::BlockRange;

verus! {

/// The chain that an asset lives on, as far as the strategy tells chains
/// apart.
#[derive(Clone, Copy, Debug, PartialEq, Eq, Structural)]
pub enum Chain {
    /// The chain whose pools the strategy mirrors.
    Ethereum,
    /// Any other chain.
    Other,
}

/// A new block seen at the chain's head.
#[derive(Clone, Copy, Debug, PartialEq, Eq)]
pub struct NewBlock {
    pub hash: H256,
    pub number: u64,
}

/// What the strategy reads of a listing: a signed offer to sell one item of
/// an asset at a fixed price.
#[derive(Clone, Copy, Debug, PartialEq, Eq)]
pub struct Listing {
    /// The asset on offer.
    pub nft_address: Address,
    /// The chain the asset lives on.
    pub network: Chain,
    /// The token in which payment is asked; the zero address for the
    /// chain's native unit.
    pub payment_token: Address,
    /// The listing price.
    pub base_price: U256,
    /// The hash by which the marketplace knows the order.
    pub order_hash: H256,
}

/// A new order from the marketplace's feed.
#[derive(Clone, Copy, Debug, PartialEq, Eq)]
pub struct OpenseaOrder {
    pub listing: Listing,
}

/// Core event enum for the strategy.
#[derive(Clone, Debug, PartialEq, Eq)]
pub enum Event {
    NewBlock(NewBlock),
    OpenseaOrder(Box<OpenseaOrder>),
}

/// What the executor needs to size a priority fee.
#[derive(Clone, Copy, Debug, PartialEq, Eq)]
pub struct GasBidInfo {
    /// Total profit expected from the opportunity.
    pub total_profit: U256,
    /// Percentage of the profit to spend on the fee.
    pub bid_percentage: u64,
}

/// One additional recipient of a basic order, as the arbitrage contract
/// takes it.
#[derive(Clone, Copy, Debug, PartialEq, Eq)]
pub struct AdditionalRecipient {
    pub amount: U256,
    pub recipient: Address,
}

/// The parameters of a basic order, as the arbitrage contract takes them.
#[derive(Clone, Debug, PartialEq, Eq)]
pub struct BasicOrderParameters {
    pub consideration_token: Address,
    pub consideration_identifier: U256,
    pub consideration_amount: U256,
    pub offerer: Address,
    pub zone: Address,
    pub offer_token: Address,
    pub offer_identifier: U256,
    pub offer_amount: U256,
    pub basic_order_type: u8,
    pub start_time: U256,
    pub end_time: U256,
    pub zone_hash: [u8; 32],
    pub salt: U256,
    pub offerer_conduit_key: [u8; 32],
    pub fulfiller_conduit_key: [u8; 32],
    pub total_original_additional_recipients: U256,
    pub additional_recipients: Vec<AdditionalRecipient>,
    pub signature: Vec<u8>,
}

/// A call of the arbitrage contract: fulfil the order for `payment_value`,
/// then sell the item into `sudo_pool`.
#[derive(Clone, Debug, PartialEq, Eq)]
pub struct ArbCall {
    /// The arbitrage contract.
    pub contract: Address,
    pub basic_order: BasicOrderParameters,
    pub payment_value: U256,
    pub sudo_pool: Address,
}

/// A transaction for the mempool executor, with what it needs to bid for
/// inclusion.
#[derive(Clone, Debug, PartialEq, Eq)]
pub struct SubmitTxToMempool {
    pub tx: ArbCall,
    pub gas_bid_info: Option<GasBidInfo>,
}

/// Core action enum for the strategy.
#[derive(Clone, Debug, PartialEq, Eq)]
pub enum Action {
    SubmitTx(SubmitTxToMempool),
}

/// Configuration variables for the strategy.
#[derive(Clone, Copy, Debug, PartialEq, Eq)]
pub struct Config {
    /// Address of the arbitrage contract.
    pub arb_contract_address: Address,
    /// Percentage of profit to pay in gas.
    pub bid_percentage: u64,
}

/// What the strategy must know of the counterpart venue: where its pool
/// factory stands, since when, and the event topics by which its logs are
/// told apart.
#[derive(Clone, Debug, PartialEq, Eq)]
pub struct Venue {
    /// Address of the pool factory.
    pub factory_address: Address,
    /// Block in which the pool factory was deployed.
    pub factory_deployment_block: u64,
    /// Topic of the event that the factory emits for a new pool.
    pub new_pair_topic: H256,
    /// Topics of the pool events that may change a pool's quote.
    pub pool_event_topics: Vec<H256>,
}

/// A log query: the logs of the blocks in `range` that one of `addresses`
/// emitted under one of `topics`.
#[derive(Clone, Debug, PartialEq, Eq)]
pub struct LogFilter {
    pub range: BlockRange,
    pub addresses: Vec<Address>,
    pub topics: Vec<H256>,
}

/// The log queries that one block calls for.
#[derive(Clone, Debug, PartialEq, Eq)]
pub struct BlockScan {
    /// Queries for the pools created in the block.
    pub new_pools: Vec<LogFilter>,
    /// The query for the known pools that the block touched.
    pub touched_pools: LogFilter,
}

/// What the runtime is to do for one event.
#[derive(Clone, Debug, PartialEq, Eq)]
pub enum Step {
    /// Nothing: the event calls for no action.
    Done,
    /// Ask the marketplace for the order's fulfillment data, then build the
    /// arbitrage transaction against `sudo_pool` at `sudo_bid`.
    Fulfill { request: FulfillListingRequest, sudo_pool: Address, sudo_bid: U256 },
    /// Run the log queries, quote the pools that they name, and patch the
    /// tables with the quotes.
    Scan(BlockScan),
}

/// The version of the marketplace protocol that an order was made under.
#[derive(Clone, Copy, Debug, PartialEq, Eq, Structural)]
pub enum ProtocolVersion {
    V1_4,
}

/// Which order a fulfillment request is about.
#[derive(Clone, Copy, Debug, PartialEq, Eq)]
pub struct ListingId {
    pub hash: H256,
    pub chain: Chain,
    pub protocol_version: ProtocolVersion,
}

/// Who will fulfil the order.
#[derive(Clone, Copy, Debug, PartialEq, Eq)]
pub struct Fulfiller {
    pub address: Address,
}

/// A request for the data needed to fulfil a listing.
#[derive(Clone, Copy, Debug, PartialEq, Eq)]
pub struct FulfillListingRequest {
    pub listing: ListingId,
    pub fulfiller: Fulfiller,
}

/// One additional recipient, as the marketplace reports it.
#[derive(Clone, Copy, Debug, PartialEq, Eq)]
pub struct Recipient {
    pub amount: U256,
    pub recipient: Address,
}

/// The order parameters, as the marketplace reports them.
#[derive(Clone, Debug, PartialEq, Eq)]
pub struct Parameters {
    pub consideration_token: Address,
    pub consideration_identifier: U256,
    pub consideration_amount: U256,
    pub offerer: Address,
    pub zone: Address,
    pub offer_token: Address,
    pub offer_identifier: U256,
    pub offer_amount: U256,
    pub basic_order_type: u8,
    pub start_time: U256,
    pub end_time: U256,
    pub zone_hash: H256,
    pub salt: U256,
    pub offerer_conduit_key: H256,
    pub fulfiller_conduit_key: H256,
    pub total_original_additional_recipients: U256,
    pub additional_recipients: Vec<Recipient>,
    pub signature: Vec<u8>,
}

/// The input of the fulfilling transaction.
#[derive(Clone, Debug, PartialEq, Eq)]
pub struct InputData {
    pub parameters: Parameters,
}

/// The fulfilling transaction.
#[derive(Clone, Debug, PartialEq, Eq)]
pub struct Transaction {
    /// The payment that the transaction must carry.
    pub value: u64,
    pub input_data: InputData,
}

/// What is needed to fulfil a listing.
#[derive(Clone, Debug, PartialEq, Eq)]
pub struct FulfillmentData {
    pub transaction: Transaction,
}

/// The marketplace's answer to a `FulfillListingRequest`.
#[derive(Clone, Debug, PartialEq, Eq)]
pub struct FulfillListingResponse {
    pub fulfillment_data: FulfillmentData,
}

/// Whether `request` asks for the order with the given hash: an order on
/// the tracked chain under protocol version 1.4, with no fulfiller named.
pub open spec fn is_request_for(request: FulfillListingRequest, hash: H256) -> bool {
    &&& request.listing.hash == hash
    &&& request.listing.chain == Chain::Ethereum
    &&& request.listing.protocol_version == ProtocolVersion::V1_4
    &&& request.fulfiller.address.is_zero()
}

/// Builds the fulfillment request for the order with the given hash.
pub fn hash_to_fulfill_listing_request(hash: H256) -> (request: FulfillListingRequest)
    ensures
        is_request_for(request, hash),
{
    FulfillListingRequest {
        listing: ListingId { hash, chain: Chain::Ethereum, protocol_version: ProtocolVersion::V1_4 },
        fulfiller: Fulfiller { address: Address::zero() },
    }
}

/// Whether `order` says of a basic order what `params` says: every field
/// handed over as it is, the three 32-byte words as plain bytes.
pub open spec fn same_order(params: Parameters, order: BasicOrderParameters) -> bool {
    &&& order.consideration_token == params.consideration_token
    &&& order.consideration_identifier == params.consideration_identifier
    &&& order.consideration_amount == params.consideration_amount
    &&& order.offerer == params.offerer
    &&& order.zone == params.zone
    &&& order.offer_token == params.offer_token
    &&& order.offer_identifier == params.offer_identifier
    &&& order.offer_amount == params.offer_amount
    &&& order.basic_order_type == params.basic_order_type
    &&& order.start_time == params.start_time
    &&& order.end_time == params.end_time
    &&& order.zone_hash == params.zone_hash.bytes
    &&& order.salt == params.salt
    &&& order.offerer_conduit_key == params.offerer_conduit_key.bytes
    &&& order.fulfiller_conduit_key == params.fulfiller_conduit_key.bytes
    &&& order.total_original_additional_recipients == params.total_original_additional_recipients
    &&& order.additional_recipients@.len() == params.additional_recipients@.len()
    &&& forall|i: int|
        0 <= i < params.additional_recipients@.len() ==> {
            &&& (#[trigger] order.additional_recipients@[i]).recipient
                == params.additional_recipients@[i].recipient
            &&& order.additional_recipients@[i].amount == params.additional_recipients@[i].amount
        }
    &&& order.signature@ == params.signature@
}

/// Turns the marketplace's answer into the order parameters that the
/// arbitrage contract takes.
pub fn fulfill_listing_response_to_basic_order_parameters(val: FulfillListingResponse) -> (order:
    BasicOrderParameters)
    ensures
        same_order(val.fulfillment_data.transaction.input_data.parameters, order),
{
    let params = val.fulfillment_data.transaction.input_data.parameters;
    let mut recipients: Vec<AdditionalRecipient> = Vec::new();
    let mut i: usize = 0;
    while i < params.additional_recipients.len()
        invariant
            i <= params.additional_recipients.len(),
            recipients@.len() == i,
            forall|k: int|
                0 <= k < i ==> {
                    &&& (#[trigger] recipients@[k]).recipient == params.additional_recipients@[k].recipient
                    &&& recipients@[k].amount == params.additional_recipients@[k].amount
                },
        decreases params.additional_recipients.len() - i,
    {
        recipients.push(
            AdditionalRecipient {
                recipient: params.additional_recipients[i].recipient,
                amount: params.additional_recipients[i].amount,
            },
        );
        i += 1;
    }
    BasicOrderParameters {
        consideration_token: params.consideration_token,
        consideration_identifier: params.consideration_identifier,
        consideration_amount: params.consideration_amount,
        offerer: params.offerer,
        zone: params.zone,
        offer_token: params.offer_token,
        offer_identifier: params.offer_identifier,
        offer_amount: params.offer_amount,
        basic_order_type: params.basic_order_type,
        start_time: params.start_time,
        end_time: params.end_time,
        zone_hash: params.zone_hash.bytes,
        salt: params.salt,
        offerer_conduit_key: params.offerer_conduit_key.bytes,
        fulfiller_conduit_key: params.fulfiller_conduit_key.bytes,
        total_original_additional_recipients: params.total_original_additional_recipients,
        additional_recipients: recipients,
        signature: params.signature,
    }
}

} // verus!
