use borsh::BorshDeserialize;
use vstd::prelude::*;
use vstd::slice::slice_subrange;

use crate::error::QuoteError;
use crate::state::{
    AdditionalPdaAccount, Address, FeeMod, FilledOrder, Market, Node, NodeDeltaLog, OrderTree,
    LOG_CAPACITY, NODE_CAPACITY,
};

verus! {

/// The value of eight bytes read as a little-endian unsigned integer.
pub open spec fn le_u64(b: Seq<u8>) -> int
    recommends
        b.len() == 8,
{
    b[0] + b[1] * 0x100 + b[2] * 0x1_0000 + b[3] * 0x100_0000 + b[4] * 0x1_0000_0000 + b[5]
        * 0x100_0000_0000 + b[6] * 0x1_0000_0000_0000 + b[7] * 0x100_0000_0000_0000
}

/// The integer stored in the eight bytes that start at `at`.
pub open spec fn u64_at(bytes: Seq<u8>, at: int) -> u64 {
    le_u64(bytes.subrange(at, at + 8)) as u64
}

/// The 32 bytes that start at `at`.
pub open spec fn address_at(bytes: Seq<u8>, at: int) -> Seq<u8> {
    bytes.subrange(at, at + 32)
}

/// Bytes of a market record: seven addresses.
pub const MARKET_SIZE: usize = 224;

/// Bytes of a node record: seven integers.
pub const NODE_SIZE: usize = 56;

/// Bytes of a fill record: three integers.
pub const FILLED_ORDER_SIZE: usize = 24;

/// Bytes of a change record: seven integers.
pub const NODE_DELTA_LOG_SIZE: usize = 56;

/// Bytes of a fee record: four integers and an address.
pub const FEE_MOD_SIZE: usize = 64;

/// Bytes of an auxiliary configuration record: two integers and three
/// addresses.
pub const ADDITIONAL_PDA_ACCOUNT_SIZE: usize = 112;

/// The node stored at `at`: price, amount, uid, left, right, next, height.
pub open spec fn node_at(bytes: Seq<u8>, at: int) -> Node {
    Node {
        price: u64_at(bytes, at),
        amount: u64_at(bytes, at + 8),
        uid: u64_at(bytes, at + 16),
        left: u64_at(bytes, at + 24),
        right: u64_at(bytes, at + 32),
        next: u64_at(bytes, at + 40),
        height: u64_at(bytes, at + 48),
    }
}

/// The fill stored at `at`: price, amount, uid.
pub open spec fn filled_order_at(bytes: Seq<u8>, at: int) -> FilledOrder {
    FilledOrder {
        price: u64_at(bytes, at),
        amount: u64_at(bytes, at + 8),
        uid: u64_at(bytes, at + 16),
    }
}

/// The change stored at `at`: key, the three flags, amount, uid, price.
pub open spec fn node_delta_at(bytes: Seq<u8>, at: int) -> NodeDeltaLog {
    NodeDeltaLog {
        key: u64_at(bytes, at),
        is_delete: u64_at(bytes, at + 8),
        is_insert: u64_at(bytes, at + 16),
        is_delta: u64_at(bytes, at + 24),
        amount: u64_at(bytes, at + 32),
        uid: u64_at(bytes, at + 40),
        price: u64_at(bytes, at + 48),
    }
}

/// `market` is what the 224 bytes at `at` hold: mint, balances, wsol vault,
/// lot vault, asks, bids, quote mint.
pub open spec fn is_market_at(market: Market, bytes: Seq<u8>, at: int) -> bool {
    &&& market.mint@ == address_at(bytes, at)
    &&& market.balances@ == address_at(bytes, at + 32)
    &&& market.wsol_vault@ == address_at(bytes, at + 64)
    &&& market.lot_vault@ == address_at(bytes, at + 96)
    &&& market.asks@ == address_at(bytes, at + 128)
    &&& market.bids@ == address_at(bytes, at + 160)
    &&& market.quote_mint@ == address_at(bytes, at + 192)
}

/// `fee_mod` is what the 64 bytes at `at` hold: the four fees, then the
/// royalty address.
pub open spec fn is_fee_mod_at(fee_mod: FeeMod, bytes: Seq<u8>, at: int) -> bool {
    &&& fee_mod.base_fee_bp == u64_at(bytes, at)
    &&& fee_mod.collection_fee_bp == u64_at(bytes, at + 8)
    &&& fee_mod.market_maker_fee_bp == u64_at(bytes, at + 16)
    &&& fee_mod.dex_fee_bp == u64_at(bytes, at + 24)
    &&& fee_mod.collection_royalty_address@ == address_at(bytes, at + 32)
}

/// `account` is what the 112 bytes at `at` hold: price, mint, multiplier,
/// quote mint, fee receiver.
pub open spec fn is_additional_at(account: AdditionalPdaAccount, bytes: Seq<u8>, at: int) -> bool {
    &&& account.price == u64_at(bytes, at)
    &&& account.mint@ == address_at(bytes, at + 8)
    &&& account.multiplier == u64_at(bytes, at + 40)
    &&& account.quote_mint@ == address_at(bytes, at + 48)
    &&& account.fee_receiver_wallet@ == address_at(bytes, at + 80)
}

/// Bytes of an order tree account. The fields fill the first 61208 of them:
/// root index, buy flag, 1000 nodes, order count, signer, remaining amount,
/// fill count, 64 fills, change count, 64 changes, cancelled amount. The
/// rest is reserved and not read.
pub const ORDER_TREE_SIZE: usize = 87_360;

/// The node in slot `i` of the tree stored at `at`.
pub open spec fn tree_node_at(bytes: Seq<u8>, at: int, i: int) -> Node {
    node_at(bytes, at + 16 + 56 * i)
}

/// The fill in log slot `i` of the tree stored at `at`.
pub open spec fn tree_fill_at(bytes: Seq<u8>, at: int, i: int) -> FilledOrder {
    filled_order_at(bytes, at + 56_072 + 24 * i)
}

/// The change in log slot `i` of the tree stored at `at`.
pub open spec fn tree_delta_at(bytes: Seq<u8>, at: int, i: int) -> NodeDeltaLog {
    node_delta_at(bytes, at + 57_616 + 56 * i)
}

/// Every index and count of the tree stored at `at` is inside its table:
/// the root and both children of every node are below 1000, and the two log
/// counts are at most 64.
pub open spec fn tree_indices_valid(bytes: Seq<u8>, at: int) -> bool {
    &&& u64_at(bytes, at) < NODE_CAPACITY
    &&& forall|i: int|
        0 <= i < NODE_CAPACITY ==> (#[trigger] tree_node_at(bytes, at, i)).left < NODE_CAPACITY
            && tree_node_at(bytes, at, i).right < NODE_CAPACITY
    &&& u64_at(bytes, at + 56_064) <= LOG_CAPACITY
    &&& u64_at(bytes, at + 57_608) <= LOG_CAPACITY
}

/// The bytes from `at` to the end of the buffer are one order tree account:
/// exactly 87360 of them, with valid indices.
pub open spec fn order_tree_decodable(bytes: Seq<u8>, at: int) -> bool {
    &&& at + ORDER_TREE_SIZE == bytes.len()
    &&& tree_indices_valid(bytes, at)
}

/// `tree` is what the account stored at `at` holds, field by field.
pub open spec fn is_order_tree_at(tree: OrderTree, bytes: Seq<u8>, at: int) -> bool {
    &&& tree.root_idx == u64_at(bytes, at)
    &&& tree.market_buy == u64_at(bytes, at + 8)
    &&& forall|i: int|
        0 <= i < NODE_CAPACITY ==> #[trigger] tree.nodes@[i] == tree_node_at(bytes, at, i)
    &&& tree.num_orders == u64_at(bytes, at + 56_016)
    &&& tree.current_signer@ == address_at(bytes, at + 56_024)
    &&& tree.remaining_amount == u64_at(bytes, at + 56_056)
    &&& tree.num_fills == u64_at(bytes, at + 56_064)
    &&& forall|i: int|
        0 <= i < LOG_CAPACITY ==> #[trigger] tree.fills@[i] == tree_fill_at(bytes, at, i)
    &&& tree.num_deltas == u64_at(bytes, at + 57_608)
    &&& forall|i: int|
        0 <= i < LOG_CAPACITY ==> #[trigger] tree.node_delta@[i] == tree_delta_at(bytes, at, i)
    &&& tree.amount_cancelled == u64_at(bytes, at + 61_200)
}

/// Whether a record of `size` bytes that starts at `offset` lies inside a
/// buffer of `len` bytes.
pub open spec fn fits(len: int, offset: int, size: int) -> bool {
    offset + size <= len
}

/// `borsh`'s `try_from_slice` for `u64`: it succeeds on a slice of exactly
/// eight bytes, with their little-endian value, and fails on any other
/// length.
#[verifier::external_body]
fn borsh_u64(bytes: &[u8]) -> (r: Option<u64>)
    ensures
        r is Some <==> bytes@.len() == 8,
        r is Some ==> r->Some_0 == le_u64(bytes@),
{
    u64::try_from_slice(bytes).ok()
}

/// Eight bytes always make a value that fits in 64 bits, so `u64_at` loses
/// nothing.
pub proof fn lemma_le_u64_fits(bytes: Seq<u8>, at: int)
    ensures
        0 <= le_u64(bytes.subrange(at, at + 8)) <= u64::MAX,
        u64_at(bytes, at) == le_u64(bytes.subrange(at, at + 8)),
{
}

/// Reads the integer stored at `at`.
pub fn read_u64(bytes: &[u8], at: usize) -> (r: u64)
    requires
        at + 8 <= bytes@.len(),
    ensures
        r == u64_at(bytes@, at as int),
        r == le_u64(bytes@.subrange(at as int, at + 8)),
{
    let len = bytes.len();
    let field = slice_subrange(bytes, at, at + 8);
    proof {
        lemma_le_u64_fits(bytes@, at as int);
    }
    borsh_u64(field).unwrap()
}

/// Reads the 32 bytes stored at `at` as an address.
pub fn read_address(bytes: &[u8], at: usize) -> (r: Address)
    requires
        at + 32 <= bytes@.len(),
    ensures
        r@ == address_at(bytes@, at as int),
{
    let len = bytes.len();
    let mut out = [0u8;32];
    let mut i: usize = 0;
    while i < 32
        invariant
            i <= 32,
            at + 32 <= bytes@.len() == len,
            forall|j: int| 0 <= j < i ==> out@[j] == bytes@[at + j],
        decreases 32 - i,
    {
        out[i] = bytes[at + i];
        i += 1;
    }
    let r = Address { bytes: out };
    assert(r@ =~= address_at(bytes@, at as int));
    r
}

/// Whether a record of `size` bytes at `offset` lies inside the buffer.
pub fn has_room(bytes: &[u8], offset: usize, size: usize) -> (r: bool)
    ensures
        r == fits(bytes@.len() as int, offset as int, size as int),
        bytes@.len() <= usize::MAX,
{
    let len = bytes.len();
    offset <= len && size <= len - offset
}

impl Node {
    /// Decodes the node stored at `offset`. The only failure is a buffer
    /// that ends before the record does.
    pub fn decode(bytes: &[u8], offset: usize) -> (r: Result<Node, QuoteError>)
        ensures
            r == (if fits(bytes@.len() as int, offset as int, NODE_SIZE as int) {
                Ok(node_at(bytes@, offset as int))
            } else {
                Err(QuoteError::LayoutError)
            }),
    {
        if !has_room(bytes, offset, NODE_SIZE) {
            return Err(QuoteError::LayoutError);
        }
        Ok(read_node(bytes, offset))
    }
}

impl FilledOrder {
    /// Decodes the fill stored at `offset`. The only failure is a buffer
    /// that ends before the record does.
    pub fn decode(bytes: &[u8], offset: usize) -> (r: Result<FilledOrder, QuoteError>)
        ensures
            r == (if fits(bytes@.len() as int, offset as int, FILLED_ORDER_SIZE as int) {
                Ok(filled_order_at(bytes@, offset as int))
            } else {
                Err(QuoteError::LayoutError)
            }),
    {
        if !has_room(bytes, offset, FILLED_ORDER_SIZE) {
            return Err(QuoteError::LayoutError);
        }
        Ok(read_filled_order(bytes, offset))
    }
}

impl NodeDeltaLog {
    /// Decodes the change stored at `offset`. The only failure is a buffer
    /// that ends before the record does.
    pub fn decode(bytes: &[u8], offset: usize) -> (r: Result<NodeDeltaLog, QuoteError>)
        ensures
            r == (if fits(bytes@.len() as int, offset as int, NODE_DELTA_LOG_SIZE as int) {
                Ok(node_delta_at(bytes@, offset as int))
            } else {
                Err(QuoteError::LayoutError)
            }),
    {
        if !has_room(bytes, offset, NODE_DELTA_LOG_SIZE) {
            return Err(QuoteError::LayoutError);
        }
        Ok(read_node_delta(bytes, offset))
    }
}

impl Market {
    /// Decodes the market stored at `offset`. The only failure is a buffer
    /// that ends before the record does.
    pub fn decode(bytes: &[u8], offset: usize) -> (r: Result<Market, QuoteError>)
        ensures
            r is Ok <==> fits(bytes@.len() as int, offset as int, MARKET_SIZE as int),
            r is Ok ==> is_market_at(r->Ok_0, bytes@, offset as int),
            r is Err ==> r->Err_0 == QuoteError::LayoutError,
    {
        if !has_room(bytes, offset, MARKET_SIZE) {
            return Err(QuoteError::LayoutError);
        }
        Ok(
            Market {
                mint: read_address(bytes, offset),
                balances: read_address(bytes, offset + 32),
                wsol_vault: read_address(bytes, offset + 64),
                lot_vault: read_address(bytes, offset + 96),
                asks: read_address(bytes, offset + 128),
                bids: read_address(bytes, offset + 160),
                quote_mint: read_address(bytes, offset + 192),
            },
        )
    }
}

impl FeeMod {
    /// Decodes the fee parameters stored at `offset`. The only failure is a
    /// buffer that ends before the record does.
    pub fn decode(bytes: &[u8], offset: usize) -> (r: Result<FeeMod, QuoteError>)
        ensures
            r is Ok <==> fits(bytes@.len() as int, offset as int, FEE_MOD_SIZE as int),
            r is Ok ==> is_fee_mod_at(r->Ok_0, bytes@, offset as int),
            r is Err ==> r->Err_0 == QuoteError::LayoutError,
    {
        if !has_room(bytes, offset, FEE_MOD_SIZE) {
            return Err(QuoteError::LayoutError);
        }
        Ok(
            FeeMod {
                base_fee_bp: read_u64(bytes, offset),
                collection_fee_bp: read_u64(bytes, offset + 8),
                market_maker_fee_bp: read_u64(bytes, offset + 16),
                dex_fee_bp: read_u64(bytes, offset + 24),
                collection_royalty_address: read_address(bytes, offset + 32),
            },
        )
    }
}

impl AdditionalPdaAccount {
    /// Decodes the auxiliary configuration stored at `offset`. The only
    /// failure is a buffer that ends before the record does.
    pub fn decode(bytes: &[u8], offset: usize) -> (r: Result<AdditionalPdaAccount, QuoteError>)
        ensures
            r is Ok <==> fits(bytes@.len() as int, offset as int, ADDITIONAL_PDA_ACCOUNT_SIZE as int),
            r is Ok ==> is_additional_at(r->Ok_0, bytes@, offset as int),
            r is Err ==> r->Err_0 == QuoteError::LayoutError,
    {
        if !has_room(bytes, offset, ADDITIONAL_PDA_ACCOUNT_SIZE) {
            return Err(QuoteError::LayoutError);
        }
        Ok(
            AdditionalPdaAccount {
                price: read_u64(bytes, offset),
                mint: read_address(bytes, offset + 8),
                multiplier: read_u64(bytes, offset + 40),
                quote_mint: read_address(bytes, offset + 48),
                fee_receiver_wallet: read_address(bytes, offset + 80),
            },
        )
    }
}

impl OrderTree {
    /// Decodes the order tree account that fills the buffer from `offset` to
    /// its end. It fails where the bytes from `offset` on are not exactly
    /// 87360, where the root or a child index is 1000 or more, and where a
    /// log count is more than 64.
    pub fn decode(bytes: &[u8], offset: usize) -> (r: Result<OrderTree, QuoteError>)
        ensures
            r is Ok <==> order_tree_decodable(bytes@, offset as int),
            r is Ok ==> is_order_tree_at(r->Ok_0, bytes@, offset as int) && r->Ok_0.well_formed(),
            r is Err ==> r->Err_0 == QuoteError::LayoutError,
    {
        let len = bytes.len();
        if offset > len || len - offset != ORDER_TREE_SIZE {
            return Err(QuoteError::LayoutError);
        }
        let root_idx = read_u64(bytes, offset);
        let num_fills = read_u64(bytes, offset + 56_064);
        let num_deltas = read_u64(bytes, offset + 57_608);
        if root_idx >= 1000 || num_fills > 64 || num_deltas > 64 {
            return Err(QuoteError::LayoutError);
        }
        let mut nodes = [Node::default();1000];
        let mut i: usize = 0;
        while i < 1000
            invariant
                i <= 1000,
                offset + ORDER_TREE_SIZE == bytes@.len() == len,
                forall|j: int| 0 <= j < i ==> #[trigger] nodes@[j] == tree_node_at(bytes@, offset as int, j),
                forall|j: int|
                    0 <= j < i ==> (#[trigger] tree_node_at(bytes@, offset as int, j)).left < 1000
                        && tree_node_at(bytes@, offset as int, j).right < 1000,
            decreases 1000 - i,
        {
            let node = read_node(bytes, offset + 16 + 56 * i);
            if node.left >= 1000 || node.right >= 1000 {
                assert(tree_node_at(bytes@, offset as int, i as int) == node);
                return Err(QuoteError::LayoutError);
            }
            nodes[i] = node;
            i += 1;
        }
        let mut fills = [FilledOrder::default();64];
        let mut i: usize = 0;
        while i < 64
            invariant
                i <= 64,
                offset + ORDER_TREE_SIZE == bytes@.len() == len,
                forall|j: int| 0 <= j < i ==> #[trigger] fills@[j] == tree_fill_at(bytes@, offset as int, j),
            decreases 64 - i,
        {
            fills[i] = read_filled_order(bytes, offset + 56_072 + 24 * i);
            i += 1;
        }
        let mut node_delta = [NodeDeltaLog::default();64];
        let mut i: usize = 0;
        while i < 64
            invariant
                i <= 64,
                offset + ORDER_TREE_SIZE == bytes@.len() == len,
                forall|j: int|
                    0 <= j < i ==> #[trigger] node_delta@[j] == tree_delta_at(bytes@, offset as int, j),
            decreases 64 - i,
        {
            node_delta[i] = read_node_delta(bytes, offset + 57_616 + 56 * i);
            i += 1;
        }
        let tree = OrderTree {
            root_idx,
            market_buy: read_u64(bytes, offset + 8),
            nodes,
            num_orders: read_u64(bytes, offset + 56_016),
            current_signer: read_address(bytes, offset + 56_024),
            remaining_amount: read_u64(bytes, offset + 56_056),
            num_fills,
            fills,
            num_deltas,
            node_delta,
            amount_cancelled: read_u64(bytes, offset + 61_200),
        };
        assert(tree.well_formed()) by {
            assert forall|j: int| 0 <= j < NODE_CAPACITY implies (#[trigger] tree.nodes@[j]).left
                < NODE_CAPACITY && tree.nodes@[j].right < NODE_CAPACITY by {
                assert(tree.nodes@[j] == tree_node_at(bytes@, offset as int, j));
            }
        }
        Ok(tree)
    }
}

fn read_node(bytes: &[u8], at: usize) -> (r: Node)
    requires
        at + NODE_SIZE <= bytes@.len(),
    ensures
        r == node_at(bytes@, at as int),
{
    let len = bytes.len();
    Node {
        price: read_u64(bytes, at),
        amount: read_u64(bytes, at + 8),
        uid: read_u64(bytes, at + 16),
        left: read_u64(bytes, at + 24),
        right: read_u64(bytes, at + 32),
        next: read_u64(bytes, at + 40),
        height: read_u64(bytes, at + 48),
    }
}

fn read_filled_order(bytes: &[u8], at: usize) -> (r: FilledOrder)
    requires
        at + FILLED_ORDER_SIZE <= bytes@.len(),
    ensures
        r == filled_order_at(bytes@, at as int),
{
    let len = bytes.len();
    FilledOrder {
        price: read_u64(bytes, at),
        amount: read_u64(bytes, at + 8),
        uid: read_u64(bytes, at + 16),
    }
}

fn read_node_delta(bytes: &[u8], at: usize) -> (r: NodeDeltaLog)
    requires
        at + NODE_DELTA_LOG_SIZE <= bytes@.len(),
    ensures
        r == node_delta_at(bytes@, at as int),
{
    let len = bytes.len();
    NodeDeltaLog {
        key: read_u64(bytes, at),
        is_delete: read_u64(bytes, at + 8),
        is_insert: read_u64(bytes, at + 16),
        is_delta: read_u64(bytes, at + 24),
        amount: read_u64(bytes, at + 32),
        uid: read_u64(bytes, at + 40),
        price: read_u64(bytes, at + 48),
    }
}

} // verus!
