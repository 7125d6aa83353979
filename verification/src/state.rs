use vstd::prelude::*;

verus! {

/// Number of node slots in an order tree. Slot 0 is the "no node" sentinel.
pub const NODE_CAPACITY: usize = 1000;

/// Number of slots in each of the two execution logs of an order tree.
pub const LOG_CAPACITY: usize = 64;

/// A 32-byte ledger address, kept verbatim.
#[derive(Clone, Copy, Debug, PartialEq, Eq)]
pub struct Address {
    pub bytes: [u8; 32],
}

impl View for Address {
    type V = Seq<u8>;

    open spec fn view(&self) -> Seq<u8> {
        self.bytes@
    }
}

/// Thirty-two zero bytes.
pub open spec fn zero_bytes() -> Seq<u8> {
    Seq::new(32, |i: int| 0u8)
}

impl Address {
    /// The address of 32 zero bytes.
    pub fn zero() -> (r: Address)
        ensures
            r@ == zero_bytes(),
    {
        let r = Address { bytes: [0u8; 32] };
        assert(r@ =~= zero_bytes());
        r
    }

    /// Whether two addresses hold the same 32 bytes.
    pub fn same_as(&self, other: &Address) -> (r: bool)
        ensures
            r == (self@ == other@),
    {
        let mut i: usize = 0;
        while i < 32
            invariant
                i <= 32,
                forall|j: int| 0 <= j < i ==> self.bytes@[j] == other.bytes@[j],
            decreases 32 - i,
        {
            if self.bytes[i] != other.bytes[i] {
                return false;
            }
            i += 1;
        }
        assert(self@ =~= other@);
        true
    }
}

impl Default for Address {
    fn default() -> (r: Address)
        ensures
            r@ == zero_bytes(),
    {
        Address::zero()
    }
}

/// One resting order slot of the array-backed search tree.
#[derive(Clone, Copy, Debug, PartialEq, Eq, Structural)]
pub struct Node {
    /// Sort key.
    pub price: u64,
    /// Remaining order size.
    pub amount: u64,
    /// Order identifier.
    pub uid: u64,
    /// Slot of the lower-priced subtree, 0 for none.
    pub left: u64,
    /// Slot of the higher-priced subtree, 0 for none.
    pub right: u64,
    /// Slot of the order that follows in the book's price order, the next
    /// higher ask or the next lower bid; 0 for none.
    pub next: u64,
    /// Balance metadata; no query reads it.
    pub height: u64,
}

/// The node of an unused slot: every field zero.
pub open spec fn empty_node() -> Node {
    Node { price: 0, amount: 0, uid: 0, left: 0, right: 0, next: 0, height: 0 }
}

/// The fill of an unused log slot: every field zero.
pub open spec fn empty_fill() -> FilledOrder {
    FilledOrder { price: 0, amount: 0, uid: 0 }
}

/// The change of an unused log slot: every field zero.
pub open spec fn empty_delta() -> NodeDeltaLog {
    NodeDeltaLog { key: 0, is_delete: 0, is_insert: 0, is_delta: 0, amount: 0, uid: 0, price: 0 }
}

impl Default for Node {
    fn default() -> (r: Node)
        ensures
            r == empty_node(),
    {
        Node { price: 0, amount: 0, uid: 0, left: 0, right: 0, next: 0, height: 0 }
    }
}

/// One execution record of a past match.
#[derive(Clone, Copy, Debug, PartialEq, Eq, Structural)]
pub struct FilledOrder {
    pub price: u64,
    pub amount: u64,
    pub uid: u64,
}

impl Default for FilledOrder {
    fn default() -> (r: FilledOrder)
        ensures
            r == empty_fill(),
    {
        FilledOrder { price: 0, amount: 0, uid: 0 }
    }
}

/// One structural change that a past match made to the tree. The three flags
/// are kept as the raw integers they were stored as.
#[derive(Clone, Copy, Debug, PartialEq, Eq, Structural)]
pub struct NodeDeltaLog {
    pub key: u64,
    pub is_delete: u64,
    pub is_insert: u64,
    pub is_delta: u64,
    pub amount: u64,
    pub uid: u64,
    pub price: u64,
}

impl Default for NodeDeltaLog {
    fn default() -> (r: NodeDeltaLog)
        ensures
            r == empty_delta(),
    {
        NodeDeltaLog { key: 0, is_delete: 0, is_insert: 0, is_delta: 0, amount: 0, uid: 0, price: 0 }
    }
}

/// The addresses of one trading pair. Purely referential.
#[derive(Clone, Copy, Debug, PartialEq, Eq)]
pub struct Market {
    pub mint: Address,
    pub balances: Address,
    pub wsol_vault: Address,
    pub lot_vault: Address,
    pub asks: Address,
    pub bids: Address,
    pub quote_mint: Address,
}

impl Market {
    /// Every address is 32 zero bytes.
    pub open spec fn is_blank(&self) -> bool {
        &&& self.mint@ == zero_bytes()
        &&& self.balances@ == zero_bytes()
        &&& self.wsol_vault@ == zero_bytes()
        &&& self.lot_vault@ == zero_bytes()
        &&& self.asks@ == zero_bytes()
        &&& self.bids@ == zero_bytes()
        &&& self.quote_mint@ == zero_bytes()
    }
}

impl Default for Market {
    fn default() -> (r: Market)
        ensures
            r.is_blank(),
    {
        Market {
            mint: Address::zero(),
            balances: Address::zero(),
            wsol_vault: Address::zero(),
            lot_vault: Address::zero(),
            asks: Address::zero(),
            bids: Address::zero(),
            quote_mint: Address::zero(),
        }
    }
}

/// Fee parameters in basis points, and who receives the royalty.
#[derive(Clone, Copy, Debug, PartialEq, Eq)]
pub struct FeeMod {
    pub base_fee_bp: u64,
    pub collection_fee_bp: u64,
    pub market_maker_fee_bp: u64,
    pub dex_fee_bp: u64,
    pub collection_royalty_address: Address,
}

impl FeeMod {
    /// Every fee is 0 and the address is 32 zero bytes.
    pub open spec fn is_blank(&self) -> bool {
        &&& self.base_fee_bp == 0
        &&& self.collection_fee_bp == 0
        &&& self.market_maker_fee_bp == 0
        &&& self.dex_fee_bp == 0
        &&& self.collection_royalty_address@ == zero_bytes()
    }
}

impl Default for FeeMod {
    fn default() -> (r: FeeMod)
        ensures
            r.is_blank(),
    {
        FeeMod {
            base_fee_bp: 0,
            collection_fee_bp: 0,
            market_maker_fee_bp: 0,
            dex_fee_bp: 0,
            collection_royalty_address: Address::zero(),
        }
    }
}

/// Auxiliary configuration of a market.
#[derive(Clone, Copy, Debug, PartialEq, Eq)]
pub struct AdditionalPdaAccount {
    pub price: u64,
    /// No longer in use.
    pub mint: Address,
    pub multiplier: u64,
    pub quote_mint: Address,
    pub fee_receiver_wallet: Address,
}

impl AdditionalPdaAccount {
    /// Every integer is 0 and every address is 32 zero bytes.
    pub open spec fn is_blank(&self) -> bool {
        &&& self.price == 0
        &&& self.mint@ == zero_bytes()
        &&& self.multiplier == 0
        &&& self.quote_mint@ == zero_bytes()
        &&& self.fee_receiver_wallet@ == zero_bytes()
    }
}

impl Default for AdditionalPdaAccount {
    fn default() -> (r: AdditionalPdaAccount)
        ensures
            r.is_blank(),
    {
        AdditionalPdaAccount {
            price: 0,
            mint: Address::zero(),
            multiplier: 0,
            quote_mint: Address::zero(),
            fee_receiver_wallet: Address::zero(),
        }
    }
}

/// The side of the book a query looks at.
#[derive(Clone, Copy, Debug, PartialEq, Eq, Structural)]
pub enum Side {
    /// Resting buy orders; the best one has the highest price.
    Bid,
    /// Resting sell orders; the best one has the lowest price.
    Ask,
}

/// A decoded order tree: the price index and, after it, the log of the match
/// that last ran on it. Queries read `root_idx`, `market_buy` and `nodes`
/// only.
#[derive(Clone)]
pub struct OrderTree {
    /// Slot of the root, 0 for an empty book.
    pub root_idx: u64,
    /// Nonzero where the book is to be walked for the buy side.
    pub market_buy: u64,
    pub nodes: [Node; 1000],
    pub num_orders: u64,
    pub current_signer: Address,
    pub remaining_amount: u64,
    pub num_fills: u64,
    pub fills: [FilledOrder; 64],
    pub num_deltas: u64,
    pub node_delta: [NodeDeltaLog; 64],
    pub amount_cancelled: u64,
}

impl OrderTree {
    /// Every index and count of the tree is inside its table.
    pub open spec fn well_formed(&self) -> bool {
        &&& self.root_idx < NODE_CAPACITY
        &&& forall|i: int|
            0 <= i < NODE_CAPACITY ==> (#[trigger] self.nodes@[i]).left < NODE_CAPACITY
                && self.nodes@[i].right < NODE_CAPACITY
        &&& self.num_fills <= LOG_CAPACITY
        &&& self.num_deltas <= LOG_CAPACITY
    }

    /// The tree of an empty book with empty logs: every field zero.
    pub open spec fn is_blank(&self) -> bool {
        &&& self.root_idx == 0
        &&& self.market_buy == 0
        &&& forall|i: int| 0 <= i < NODE_CAPACITY ==> #[trigger] self.nodes@[i] == empty_node()
        &&& self.num_orders == 0
        &&& self.current_signer@ == zero_bytes()
        &&& self.remaining_amount == 0
        &&& self.num_fills == 0
        &&& forall|i: int| 0 <= i < LOG_CAPACITY ==> #[trigger] self.fills@[i] == empty_fill()
        &&& self.num_deltas == 0
        &&& forall|i: int| 0 <= i < LOG_CAPACITY ==> #[trigger] self.node_delta@[i] == empty_delta()
        &&& self.amount_cancelled == 0
    }
}

impl Default for OrderTree {
    fn default() -> (r: OrderTree)
        ensures
            r.is_blank(),
            r.well_formed(),
    {
        OrderTree {
            root_idx: 0,
            market_buy: 0,
            nodes: [Node::default();1000],
            num_orders: 0,
            current_signer: Address::zero(),
            remaining_amount: 0,
            num_fills: 0,
            fills: [FilledOrder::default();64],
            num_deltas: 0,
            node_delta: [NodeDeltaLog::default();64],
            amount_cancelled: 0,
        }
    }
}

} // verus!
