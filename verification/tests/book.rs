use gigadex::error::QuoteError;
use gigadex::quote::apply_fee;
use gigadex::state::{Node, OrderTree, Side};

fn node(price: u64, amount: u64, left: u64, right: u64) -> Node {
    Node { price, amount, uid: 0, left, right, next: 0, height: 0 }
}

fn linked(price: u64, amount: u64, left: u64, right: u64, next: u64) -> Node {
    Node { price, amount, uid: 0, left, right, next, height: 0 }
}

/// The asks of `three_orders`, each linked to the next higher price.
fn three_asks() -> OrderTree {
    let mut tree = OrderTree::default();
    tree.root_idx = 1;
    tree.nodes[1] = linked(100, 5_000_000, 2, 3, 3);
    tree.nodes[2] = linked(90, 4_000_000, 0, 0, 1);
    tree.nodes[3] = linked(110, 3_000_000, 0, 0, 0);
    tree
}

/// The bids of `three_orders`, each linked to the next lower price.
fn three_bids() -> OrderTree {
    let mut tree = OrderTree::default();
    tree.root_idx = 1;
    tree.nodes[1] = linked(100, 5_000_000, 2, 3, 2);
    tree.nodes[2] = linked(90, 4_000_000, 0, 0, 0);
    tree.nodes[3] = linked(110, 3_000_000, 0, 0, 1);
    tree
}

fn single_order(price: u64, amount: u64) -> OrderTree {
    let mut tree = OrderTree::default();
    tree.root_idx = 1;
    tree.nodes[1] = node(price, amount, 0, 0);
    tree
}

/// Root 1 (price 100) with left child 2 (price 90) and right child 3
/// (price 110).
fn three_orders() -> OrderTree {
    let mut tree = OrderTree::default();
    tree.root_idx = 1;
    tree.nodes[1] = node(100, 5_000_000, 2, 3);
    tree.nodes[2] = node(90, 4_000_000, 0, 0);
    tree.nodes[3] = node(110, 3_000_000, 0, 0);
    tree
}

#[test]
fn default_tree_is_empty() {
    let tree = OrderTree::default();
    assert_eq!(tree.root_idx, 0);
    assert_eq!(tree.market_buy, 0);
    assert_eq!(tree.num_orders, 0);
    assert!(tree.nodes.iter().all(|n| *n == Node::default()));
    assert_eq!(tree.fills.len(), 64);
    assert_eq!(tree.node_delta.len(), 64);
    assert_eq!(tree.nodes.len(), 1000);
}

#[test]
fn best_price_of_empty_book_is_zero() {
    let tree = OrderTree::default();
    assert_eq!(tree.best_price(Side::Ask), Ok(0));
    assert_eq!(tree.best_price(Side::Bid), Ok(0));
    assert_eq!(tree.get_best(0), Ok(0));
}

#[test]
fn best_price_is_zero_only_for_empty_root() {
    let tree = three_orders();
    assert_ne!(tree.best_price(Side::Ask), Ok(0));
    assert_ne!(tree.best_price(Side::Bid), Ok(0));
    let mut emptied = three_orders();
    emptied.root_idx = 0;
    assert_eq!(emptied.best_price(Side::Ask), Ok(0));
    assert_eq!(emptied.best_price(Side::Bid), Ok(0));
}

#[test]
fn best_price_descends_to_the_edge() {
    let tree = three_orders();
    assert_eq!(tree.best_price(Side::Ask), Ok(90));
    assert_eq!(tree.best_price(Side::Bid), Ok(110));
    assert_eq!(tree.best_price_from(Side::Ask, 3), Ok(110));
    assert_eq!(tree.best_price_from(Side::Bid, 2), Ok(90));
}

#[test]
fn best_price_of_unpriced_order_is_zero() {
    let tree = single_order(0, 10);
    assert_eq!(tree.best_price(Side::Ask), Ok(0));
}

#[test]
fn get_best_follows_market_buy_flag() {
    let mut tree = three_orders();
    tree.market_buy = 0;
    assert_eq!(tree.get_best(1), Ok(110));
    tree.market_buy = 1;
    assert_eq!(tree.get_best(1), Ok(90));
    assert_eq!(tree.get_best(3), Ok(110));
    assert_eq!(tree.get_best(0), Ok(0));
}

#[test]
fn best_price_rejects_a_cycle() {
    let mut tree = OrderTree::default();
    tree.root_idx = 1;
    tree.nodes[1] = node(100, 1, 2, 0);
    tree.nodes[2] = node(90, 1, 1, 0);
    assert_eq!(tree.best_price(Side::Ask), Err(QuoteError::LayoutError));
    assert_eq!(tree.best_price(Side::Bid), Ok(100));
    tree.nodes[1] = node(100, 1, 1, 0);
    assert_eq!(tree.best_price(Side::Ask), Err(QuoteError::LayoutError));
}

#[test]
fn best_price_rejects_an_index_outside_the_table() {
    let mut tree = OrderTree::default();
    tree.root_idx = 1000;
    assert_eq!(tree.best_price(Side::Ask), Err(QuoteError::LayoutError));
    tree.root_idx = 1;
    tree.nodes[1] = node(100, 1, 0, 5000);
    assert_eq!(tree.best_price(Side::Bid), Err(QuoteError::LayoutError));
    assert_eq!(tree.best_price(Side::Ask), Ok(100));
    assert_eq!(tree.get_best(1000), Err(QuoteError::LayoutError));
}

#[test]
fn best_price_walks_the_longest_chain() {
    let mut tree = OrderTree::default();
    tree.root_idx = 1;
    for i in 1..1000u64 {
        let left = if i < 999 { i + 1 } else { 0 };
        tree.nodes[i as usize] = node(2000 - i, 1, left, 0);
    }
    assert_eq!(tree.best_price(Side::Ask), Ok(2000 - 999));
}

#[test]
fn single_ask_below_precision_quotes_zero() {
    let tree = single_order(100, 10);
    assert_eq!(tree.calculate_quote(1_000_000_000, true), Ok(0));
    assert_eq!(tree.calculate_quote(1_000_000_000_000_000, true), Ok(0));
}

#[test]
fn single_ask_at_precision_scale_quotes_ten() {
    let tree = single_order(100, 10_000_000);
    assert_eq!(tree.calculate_quote(1_000_000_000_000_000, true), Ok(10));
    assert_eq!(tree.calculate_quote(1_000_000_000, true), Ok(10));
}

#[test]
fn empty_book_quotes_zero() {
    let tree = OrderTree::default();
    assert_eq!(tree.calculate_quote(1, true), Ok(0));
    assert_eq!(tree.calculate_quote(u64::MAX, true), Ok(0));
    assert_eq!(tree.calculate_quote(1, false), Ok(0));
    assert_eq!(tree.calculate_quote(u64::MAX, false), Ok(0));
}

#[test]
fn nothing_in_quotes_zero() {
    assert_eq!(three_orders().calculate_quote(0, true), Ok(0));
    assert_eq!(three_orders().calculate_quote(0, false), Ok(0));
    let mut cyclic = OrderTree::default();
    cyclic.root_idx = 1;
    cyclic.nodes[1] = node(100, 1, 1, 1);
    assert_eq!(cyclic.calculate_quote(0, true), Ok(0));
    assert_eq!(cyclic.calculate_quote(0, false), Ok(0));
}

#[test]
fn buy_fills_partially() {
    let tree = single_order(100, 10_000_000);
    // cost of the whole order is 1_000_000_000; half of it buys half.
    assert_eq!(tree.calculate_quote(500_000_000, true), Ok(5));
    assert_eq!(tree.calculate_quote(999_999_999, true), Ok(9));
    assert_eq!(tree.calculate_quote(99, true), Ok(0));
}

#[test]
fn buy_walks_asks_upward() {
    let tree = three_asks();
    // 4_000_000 at 90 cost 360_000_000, then 5_000_000 at 100 cost
    // 500_000_000, then 3_000_000 at 110 cost 330_000_000.
    assert_eq!(tree.calculate_quote(360_000_000, true), Ok(4));
    assert_eq!(tree.calculate_quote(360_000_000 + 250_000_000, true), Ok(6));
    assert_eq!(tree.calculate_quote(860_000_000, true), Ok(9));
    assert_eq!(tree.calculate_quote(860_000_000 + 165_000_000, true), Ok(10));
    assert_eq!(tree.calculate_quote(1_190_000_000, true), Ok(12));
    assert_eq!(tree.calculate_quote(u64::MAX, true), Ok(12));
}

#[test]
fn sell_walks_bids_downward() {
    let tree = three_bids();
    // 3_000_000 at 110 give 330_000_000, then 5_000_000 at 100 give
    // 500_000_000, then 4_000_000 at 90 give 360_000_000.
    assert_eq!(tree.calculate_quote(1_000_000, false), Ok(110));
    assert_eq!(tree.calculate_quote(3_000_000, false), Ok(330));
    assert_eq!(tree.calculate_quote(4_000_000, false), Ok(430));
    assert_eq!(tree.calculate_quote(8_000_000, false), Ok(830));
    assert_eq!(tree.calculate_quote(10_000_000, false), Ok(1010));
    assert_eq!(tree.calculate_quote(12_000_000, false), Ok(1190));
    assert_eq!(tree.calculate_quote(u64::MAX, false), Ok(1190));
}

#[test]
fn walk_without_successors_takes_the_best_order_only() {
    let tree = three_orders();
    assert_eq!(tree.calculate_quote(u64::MAX, true), Ok(4));
    assert_eq!(tree.calculate_quote(u64::MAX, false), Ok(330));
}

#[test]
fn walk_stops_at_an_unpriced_order() {
    let mut tree = three_asks();
    tree.nodes[1].price = 0;
    assert_eq!(tree.calculate_quote(u64::MAX, true), Ok(4));
    tree.nodes[2].price = 0;
    assert_eq!(tree.calculate_quote(u64::MAX, true), Ok(0));
}

#[test]
fn larger_order_never_receives_less() {
    let amounts = [
        0u64,
        1,
        89,
        90,
        1_000,
        3_000_000,
        359_999_999,
        360_000_000,
        700_000_000,
        1_190_000_000,
        u64::MAX,
    ];
    for (tree, buy) in [(three_asks(), true), (three_bids(), false)] {
        let mut last = 0;
        for amount_in in amounts {
            let out = tree.calculate_quote(amount_in, buy).unwrap();
            assert!(last <= out);
            last = out;
        }
    }
}

#[test]
fn overflowing_cost_is_an_error() {
    let tree = single_order(u64::MAX, 2);
    assert_eq!(tree.calculate_quote(1, true), Err(QuoteError::ArithmeticOverflow));
    let tree = single_order(u64::MAX, 3);
    assert_eq!(tree.calculate_quote(2, false), Err(QuoteError::ArithmeticOverflow));
    assert_eq!(tree.calculate_quote(3, false), Err(QuoteError::ArithmeticOverflow));
    assert_eq!(tree.calculate_quote(1, false), Ok(u64::MAX / 1_000_000));
}

#[test]
fn overflowing_total_is_an_error() {
    let mut tree = OrderTree::default();
    tree.root_idx = 1;
    tree.nodes[1] = linked(2, u64::MAX / 2, 0, 0, 2);
    tree.nodes[2] = linked(2, 2, 0, 0, 0);
    // The first order gives u64::MAX - 1; the proceeds of the second cannot
    // be added to that.
    assert_eq!(tree.calculate_quote(u64::MAX, false), Err(QuoteError::ArithmeticOverflow));
    assert_eq!(tree.calculate_quote(u64::MAX / 2, false), Ok((u64::MAX - 1) / 1_000_000));
    let mut tree = OrderTree::default();
    tree.root_idx = 1;
    tree.nodes[1] = linked(1, u64::MAX, 0, 0, 2);
    tree.nodes[2] = linked(1, 1, 0, 0, 0);
    assert_eq!(tree.calculate_quote(u64::MAX, true), Ok(u64::MAX / 1_000_000));
}

#[test]
fn cyclic_book_is_a_layout_error() {
    let mut tree = OrderTree::default();
    tree.root_idx = 1;
    tree.nodes[1] = node(100, 1, 1, 1);
    assert_eq!(tree.calculate_quote(1_000, true), Err(QuoteError::LayoutError));
    assert_eq!(tree.calculate_quote(1_000, false), Err(QuoteError::LayoutError));
    let mut tree = OrderTree::default();
    tree.root_idx = 2000;
    assert_eq!(tree.calculate_quote(1, true), Err(QuoteError::LayoutError));
}

#[test]
fn cyclic_successors_are_a_layout_error() {
    let mut tree = OrderTree::default();
    tree.root_idx = 1;
    tree.nodes[1] = linked(1, 1, 0, 0, 2);
    tree.nodes[2] = linked(1, 1, 0, 0, 1);
    // each of the two orders takes 1; an order for more comes back to the
    // first
    assert_eq!(tree.calculate_quote(1, true), Ok(0));
    assert_eq!(tree.calculate_quote(2, true), Ok(0));
    assert_eq!(tree.calculate_quote(3, true), Err(QuoteError::LayoutError));
    assert_eq!(tree.calculate_quote(u64::MAX, true), Err(QuoteError::LayoutError));
    assert_eq!(tree.calculate_quote(2, false), Ok(0));
    assert_eq!(tree.calculate_quote(3, false), Err(QuoteError::LayoutError));
    tree.nodes[1] = linked(1, 1, 0, 0, 1);
    assert_eq!(tree.calculate_quote(1, true), Ok(0));
    assert_eq!(tree.calculate_quote(2, true), Err(QuoteError::LayoutError));
}

#[test]
fn successor_outside_the_table_is_a_layout_error() {
    let mut tree = OrderTree::default();
    tree.root_idx = 1;
    tree.nodes[1] = linked(1, 5, 0, 0, 1000);
    assert_eq!(tree.calculate_quote(4, true), Ok(0));
    assert_eq!(tree.calculate_quote(5, true), Ok(0));
    assert_eq!(tree.calculate_quote(6, true), Err(QuoteError::LayoutError));
    assert_eq!(tree.calculate_quote(6, false), Err(QuoteError::LayoutError));
}

#[test]
fn longest_successor_chain_is_walked_to_its_end() {
    let mut tree = OrderTree::default();
    tree.root_idx = 1;
    for i in 1..1000u64 {
        let next = if i < 999 { i + 1 } else { 0 };
        tree.nodes[i as usize] = linked(1, 1_000_000, 0, 0, next);
    }
    assert_eq!(tree.calculate_quote(u64::MAX, true), Ok(999));
    assert_eq!(tree.calculate_quote(u64::MAX, false), Ok(999));
}

#[test]
fn quote_leaves_the_tree_untouched() {
    let tree = three_asks();
    let before = tree.clone();
    let _ = tree.calculate_quote(700_000_000, true);
    assert_eq!(tree.root_idx, before.root_idx);
    assert!(tree.nodes.iter().zip(before.nodes.iter()).all(|(a, b)| a == b));
}

#[test]
fn fee_is_floored_and_net_is_the_rest() {
    assert_eq!(apply_fee(1_000, 30), Ok((997, 3)));
    assert_eq!(apply_fee(999, 30), Ok((997, 2)));
    assert_eq!(apply_fee(10, 0), Ok((10, 0)));
    assert_eq!(apply_fee(10, 10_000), Ok((0, 10)));
    assert_eq!(apply_fee(0, 10_000), Ok((0, 0)));
    assert_eq!(apply_fee(3, 3_333), Ok((3, 0)));
}

#[test]
fn net_and_fee_add_up() {
    for amount in [0u64, 1, 7, 9_999, 10_000, 123_456_789, 1_844_674_407_370_955] {
        for fee_bp in [0u64, 1, 25, 9_999, 10_000] {
            let (net, fee) = apply_fee(amount, fee_bp).unwrap();
            assert_eq!(net + fee, amount);
            assert_eq!(fee as u128, amount as u128 * fee_bp as u128 / 10_000);
        }
    }
}

#[test]
fn fee_above_all_is_refused() {
    assert_eq!(apply_fee(1_000, 10_001), Err(QuoteError::InvalidFeeConfiguration));
    assert_eq!(apply_fee(0, u64::MAX), Err(QuoteError::InvalidFeeConfiguration));
}

#[test]
fn fee_product_overflow_is_an_error() {
    assert_eq!(apply_fee(u64::MAX, 2), Err(QuoteError::ArithmeticOverflow));
    assert_eq!(apply_fee(u64::MAX, 1), Ok((u64::MAX - u64::MAX / 10_000, u64::MAX / 10_000)));
    assert_eq!(apply_fee(u64::MAX, 0), Ok((u64::MAX, 0)));
}
