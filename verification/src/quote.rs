use vstd::prelude::*;
use vstd::set_lib::{lemma_int_range, lemma_len_subset, set_int_range};

use crate::error::QuoteError;
use crate::state::{Node, OrderTree, Side, NODE_CAPACITY};
use crate::tree::edge_slot;

verus! {

/// The scale by which every amount and price of a market is stored.
pub const PRECISION: u64 = 1_000_000;

/// One hundred percent in basis points.
pub const FEE_DENOMINATOR: u64 = 10_000;

/// The side of the book that a taker meets: a buyer the asks, a seller the
/// bids.
pub open spec fn book_side(buy: bool) -> Side {
    if buy {
        Side::Ask
    } else {
        Side::Bid
    }
}

/// A running total after `gain` is added, or an overflow where the sum
/// leaves 64 bits.
pub open spec fn credited(received: int, gain: int) -> Result<int, QuoteError> {
    if received + gain > u64::MAX {
        Err(QuoteError::ArithmeticOverflow)
    } else {
        Ok(received + gain)
    }
}

/// What a taker has received, unscaled, once `remaining` has been spent
/// against the orders from slot `at` on, given `received` so far, the slots
/// `filled` so far, and at most `fuel` further full fills.
///
/// Each step takes the order in slot `at` at its own price. A buyer pays
/// `amount * price` for `amount`; a seller gives `amount` for
/// `amount * price`. An order that the rest cannot cover is filled in part
/// and ends the walk; one that it can is filled whole, and the walk moves to
/// the order's successor in price order, `next`. The walk also ends where
/// nothing remains to spend, where there is no further order, and where the
/// order's price is 0. A successor outside the table is a layout error, and
/// so is one that has been filled already. The walk is rejected too once its
/// fuel is used up; `lemma_fill_from_spare_fuel` shows that the fuel a quote
/// starts with never decides it.
pub open spec fn fill_from(
    nodes: Seq<Node>,
    buy: bool,
    at: int,
    remaining: int,
    received: int,
    filled: Set<int>,
    fuel: nat,
) -> Result<int, QuoteError>
    decreases fuel,
{
    if remaining == 0 || at == 0 {
        Ok(received)
    } else if at < 0 || at >= nodes.len() || filled.contains(at) {
        Err(QuoteError::LayoutError)
    } else {
        let price = nodes[at].price as int;
        let amount = nodes[at].amount as int;
        let next = nodes[at].next as int;
        if price == 0 {
            Ok(received)
        } else if fuel == 0 {
            Err(QuoteError::LayoutError)
        } else if buy {
            if amount * price > u64::MAX {
                Err(QuoteError::ArithmeticOverflow)
            } else if amount * price > remaining {
                credited(received, remaining / price)
            } else if received + amount > u64::MAX {
                Err(QuoteError::ArithmeticOverflow)
            } else {
                fill_from(
                    nodes,
                    buy,
                    next,
                    remaining - amount * price,
                    received + amount,
                    filled.insert(at),
                    (fuel - 1) as nat,
                )
            }
        } else {
            if amount > remaining {
                if remaining * price > u64::MAX {
                    Err(QuoteError::ArithmeticOverflow)
                } else {
                    credited(received, remaining * price)
                }
            } else if amount * price > u64::MAX || received + amount * price > u64::MAX {
                Err(QuoteError::ArithmeticOverflow)
            } else {
                fill_from(
                    nodes,
                    buy,
                    next,
                    remaining - amount,
                    received + amount * price,
                    filled.insert(at),
                    (fuel - 1) as nat,
                )
            }
        }
    }
}

/// The amount a market order of `amount_in` receives from the book. An
/// order of nothing receives nothing. Any other starts at the best order of
/// the side it meets, the lowest ask for a buyer and the highest bid for a
/// seller, walks on in price order, and receives what the walk collects,
/// divided by the precision and rounded down.
pub open spec fn simulate(tree: OrderTree, amount_in: u64, buy: bool) -> Result<u64, QuoteError> {
    if amount_in == 0 {
        Ok(0)
    } else {
        match edge_slot(tree.nodes@, book_side(buy), tree.root_idx as int, NODE_CAPACITY as nat) {
            None => Err(QuoteError::LayoutError),
            Some(best) => scaled_down(
                fill_from(
                    tree.nodes@,
                    buy,
                    best,
                    amount_in as int,
                    0,
                    Set::empty(),
                    NODE_CAPACITY as nat,
                ),
            ),
        }
    }
}

/// The result of a walk brought back to whole units: the total divided by
/// the precision, rounded down.
pub open spec fn scaled_down(walked: Result<int, QuoteError>) -> Result<u64, QuoteError> {
    match walked {
        Err(e) => Err(e),
        Ok(total) => Ok((total / (PRECISION as int)) as u64),
    }
}

/// The fee on `amount_out` at `fee_bp` basis points, rounded down, and what
/// is left after it: `(net, fee)`.
pub open spec fn fee_split(amount_out: u64, fee_bp: u64) -> Result<(u64, u64), QuoteError> {
    if fee_bp > FEE_DENOMINATOR {
        Err(QuoteError::InvalidFeeConfiguration)
    } else if amount_out * fee_bp > u64::MAX {
        Err(QuoteError::ArithmeticOverflow)
    } else {
        let fee = (amount_out * fee_bp) / (FEE_DENOMINATOR as int);
        Ok(((amount_out - fee) as u64, fee as u64))
    }
}

/// Splits `amount_out` into what the taker keeps and the fee, `(net, fee)`.
/// A fee above 10000 basis points is refused, and so is a product
/// `amount_out * fee_bp` that leaves 64 bits.
pub fn apply_fee(amount_out: u64, fee_bp: u64) -> (r: Result<(u64, u64), QuoteError>)
    ensures
        r == fee_split(amount_out, fee_bp),
        r is Err <==> fee_bp > FEE_DENOMINATOR || amount_out * fee_bp > u64::MAX,
        r is Ok ==> r->Ok_0.0 + r->Ok_0.1 == amount_out && r->Ok_0.1 == (amount_out * fee_bp)
            / 10000,
{
    if fee_bp > FEE_DENOMINATOR {
        return Err(QuoteError::InvalidFeeConfiguration);
    }
    match amount_out.checked_mul(fee_bp) {
        None => Err(QuoteError::ArithmeticOverflow),
        Some(scaled) => {
            let fee: u64 = scaled / FEE_DENOMINATOR;
            assert(fee <= amount_out) by (nonlinear_arith)
                requires
                    fee == (amount_out * fee_bp) / 10000,
                    fee_bp <= 10000,
            ;
            Ok((amount_out - fee, fee))
        },
    }
}

/// A walk that succeeds returns at least what it started with, and a total
/// that fits in 64 bits where the starting total did.
pub proof fn lemma_fill_from_bounds(
    nodes: Seq<Node>,
    buy: bool,
    at: int,
    remaining: int,
    received: int,
    filled: Set<int>,
    fuel: nat,
)
    requires
        0 <= remaining,
    ensures
        fill_from(nodes, buy, at, remaining, received, filled, fuel) is Ok ==> {
            let total = fill_from(nodes, buy, at, remaining, received, filled, fuel)->Ok_0;
            received <= total && (received <= u64::MAX ==> total <= u64::MAX)
        },
    decreases fuel,
{
    if remaining != 0 && 0 < at < nodes.len() && !filled.contains(at) {
        let p = nodes[at].price as int;
        let amount = nodes[at].amount as int;
        let next = nodes[at].next as int;
        if p != 0 && fuel != 0 {
            assert(remaining * p >= 0 && amount * p >= 0 && remaining / p >= 0) by (nonlinear_arith)
                requires
                    remaining >= 0,
                    amount >= 0,
                    p > 0,
            ;
            if buy {
                if amount * p <= remaining && received + amount <= u64::MAX {
                    lemma_fill_from_bounds(
                        nodes,
                        buy,
                        next,
                        remaining - amount * p,
                        received + amount,
                        filled.insert(at),
(fuel - 1) as nat,
                    );
                }
            } else {
                if amount <= remaining && amount * p <= u64::MAX && received + amount * p
                    <= u64::MAX {
                    lemma_fill_from_bounds(
                        nodes,
                        buy,
                        next,
                        remaining - amount,
                        received + amount * p,
                        filled.insert(at),
(fuel - 1) as nat,
                    );
                }
            }
        }
    }
}

/// A walk with less to spend and less received so far succeeds wherever the
/// walk with more does, and returns no more than it.
pub proof fn lemma_fill_from_monotonic(
    nodes: Seq<Node>,
    buy: bool,
    at: int,
    remaining1: int,
    remaining2: int,
    received1: int,
    received2: int,
    filled: Set<int>,
    fuel: nat,
)
    requires
        0 <= remaining1 <= remaining2,
        received1 <= received2,
    ensures
        fill_from(nodes, buy, at, remaining2, received2, filled, fuel) is Ok ==> fill_from(
            nodes,
            buy,
            at,
            remaining1,
            received1,
            filled,
            fuel,
        ) is Ok && fill_from(nodes, buy, at, remaining1, received1, filled, fuel)->Ok_0 <= fill_from(
            nodes,
            buy,
            at,
            remaining2,
            received2,
            filled,
            fuel,
        )->Ok_0,
    decreases fuel,
{
    lemma_fill_from_bounds(nodes, buy, at, remaining2, received2, filled, fuel);
    if remaining1 != 0 && 0 < at < nodes.len() && !filled.contains(at) {
        let p = nodes[at].price as int;
        let amount = nodes[at].amount as int;
        let next = nodes[at].next as int;
        if p != 0 && fuel != 0 {
            if buy {
                let cost = amount * p;
                if cost <= u64::MAX {
                    if cost > remaining2 {
                        assert(remaining1 / p <= remaining2 / p) by (nonlinear_arith)
                            requires
                                0 <= remaining1 <= remaining2,
                                p > 0,
                        ;
                    } else if cost > remaining1 {
                        assert(remaining1 / p <= amount) by (nonlinear_arith)
                            requires
                                0 <= remaining1 < amount * p,
                                p > 0,
                        ;
                        lemma_fill_from_bounds(
                            nodes,
                            buy,
                            next,
                            remaining2 - cost,
                            received2 + amount,
                            filled.insert(at),
(fuel - 1) as nat,
                        );
                    } else {
                        lemma_fill_from_monotonic(
                            nodes,
                            buy,
                            next,
                            remaining1 - cost,
                            remaining2 - cost,
                            received1 + amount,
                            received2 + amount,
                            filled.insert(at),
(fuel - 1) as nat,
                        );
                    }
                }
            } else {
                assert(remaining1 * p <= remaining2 * p) by (nonlinear_arith)
                    requires
                        0 <= remaining1 <= remaining2,
                        p > 0,
                ;
                if amount > remaining2 {
                } else if amount > remaining1 {
                    assert(remaining1 * p <= amount * p) by (nonlinear_arith)
                        requires
                            0 <= remaining1 < amount,
                            p > 0,
                    ;
                    lemma_fill_from_bounds(
                        nodes,
                        buy,
                        next,
                        remaining2 - amount,
                        received2 + amount * p,
                        filled.insert(at),
(fuel - 1) as nat,
                    );
                } else {
                    lemma_fill_from_monotonic(
                        nodes,
                        buy,
                        next,
                        remaining1 - amount,
                        remaining2 - amount,
                        received1 + amount * p,
                        received2 + amount * p,
                        filled.insert(at),
(fuel - 1) as nat,
                    );
                }
            }
        }
    }
}

/// A larger order never receives less: on one book and one direction, where
/// the quote for the larger amount exists, so does the quote for the smaller,
/// and it is no greater.
pub proof fn lemma_simulate_monotonic(tree: OrderTree, amount_in1: u64, amount_in2: u64, buy: bool)
    requires
        amount_in1 <= amount_in2,
    ensures
        simulate(tree, amount_in2, buy) is Ok ==> simulate(tree, amount_in1, buy) is Ok && simulate(
            tree,
            amount_in1,
            buy,
        )->Ok_0 <= simulate(tree, amount_in2, buy)->Ok_0,
{
    let found = edge_slot(tree.nodes@, book_side(buy), tree.root_idx as int, NODE_CAPACITY as nat);
    if amount_in1 != 0 && found is Some {
        let best = found->Some_0;
        let fuel = NODE_CAPACITY as nat;
        lemma_fill_from_monotonic(
            tree.nodes@,
            buy,
            best,
            amount_in1 as int,
            amount_in2 as int,
            0,
            0,
            Set::empty(),
            fuel,
        );
        lemma_fill_from_bounds(tree.nodes@, buy, best, amount_in1 as int, 0, Set::empty(), fuel);
        lemma_fill_from_bounds(tree.nodes@, buy, best, amount_in2 as int, 0, Set::empty(), fuel);
        let walked1 = fill_from(tree.nodes@, buy, best, amount_in1 as int, 0, Set::empty(), fuel);
        let walked2 = fill_from(tree.nodes@, buy, best, amount_in2 as int, 0, Set::empty(), fuel);
        if walked2 is Ok {
            let t1 = walked1->Ok_0;
            let t2 = walked2->Ok_0;
            assert(0 <= t1 / 1_000_000 <= t2 / 1_000_000 <= u64::MAX) by (nonlinear_arith)
                requires
                    0 <= t1 <= t2 <= u64::MAX,
            ;
        }
    }
}

/// The orders that a walk can have filled: sets of live slots.
pub open spec fn is_fill_record(nodes: Seq<Node>, filled: Set<int>) -> bool {
    filled.subset_of(set_int_range(1, nodes.len() as int))
}

/// Fuel never decides a walk: with enough of it to fill every order not yet
/// filled, any amount gives the same result.
pub proof fn lemma_fill_from_spare_fuel(
    nodes: Seq<Node>,
    buy: bool,
    at: int,
    remaining: int,
    received: int,
    filled: Set<int>,
    fuel1: nat,
    fuel2: nat,
)
    requires
        nodes.len() >= 1,
        is_fill_record(nodes, filled),
        fuel1 + filled.len() + 1 >= nodes.len(),
        fuel2 + filled.len() + 1 >= nodes.len(),
    ensures
        fill_from(nodes, buy, at, remaining, received, filled, fuel1) == fill_from(
            nodes,
            buy,
            at,
            remaining,
            received,
            filled,
            fuel2,
        ),
    decreases fuel1,
{
    let live = set_int_range(1, nodes.len() as int);
    lemma_int_range(1, nodes.len() as int);
    lemma_len_subset(filled, live);
    if remaining != 0 && 0 < at < nodes.len() && !filled.contains(at) && nodes[at].price != 0 {
        let more = filled.insert(at);
        assert(more.subset_of(live));
        lemma_len_subset(more, live);
        assert(more.len() == filled.len() + 1);
        let p = nodes[at].price as int;
        let amount = nodes[at].amount as int;
        let next = nodes[at].next as int;
        let next_remaining = if buy {
            remaining - amount * p
        } else {
            remaining - amount
        };
        let next_received = if buy {
            received + amount
        } else {
            received + amount * p
        };
        lemma_fill_from_spare_fuel(
            nodes,
            buy,
            next,
            next_remaining,
            next_received,
            more,
            (fuel1 - 1) as nat,
            (fuel2 - 1) as nat,
        );
    }
}

/// The bound on full fills never decides a quote: with any more fuel than
/// the book has slots, the walk from the best order comes out the same.
pub proof fn lemma_walk_bound_spare(tree: OrderTree, amount_in: u64, buy: bool, best: int, fuel: nat)
    requires
        fuel >= NODE_CAPACITY,
    ensures
        fill_from(tree.nodes@, buy, best, amount_in as int, 0, Set::empty(), fuel) == fill_from(
            tree.nodes@,
            buy,
            best,
            amount_in as int,
            0,
            Set::empty(),
            NODE_CAPACITY as nat,
        ),
{
    lemma_fill_from_spare_fuel(
        tree.nodes@,
        buy,
        best,
        amount_in as int,
        0,
        Set::empty(),
        fuel,
        NODE_CAPACITY as nat,
    );
}

/// An order of nothing receives nothing, whatever the book holds.
pub proof fn lemma_simulate_nothing_in(tree: OrderTree, buy: bool)
    ensures
        simulate(tree, 0, buy) == Ok::<u64, QuoteError>(0),
{
}

/// An empty book gives nothing, whatever is offered.
pub proof fn lemma_simulate_empty_book(tree: OrderTree, amount_in: u64, buy: bool)
    requires
        tree.root_idx == 0,
    ensures
        simulate(tree, amount_in, buy) == Ok::<u64, QuoteError>(0),
{
}

impl OrderTree {
    /// The amount that a market order of `amount_in` would receive from this
    /// book, before fees; 0 where the book has nothing to match it. The tree
    /// is only read.
    pub fn calculate_quote(&self, amount_in: u64, buy: bool) -> (r: Result<u64, QuoteError>)
        ensures
            r == simulate(*self, amount_in, buy),
            amount_in == 0 ==> r == Ok::<u64, QuoteError>(0),
            self.root_idx == 0 ==> r == Ok::<u64, QuoteError>(0),
    {
        if amount_in == 0 {
            return Ok(0);
        }
        if self.root_idx >= 1000 {
            return Err(QuoteError::LayoutError);
        }
        let side = if buy {
            Side::Ask
        } else {
            Side::Bid
        };
        let best = match self.best_slot_from(side, self.root_idx as usize) {
            None => {
                return Err(QuoteError::LayoutError);
            },
            Some(best) => best,
        };
        let mut remaining: u64 = amount_in;
        let mut received: u64 = 0;
        let mut at: u64 = best as u64;
        let mut fuel: usize = NODE_CAPACITY;
        let mut seen = [false;1000];
        let ghost mut filled: Set<int> = Set::empty();
        let ghost goal = fill_from(
            self.nodes@,
            buy,
            best as int,
            amount_in as int,
            0,
            Set::empty(),
            NODE_CAPACITY as nat,
        );
        while remaining > 0 && at != 0
            invariant
                simulate(*self, amount_in, buy) == scaled_down(goal),
                forall|i: int| 0 <= i < NODE_CAPACITY ==> seen@[i] == filled.contains(i),
                goal == fill_from(
                    self.nodes@,
                    buy,
                    at as int,
                    remaining as int,
                    received as int,
                    filled,
                    fuel as nat,
                ),
            decreases fuel,
        {
            if at >= 1000 || seen[at as usize] {
                return Err(QuoteError::LayoutError);
            }
            let node = self.nodes[at as usize];
            let price = node.price;
            let amount = node.amount;
            if price == 0 {
                return Ok(received / PRECISION);
            }
            if fuel == 0 {
                return Err(QuoteError::LayoutError);
            }
            if buy {
                let cost = match amount.checked_mul(price) {
                    None => {
                        return Err(QuoteError::ArithmeticOverflow);
                    },
                    Some(cost) => cost,
                };
                if cost > remaining {
                    match received.checked_add(remaining / price) {
                        None => {
                            return Err(QuoteError::ArithmeticOverflow);
                        },
                        Some(total) => {
                            return Ok(total / PRECISION);
                        },
                    }
                }
                received = match received.checked_add(amount) {
                    None => {
                        return Err(QuoteError::ArithmeticOverflow);
                    },
                    Some(total) => total,
                };
                remaining = remaining - cost;
            } else {
                if amount > remaining {
                    let proceeds = match remaining.checked_mul(price) {
                        None => {
                            return Err(QuoteError::ArithmeticOverflow);
                        },
                        Some(proceeds) => proceeds,
                    };
                    match received.checked_add(proceeds) {
                        None => {
                            return Err(QuoteError::ArithmeticOverflow);
                        },
                        Some(total) => {
                            return Ok(total / PRECISION);
                        },
                    }
                }
                let proceeds = match amount.checked_mul(price) {
                    None => {
                        return Err(QuoteError::ArithmeticOverflow);
                    },
                    Some(proceeds) => proceeds,
                };
                received = match received.checked_add(proceeds) {
                    None => {
                        return Err(QuoteError::ArithmeticOverflow);
                    },
                    Some(total) => total,
                };
                remaining = remaining - amount;
            }
            seen[at as usize] = true;
            proof {
                filled = filled.insert(at as int);
            }
            at = node.next;
            fuel -= 1;
        }
        Ok(received / PRECISION)
    }
}

} // verus!
