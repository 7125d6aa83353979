use vstd::prelude::*;

use crate::error::QuoteError;
use crate::state::{Node, OrderTree, Side, NODE_CAPACITY};

verus! {

/// The child that lies toward the best price of `side`: the lower-priced
/// subtree for asks, the higher-priced one for bids.
pub open spec fn edge_child(node: Node, side: Side) -> u64 {
    match side {
        Side::Ask => node.left,
        Side::Bid => node.right,
    }
}

/// Whether `slot` names an order: it is not the sentinel and lies inside the
/// table.
pub open spec fn is_live(nodes: Seq<Node>, slot: int) -> bool {
    0 < slot < nodes.len()
}

/// Whether `slot` lies outside the table.
pub open spec fn is_outside(nodes: Seq<Node>, slot: int) -> bool {
    slot < 0 || slot >= nodes.len()
}

/// The slot reached after `steps` moves toward the best price of `side`,
/// starting at `start`. The sentinel and slots outside the table are left
/// where they are.
pub open spec fn edge_path(nodes: Seq<Node>, side: Side, start: int, steps: nat) -> int
    decreases steps,
{
    if steps == 0 {
        start
    } else {
        let before = edge_path(nodes, side, start, (steps - 1) as nat);
        if is_live(nodes, before) {
            edge_child(nodes[before], side) as int
        } else {
            before
        }
    }
}

/// The descent from `start` reaches a slot outside the table.
pub open spec fn leaves_table(nodes: Seq<Node>, side: Side, start: int) -> bool {
    exists|k: nat| is_outside(nodes, #[trigger] edge_path(nodes, side, start, k))
}

/// The descent from `start` comes back to an order it has already visited.
pub open spec fn revisits(nodes: Seq<Node>, side: Side, start: int) -> bool {
    exists|i: nat, j: nat|
        #![trigger edge_path(nodes, side, start, i), edge_path(nodes, side, start, j)]
        i < j && edge_path(nodes, side, start, i) == edge_path(nodes, side, start, j) && is_live(
            nodes,
            edge_path(nodes, side, start, i),
        )
}

/// The slot that holds the best price of `side` in the subtree rooted at
/// `start`, found in at most `fuel` moves: 0 for the empty subtree, `None`
/// where the descent leaves the table or does not end within `fuel` moves.
pub open spec fn edge_slot(nodes: Seq<Node>, side: Side, start: int, fuel: nat) -> Option<int>
    decreases fuel,
{
    if start == 0 {
        Some(0)
    } else if start < 0 || start >= nodes.len() || fuel == 0 {
        None
    } else if edge_child(nodes[start], side) == 0 {
        Some(start)
    } else {
        edge_slot(nodes, side, edge_child(nodes[start], side) as int, (fuel - 1) as nat)
    }
}

/// The best price of `side` in the subtree rooted at `start`: 0 for the
/// empty subtree, otherwise the price of the node at the end of the descent.
/// A descent that leaves the table, or that is still going after as many
/// moves as the table has slots and so has come back to a slot it has seen,
/// is a layout error.
pub open spec fn best_from(nodes: Seq<Node>, side: Side, start: int) -> Result<u64, QuoteError> {
    match edge_slot(nodes, side, start, NODE_CAPACITY as nat) {
        None => Err(QuoteError::LayoutError),
        Some(slot) => Ok(
            if slot == 0 {
                0
            } else {
                nodes[slot].price
            },
        ),
    }
}

/// A descent that starts at a live slot never ends at the sentinel.
proof fn lemma_edge_slot_live(nodes: Seq<Node>, side: Side, start: int, fuel: nat)
    requires
        start != 0,
    ensures
        edge_slot(nodes, side, start, fuel) != Some(0int),
    decreases fuel,
{
    if 0 < start < nodes.len() && fuel != 0 && edge_child(nodes[start], side) != 0 {
        lemma_edge_slot_live(
            nodes,
            side,
            edge_child(nodes[start], side) as int,
            (fuel - 1) as nat,
        );
    }
}

/// The order at the end of the descent from the root, where there is one,
/// carries a price other than 0.
pub open spec fn best_order_priced(tree: OrderTree, side: Side) -> bool {
    match edge_slot(tree.nodes@, side, tree.root_idx as int, NODE_CAPACITY as nat) {
        Some(slot) => slot != 0 ==> tree.nodes@[slot].price != 0,
        None => true,
    }
}

/// On a well-formed book whose best order is priced, the best price is 0
/// exactly when the book is empty.
pub proof fn lemma_best_price_zero_iff_empty(tree: OrderTree, side: Side)
    requires
        tree.well_formed(),
        best_order_priced(tree, side),
    ensures
        best_from(tree.nodes@, side, tree.root_idx as int) == Ok::<u64, QuoteError>(0)
            <==> tree.root_idx == 0,
{
    if tree.root_idx != 0 {
        lemma_edge_slot_live(tree.nodes@, side, tree.root_idx as int, NODE_CAPACITY as nat);
    }
}

impl OrderTree {
    /// The side that the tree's own `market_buy` flag asks to walk: the
    /// lowest price where it is nonzero, the highest where it is zero.
    pub open spec fn flagged_side(&self) -> Side {
        if self.market_buy > 0 {
            Side::Ask
        } else {
            Side::Bid
        }
    }

    /// The slot that holds the best price of `side` in the subtree rooted at
    /// `start`: 0 for the empty subtree, none where the descent leaves the
    /// table or comes back to a slot it has visited.
    pub fn best_slot_from(&self, side: Side, start: usize) -> (r: Option<usize>)
        ensures
            r is Some == edge_slot(self.nodes@, side, start as int, NODE_CAPACITY as nat) is Some,
            r is Some ==> r->Some_0 == edge_slot(
                self.nodes@,
                side,
                start as int,
                NODE_CAPACITY as nat,
            )->Some_0,
            r is Some ==> r->Some_0 < NODE_CAPACITY,
    {
        let mut slot: usize = start;
        let mut fuel: usize = NODE_CAPACITY;
        while slot != 0 && slot < NODE_CAPACITY && fuel > 0
            invariant
                edge_slot(self.nodes@, side, start as int, NODE_CAPACITY as nat) == edge_slot(
                    self.nodes@,
                    side,
                    slot as int,
                    fuel as nat,
                ),
            decreases fuel,
        {
            let node = self.nodes[slot];
            let child = match side {
                Side::Ask => node.left,
                Side::Bid => node.right,
            };
            if child == 0 {
                return Some(slot);
            }
            if child >= 1000 {
                assert(edge_slot(self.nodes@, side, child as int, (fuel - 1) as nat).is_none());
                return None;
            }
            slot = child as usize;
            fuel -= 1;
        }
        if slot == 0 {
            Some(0)
        } else {
            None
        }
    }

    /// The best price of `side` in the subtree rooted at `start`.
    pub fn best_price_from(&self, side: Side, start: usize) -> (r: Result<u64, QuoteError>)
        ensures
            r == best_from(self.nodes@, side, start as int),
    {
        match self.best_slot_from(side, start) {
            None => Err(QuoteError::LayoutError),
            Some(slot) => if slot == 0 {
                Ok(0)
            } else {
                Ok(self.nodes[slot].price)
            },
        }
    }

    /// The best price of `side` in the whole book, 0 for an empty book.
    pub fn best_price(&self, side: Side) -> (r: Result<u64, QuoteError>)
        ensures
            r == best_from(self.nodes@, side, self.root_idx as int),
            self.root_idx == 0 ==> r == Ok::<u64, QuoteError>(0),
    {
        if self.root_idx >= 1000 {
            return Err(QuoteError::LayoutError);
        }
        self.best_price_from(side, self.root_idx as usize)
    }

    /// The best price in the subtree rooted at `root_idx`, on the side that
    /// the tree's `market_buy` flag names.
    pub fn get_best(&self, root_idx: usize) -> (r: Result<u64, QuoteError>)
        ensures
            r == best_from(self.nodes@, self.flagged_side(), root_idx as int),
    {
        let side = if self.market_buy > 0 {
            Side::Ask
        } else {
            Side::Bid
        };
        self.best_price_from(side, root_idx)
    }
}

/// Among `n + 1` values below `m`, where `m <= n`, two are equal.
proof fn lemma_pigeonhole(f: spec_fn(int) -> int, n: int, m: int)
    requires
        0 <= m <= n,
        forall|k: int| 0 <= k <= n ==> 0 <= #[trigger] f(k) < m,
    ensures
        exists|i: int, j: int| #![trigger f(i), f(j)] 0 <= i < j <= n && f(i) == f(j),
    decreases m,
{
    if m == 0 {
        assert(0 <= f(0) < m);
    } else {
        let last = f(n);
        if exists|i: int| 0 <= i < n && #[trigger] f(i) == last {
            let i = choose|i: int| 0 <= i < n && #[trigger] f(i) == last;
            assert(0 <= i < n <= n && f(i) == f(n));
        } else {
            let g = |k: int|
                if f(k) > last {
                    f(k) - 1
                } else {
                    f(k)
                };
            assert forall|k: int| 0 <= k <= n - 1 implies 0 <= #[trigger] g(k) < m - 1 by {
                assert(0 <= f(k) < m);
                assert(f(k) != last);
                assert(0 <= f(n) < m);
            }
            lemma_pigeonhole(g, n - 1, m - 1);
            let (i, j) = choose|i: int, j: int|
                #![trigger g(i), g(j)]
                0 <= i < j <= n - 1 && g(i) == g(j);
            assert(f(i) != last && f(j) != last);
            assert(0 <= i < j <= n && f(i) == f(j));
        }
    }
}

/// The path from a live slot's child is the path from the slot, one move on.
proof fn lemma_edge_path_shift(nodes: Seq<Node>, side: Side, start: int, steps: nat)
    requires
        is_live(nodes, start),
    ensures
        edge_path(nodes, side, edge_child(nodes[start], side) as int, steps) == edge_path(
            nodes,
            side,
            start,
            steps + 1,
        ),
    decreases steps,
{
    if steps > 0 {
        lemma_edge_path_shift(nodes, side, start, (steps - 1) as nat);
        assert((steps - 1) as nat + 1 == steps);
    } else {
        assert(edge_path(nodes, side, start, 0) == start);
    }
    assert((steps + 1 - 1) as nat == steps);
}

/// Once the path is at the sentinel or outside the table, it stays there.
proof fn lemma_edge_path_stuck(nodes: Seq<Node>, side: Side, start: int, m: nat, k: nat)
    requires
        !is_live(nodes, edge_path(nodes, side, start, m)),
        m <= k,
    ensures
        edge_path(nodes, side, start, k) == edge_path(nodes, side, start, m),
    decreases k,
{
    if k > m {
        lemma_edge_path_stuck(nodes, side, start, m, (k - 1) as nat);
    }
}

/// A path that is at the same slot after `i` and after `j` moves is at the
/// same slot `t` moves after either.
proof fn lemma_edge_path_period(
    nodes: Seq<Node>,
    side: Side,
    start: int,
    i: nat,
    j: nat,
    t: nat,
)
    requires
        edge_path(nodes, side, start, i) == edge_path(nodes, side, start, j),
    ensures
        edge_path(nodes, side, start, i + t) == edge_path(nodes, side, start, j + t),
    decreases t,
{
    if t > 0 {
        lemma_edge_path_period(nodes, side, start, i, j, (t - 1) as nat);
        assert(i + t - 1 == i + (t - 1) as nat);
        assert(j + t - 1 == j + (t - 1) as nat);
    }
}

/// A path that is at the same slot after `i` and after `j` moves is there
/// again after every further `j - i` moves.
proof fn lemma_edge_path_rounds(
    nodes: Seq<Node>,
    side: Side,
    start: int,
    i: nat,
    j: nat,
    rounds: nat,
)
    requires
        i < j,
        edge_path(nodes, side, start, i) == edge_path(nodes, side, start, j),
    ensures
        edge_path(nodes, side, start, (i + rounds * (j - i)) as nat) == edge_path(
            nodes,
            side,
            start,
            i,
        ),
        i + rounds * (j - i) >= rounds,
    decreases rounds,
{
    let d = (j - i) as nat;
    if rounds > 0 {
        let before = (rounds - 1) as nat;
        lemma_edge_path_rounds(nodes, side, start, i, j, before);
        assert(rounds * d == before * d + d && before * d >= 0) by (nonlinear_arith)
            requires
                rounds == before + 1,
                d >= 1,
        ;
        lemma_edge_path_period(nodes, side, start, i, j, before * d);
        assert(j + before * d == i + rounds * d);
    } else {
        assert(rounds * d == 0) by (nonlinear_arith)
            requires
                rounds == 0,
        ;
    }
}

/// A path that comes back to an order never leaves the orders.
proof fn lemma_revisiting_path_is_live(
    nodes: Seq<Node>,
    side: Side,
    start: int,
    i: nat,
    j: nat,
    k: nat,
)
    requires
        i < j,
        edge_path(nodes, side, start, i) == edge_path(nodes, side, start, j),
        is_live(nodes, edge_path(nodes, side, start, i)),
    ensures
        is_live(nodes, edge_path(nodes, side, start, k)),
{
    if !is_live(nodes, edge_path(nodes, side, start, k)) {
        lemma_edge_path_rounds(nodes, side, start, i, j, k);
        lemma_edge_path_stuck(nodes, side, start, k, (i + k * (j - i)) as nat);
    }
}

/// A descent whose path stays among the orders for `fuel` moves and more
/// does not end within `fuel` moves.
proof fn lemma_live_path_rejected(nodes: Seq<Node>, side: Side, start: int, fuel: nat)
    requires
        forall|k: nat| k <= fuel + 1 ==> is_live(nodes, #[trigger] edge_path(nodes, side, start, k)),
    ensures
        edge_slot(nodes, side, start, fuel) is None,
    decreases fuel,
{
    assert(is_live(nodes, edge_path(nodes, side, start, 0)));
    assert(is_live(nodes, edge_path(nodes, side, start, 1)));
    if fuel > 0 {
        let child = edge_child(nodes[start], side) as int;
        assert forall|k: nat| k <= fuel implies is_live(
            nodes,
            #[trigger] edge_path(nodes, side, child, k),
        ) by {
            lemma_edge_path_shift(nodes, side, start, k);
            assert(is_live(nodes, edge_path(nodes, side, start, k + 1)));
        }
        lemma_live_path_rejected(nodes, side, child, (fuel - 1) as nat);
    }
}

/// A descent that comes back to an order it has visited is rejected, with
/// whatever fuel.
pub proof fn lemma_revisit_rejected(
    nodes: Seq<Node>,
    side: Side,
    start: int,
    i: nat,
    j: nat,
    fuel: nat,
)
    requires
        i < j,
        edge_path(nodes, side, start, i) == edge_path(nodes, side, start, j),
        is_live(nodes, edge_path(nodes, side, start, i)),
    ensures
        edge_slot(nodes, side, start, fuel) is None,
{
    assert forall|k: nat| k <= fuel + 1 implies is_live(
        nodes,
        #[trigger] edge_path(nodes, side, start, k),
    ) by {
        lemma_revisiting_path_is_live(nodes, side, start, i, j, k);
    }
    lemma_live_path_rejected(nodes, side, start, fuel);
}

/// A descent whose path reaches a slot outside the table is rejected, with
/// whatever fuel.
pub proof fn lemma_leaving_rejected(nodes: Seq<Node>, side: Side, start: int, k: nat, fuel: nat)
    requires
        nodes.len() > 0,
        is_outside(nodes, edge_path(nodes, side, start, k)),
    ensures
        edge_slot(nodes, side, start, fuel) is None,
    decreases k,
{
    if !is_live(nodes, start) {
        lemma_edge_path_stuck(nodes, side, start, 0, k);
    } else if fuel > 0 {
        let child = edge_child(nodes[start], side) as int;
        if k == 0 {
        } else {
            lemma_edge_path_shift(nodes, side, start, (k - 1) as nat);
            if child == 0 {
                lemma_edge_path_stuck(nodes, side, child, 0, (k - 1) as nat);
            } else {
                lemma_leaving_rejected(nodes, side, child, (k - 1) as nat, (fuel - 1) as nat);
            }
        }
    }
}

/// A rejected descent has left the table within `fuel` moves, or has stayed
/// among the orders for all of them.
proof fn lemma_rejected_path(nodes: Seq<Node>, side: Side, start: int, fuel: nat)
    requires
        edge_slot(nodes, side, start, fuel) is None,
    ensures
        leaves_table(nodes, side, start) || forall|k: nat|
            k <= fuel ==> is_live(nodes, #[trigger] edge_path(nodes, side, start, k)),
    decreases fuel,
{
    if is_outside(nodes, start) {
        assert(is_outside(nodes, edge_path(nodes, side, start, 0)));
    } else if fuel > 0 {
        let child = edge_child(nodes[start], side) as int;
        lemma_rejected_path(nodes, side, child, (fuel - 1) as nat);
        if leaves_table(nodes, side, child) {
            let k = choose|k: nat| is_outside(nodes, #[trigger] edge_path(nodes, side, child, k));
            lemma_edge_path_shift(nodes, side, start, k);
            assert(is_outside(nodes, edge_path(nodes, side, start, k + 1)));
        } else {
            assert forall|k: nat| k <= fuel implies is_live(
                nodes,
                #[trigger] edge_path(nodes, side, start, k),
            ) by {
                if k > 0 {
                    lemma_edge_path_shift(nodes, side, start, (k - 1) as nat);
                    assert(is_live(nodes, edge_path(nodes, side, child, (k - 1) as nat)));
                }
            }
        }
    }
}

/// The best-price query fails exactly where the descent leaves the table or
/// comes back to an order it has already visited.
pub proof fn lemma_best_from_fails_iff(nodes: Seq<Node>, side: Side, start: int)
    requires
        nodes.len() == NODE_CAPACITY,
    ensures
        best_from(nodes, side, start) is Err <==> leaves_table(nodes, side, start) || revisits(
            nodes,
            side,
            start,
        ),
{
    let fuel = NODE_CAPACITY as nat;
    if leaves_table(nodes, side, start) {
        let k = choose|k: nat| is_outside(nodes, #[trigger] edge_path(nodes, side, start, k));
        lemma_leaving_rejected(nodes, side, start, k, fuel);
    } else if revisits(nodes, side, start) {
        let (i, j) = choose|i: nat, j: nat|
            #![trigger edge_path(nodes, side, start, i), edge_path(nodes, side, start, j)]
            i < j && edge_path(nodes, side, start, i) == edge_path(nodes, side, start, j)
                && is_live(nodes, edge_path(nodes, side, start, i));
        lemma_revisit_rejected(nodes, side, start, i, j, fuel);
    } else if edge_slot(nodes, side, start, fuel) is None {
        lemma_rejected_path(nodes, side, start, fuel);
        let f = |k: int| edge_path(nodes, side, start, k as nat) - 1;
        assert forall|k: int| 0 <= k <= 1000 implies 0 <= #[trigger] f(k) < 999 by {
            assert(is_live(nodes, edge_path(nodes, side, start, k as nat)));
        }
        lemma_pigeonhole(f, 1000, 999);
        let (i, j) = choose|i: int, j: int| #![trigger f(i), f(j)] 0 <= i < j <= 1000 && f(i) == f(j);
        assert(is_live(nodes, edge_path(nodes, side, start, i as nat)));
        assert(edge_path(nodes, side, start, i as nat) == edge_path(nodes, side, start, j as nat));
        assert(revisits(nodes, side, start));
    }
}

/// On a well-formed tree the descent from the root stays inside the table.
proof fn lemma_well_formed_stays_inside(tree: OrderTree, side: Side, k: nat)
    requires
        tree.well_formed(),
    ensures
        !is_outside(tree.nodes@, edge_path(tree.nodes@, side, tree.root_idx as int, k)),
    decreases k,
{
    if k > 0 {
        lemma_well_formed_stays_inside(tree, side, (k - 1) as nat);
    }
}

/// On a well-formed tree the best-price query fails exactly where the
/// descent from the root comes back to an order it has already visited.
pub proof fn lemma_best_price_fails_iff_cyclic(tree: OrderTree, side: Side)
    requires
        tree.well_formed(),
    ensures
        best_from(tree.nodes@, side, tree.root_idx as int) is Err <==> revisits(
            tree.nodes@,
            side,
            tree.root_idx as int,
        ),
{
    lemma_best_from_fails_iff(tree.nodes@, side, tree.root_idx as int);
    if leaves_table(tree.nodes@, side, tree.root_idx as int) {
        let k = choose|k: nat|
            is_outside(tree.nodes@, #[trigger] edge_path(tree.nodes@, side, tree.root_idx as int, k));
        lemma_well_formed_stays_inside(tree, side, k);
    }
}

} // verus!
