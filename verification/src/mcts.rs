//! Monte Carlo tree search: a tree of the moves tried so far, grown by one
//! random playout at a time.
//!
//! Every node counts the playouts that went through it, from the point of
//! view of the player who is to move there. Which child a search descends
//! into is decided by a valuation that the caller supplies: a function from
//! the counts of a child and the number of playouts made so far to a number;
//! the child with the greatest number is taken.

use vstd::prelude::*;
use rand::rngs::StdRng;
use std::marker::PhantomData;
use crate::clock::{elapsed, now, whole_millis};
use crate::game::{
    indices_where, indices_where_lists, mover_after, opponent, play_begins, play_goes_on,
    play_stays_well_formed, preview, reached, AiPlayer, PvpGame,
};
use crate::rng::{next_ratio, next_usize};
use crate::state::GameState;

verus! {

/// A node with an unexpanded child expands one with a chance of
/// `EXPLORE_NUM` in `EXPLORE_DEN`.
pub const EXPLORE_NUM: u32 = 1;

pub const EXPLORE_DEN: u32 = 2;

/// The most playouts that one search makes.
pub const MAX_ROLLOUTS: usize = 0xffff_ffff;

/// The outcomes of the playouts through a node.
#[derive(Clone, Copy, Debug, PartialEq, Eq, Structural)]
pub struct Stat {
    pub win: usize,
    pub loss: usize,
    pub tie: usize,
}

impl Stat {
    /// The number of playouts counted.
    pub open spec fn total(self) -> nat {
        (self.win + self.loss + self.tie) as nat
    }

    /// The same outcomes seen by the other player.
    pub open spec fn inverted(self) -> Stat {
        Stat { win: self.loss, loss: self.win, tie: self.tie }
    }

    /// Wins minus losses.
    pub open spec fn margin(self) -> int {
        self.win - self.loss
    }

    /// The counts are those of `before` and `added` together.
    pub open spec fn sums(self, before: Stat, added: Stat) -> bool {
        &&& self.win == before.win + added.win
        &&& self.loss == before.loss + added.loss
        &&& self.tie == before.tie + added.tie
    }

    /// No playout counted.
    pub fn zero() -> (stat: Stat)
        ensures
            stat == (Stat { win: 0, loss: 0, tie: 0 }),
    {
        Stat { win: 0, loss: 0, tie: 0 }
    }

    pub fn invert(&self) -> (other: Stat)
        ensures
            other == self.inverted(),
    {
        Stat { win: self.loss, loss: self.win, tie: self.tie }
    }

    /// Adds the counts of `other`.
    pub fn accumulate(&mut self, other: &Stat)
        requires
            old(self).total() + other.total() <= usize::MAX,
        ensures
            final(self).sums(*old(self), *other),
    {
        self.win = self.win + other.win;
        self.tie = self.tie + other.tie;
        self.loss = self.loss + other.loss;
    }
}

/// What one finished game counts for `player`.
pub open spec fn tally_of(end: GameState, player: usize) -> Stat {
    match end {
        GameState::Win(p) => if p == player {
            Stat { win: 1, loss: 0, tie: 0 }
        } else {
            Stat { win: 0, loss: 1, tie: 0 }
        },
        GameState::Tie => Stat { win: 0, loss: 0, tie: 1 },
        _ => Stat { win: 0, loss: 0, tie: 0 },
    }
}

/// Counts one finished game for `player`.
pub fn tally(end: GameState, player: usize) -> (stat: Stat)
    ensures
        stat == tally_of(end, player),
{
    match end {
        GameState::Win(p) => if p == player {
            Stat { win: 1, loss: 0, tie: 0 }
        } else {
            Stat { win: 0, loss: 1, tie: 0 }
        },
        GameState::Tie => Stat { win: 0, loss: 0, tie: 1 },
        _ => Stat { win: 0, loss: 0, tie: 0 },
    }
}

/// The rating of `a`, wins minus losses over one more than the playouts, is
/// greater than that of `b`.
pub open spec fn rates_above(a: Stat, b: Stat) -> bool {
    a.margin() * (b.total() + 1) > b.margin() * (a.total() + 1)
}

/// Compares the ratings of two counts exactly.
pub fn rated_above(a: &Stat, b: &Stat) -> (above: bool)
    requires
        a.total() <= MAX_ROLLOUTS,
        b.total() <= MAX_ROLLOUTS,
    ensures
        above == rates_above(*a, *b),
{
    let margin_a: i128 = a.win as i128 - a.loss as i128;
    let margin_b: i128 = b.win as i128 - b.loss as i128;
    let weight_a: i128 = a.win as i128 + a.loss as i128 + a.tie as i128 + 1;
    let weight_b: i128 = b.win as i128 + b.loss as i128 + b.tie as i128 + 1;
    assert(-0x1_0000_0000 * 0x1_0000_0000 <= margin_a * weight_b <= 0x1_0000_0000 * 0x1_0000_0000)
        by (nonlinear_arith)
        requires
            -0x1_0000_0000 <= margin_a <= 0x1_0000_0000,
            0 <= weight_b <= 0x1_0000_0000,
    ;
    assert(-0x1_0000_0000 * 0x1_0000_0000 <= margin_b * weight_a <= 0x1_0000_0000 * 0x1_0000_0000)
        by (nonlinear_arith)
        requires
            -0x1_0000_0000 <= margin_b <= 0x1_0000_0000,
            0 <= weight_a <= 0x1_0000_0000,
    ;
    margin_a * weight_b > margin_b * weight_a
}

/// Ratings are ordered: what is not above a count that is below another is
/// below that other.
pub proof fn rating_order(a: Stat, b: Stat, c: Stat)
    requires
        !rates_above(a, b),
        rates_above(c, b),
    ensures
        rates_above(c, a),
{
    let (ma, mb, mc) = (a.margin(), b.margin(), c.margin());
    let (wa, wb, wc) = ((a.total() + 1) as int, (b.total() + 1) as int, (c.total() + 1) as int);
    assert(mc * wa > ma * wc) by (nonlinear_arith)
        requires
            ma * wb <= mb * wa,
            mc * wb > mb * wc,
            wa > 0,
            wb > 0,
            wc > 0,
    {
        assert(ma * wb * wc <= mb * wa * wc);
        assert(mc * wb * wa > mb * wc * wa);
        assert(mc * wa * wb > ma * wc * wb);
    }
}

/// A move of a node and the subtree below it, once it has been expanded.
pub struct Child(pub usize, pub Option<Tree>);

/// A node of the search tree.
pub struct Tree {
    pub stat: Stat,
    pub children: Vec<Child>,
}

/// The counts of a child; those of an unexpanded child are all 0.
pub open spec fn stat_of(child: Child) -> Stat {
    match child.1 {
        Some(tree) => tree.stat,
        None => Stat { win: 0, loss: 0, tie: 0 },
    }
}

/// The valuation may be called on all counts.
pub open spec fn callable<S: Fn(&Stat, usize) -> i64>(select: &S) -> bool {
    forall|stat: Stat, rollouts: usize| call_requires(*select, (&stat, rollouts))
}

/// A valuation of children: a function from the counts of a child and the
/// number of playouts made so far to the number by which children are
/// compared.
pub struct Valuation<S: Fn(&Stat, usize) -> i64> {
    select: S,
}

impl<S: Fn(&Stat, usize) -> i64> Valuation<S> {
    #[verifier::type_invariant]
    spec fn total(&self) -> bool {
        callable(&self.select)
    }

    /// `value` is a value that the wrapped function may give to a child with
    /// the counts `stat` after `rollouts` playouts.
    pub closed spec fn gives(&self, stat: Stat, rollouts: usize, value: i64) -> bool {
        call_ensures(self.select, (&stat, rollouts), value)
    }

    /// Wraps a function that may be called on all counts.
    pub fn new(select: S) -> (valuation: Self)
        requires
            callable(&select),
        ensures
            forall|stat: Stat, rollouts: usize, value: i64|
                #[trigger] valuation.gives(stat, rollouts, value) == call_ensures(
                    select,
                    (&stat, rollouts),
                    value,
                ),
    {
        Valuation { select }
    }

    /// The value of a child with the counts `stat` after `rollouts` playouts.
    pub fn value(&self, stat: &Stat, rollouts: usize) -> (value: i64)
        ensures
            self.gives(*stat, rollouts, value),
    {
        proof {
            use_type_invariant(self);
        }
        (self.select)(stat, rollouts)
    }
}

/// `idx` is the first greatest of the values; 0 where there are none.
pub open spec fn is_first_max(values: Seq<i64>, idx: int) -> bool {
    if values.len() == 0 {
        idx == 0
    } else {
        &&& 0 <= idx < values.len()
        &&& forall|j: int| 0 <= j < values.len() ==> values[j] <= values[idx]
        &&& forall|j: int| 0 <= j < idx ==> values[j] < values[idx]
    }
}

/// The position of the first greatest value.
pub fn first_max(values: &Vec<i64>) -> (idx: usize)
    ensures
        is_first_max(values@, idx as int),
{
    let mut best_val: i64 = i64::MIN;
    let mut child_idx: usize = 0;
    let mut c: usize = 0;
    while c < values.len()
        invariant
            c <= values.len(),
            c == 0 ==> child_idx == 0 && best_val == i64::MIN,
            c > 0 ==> child_idx < c && best_val == values@[child_idx as int],
            forall|j: int| 0 <= j < c ==> values@[j] <= best_val,
            forall|j: int| 0 <= j < child_idx ==> values@[j] < best_val,
        decreases values.len() - c,
    {
        let val: i64 = values[c];
        if val > best_val {
            best_val = val;
            child_idx = c;
        }
        c = c + 1;
    }
    child_idx
}

/// The moves that a search tries on a board: the listed moves while the game
/// is running, and none once it is over.
pub open spec fn moves_to_try<G: PvpGame<usize>>(board: G, mover: usize) -> Seq<usize> {
    if board.status_of() is Running {
        board.moves_of(mover)
    } else {
        Seq::empty()
    }
}

/// The positions of the children that are not expanded, in ascending order.
pub open spec fn unexpanded_of(kids: Seq<Child>) -> Seq<usize> {
    indices_where(kids.len(), |i: int| kids[i].1 is None)
}

impl Tree {
    /// The length of the longest path down from the node.
    pub open spec fn depth(&self) -> nat
        decreases self,
    {
        Self::deepest(self.children@, self.children@.len())
    }

    /// The greatest depth, plus one, of a subtree among the first `upto`
    /// children; 0 where none of them is expanded.
    pub open spec fn deepest(kids: Seq<Child>, upto: nat) -> nat
        decreases kids, upto,
    {
        if upto == 0 || upto > kids.len() {
            0
        } else {
            let rest = Self::deepest(kids, (upto - 1) as nat);
            match kids[upto - 1].1 {
                Some(t) => if t.depth() + 1 > rest {
                    t.depth() + 1
                } else {
                    rest
                },
                None => rest,
            }
        }
    }

    /// No node of the tree counts more than `limit` playouts.
    pub open spec fn bounded(&self, limit: nat) -> bool
        decreases self,
    {
        &&& self.stat.total() <= limit
        &&& forall|i: int|
            0 <= i < self.children@.len() ==> (#[trigger] self.children@[i].1 matches Some(t)
                ==> t.bounded(limit))
    }

    /// The tree follows the game: the children of a node are the moves to try
    /// for the player to move, in their order, and the subtree of a move
    /// follows the game from the board after that move.
    pub open spec fn mirrors<G: PvpGame<usize>>(&self, board: G, mover: usize) -> bool
        decreases self,
    {
        &&& self.children@.len() == moves_to_try(board, mover).len()
        &&& forall|i: int|
            0 <= i < self.children@.len() ==> {
                &&& (#[trigger] self.children@[i]).0 == moves_to_try(board, mover)[i]
                &&& (self.children@[i].1 matches Some(t) ==> t.mirrors(
                    board.after(self.children@[i].0, mover),
                    opponent(mover),
                ))
            }
    }

    /// Every child has been expanded.
    pub open spec fn is_expanded(&self) -> bool {
        forall|i: int| 0 <= i < self.children@.len() ==> (#[trigger] self.children@[i]).1 is Some
    }

    /// A subtree is less deep than the node above it.
    pub proof fn deepest_bounds(kids: Seq<Child>, upto: nat, i: int)
        requires
            0 <= i < upto <= kids.len(),
        ensures
            kids[i].1 matches Some(t) ==> t.depth() < Self::deepest(kids, upto),
        decreases upto,
    {
        if i < upto - 1 {
            Self::deepest_bounds(kids, (upto - 1) as nat, i);
        }
    }

    /// A tree within a limit is within every greater limit.
    pub proof fn bounded_grows(&self, limit: nat, more: nat)
        requires
            self.bounded(limit),
            limit <= more,
        ensures
            self.bounded(more),
        decreases self,
    {
        assert forall|i: int| 0 <= i < self.children@.len() implies (
        #[trigger] self.children@[i].1 matches Some(t) ==> t.bounded(more)) by {
            match self.children@[i].1 {
                Some(t) => {
                    t.bounded_grows(limit, more);
                },
                None => {},
            }
        }
    }

    /// A fresh node for the board on which `mover` is to move: one unexpanded
    /// child for each move to try.
    pub fn new<G: PvpGame<usize>>(game: &G, mover: usize) -> (tree: Tree)
        ensures
            tree.stat == (Stat { win: 0, loss: 0, tie: 0 }),
            tree.mirrors(*game, mover),
            tree.bounded(0),
            forall|i: int| 0 <= i < tree.children@.len() ==> (#[trigger] tree.children@[i]).1 is None,
    {
        let moves: Vec<usize> = if game.status() == GameState::Running {
            game.possible_moves(mover)
        } else {
            Vec::new()
        };
        let mut children: Vec<Child> = Vec::new();
        let mut i: usize = 0;
        while i < moves.len()
            invariant
                i <= moves.len(),
                children@.len() == i,
                forall|j: int|
                    0 <= j < i ==> (#[trigger] children@[j]).0 == moves@[j] && children@[j].1 is None,
            decreases moves.len() - i,
        {
            children.push(Child(moves[i], None));
            i = i + 1;
        }
        Tree { stat: Stat::zero(), children }
    }

    /// Tells whether every child has been expanded.
    pub fn expanded(&self) -> (all: bool)
        ensures
            all == self.is_expanded(),
    {
        let mut i: usize = 0;
        while i < self.children.len()
            invariant
                i <= self.children@.len(),
                forall|j: int| 0 <= j < i ==> (#[trigger] self.children@[j]).1 is Some,
            decreases self.children.len() - i,
        {
            if self.children[i].1.is_none() {
                return false;
            }
            i = i + 1;
        }
        true
    }

    /// Tells whether a playout went through the node.
    pub fn visited(&self) -> (seen: bool)
        ensures
            seen == (self.stat.total() > 0),
    {
        self.stat.win > 0 || self.stat.loss > 0 || self.stat.tie > 0
    }

    /// The counts of the child at `idx`.
    pub fn child_stat(&self, idx: usize) -> (stat: Stat)
        requires
            idx < self.children@.len(),
        ensures
            stat == stat_of(self.children@[idx as int]),
    {
        match &self.children[idx].1 {
            Some(tree) => tree.stat,
            None => Stat::zero(),
        }
    }

    /// The positions of the children that are not expanded yet.
    fn unexpanded(&self) -> (open: Vec<usize>)
        ensures
            open@ == unexpanded_of(self.children@),
            forall|k: int|
                0 <= k < open@.len() ==> (#[trigger] open@[k]) < self.children@.len()
                    && self.children@[open@[k] as int].1 is None,
            !self.is_expanded() ==> open@.len() > 0,
    {
        let mut open: Vec<usize> = Vec::new();
        let ghost kids = self.children@;
        let ghost bare = |i: int| kids[i].1 is None;
        let mut i: usize = 0;
        while i < self.children.len()
            invariant
                i <= self.children@.len(),
                kids == self.children@,
                bare == (|i: int| kids[i].1 is None),
                open@ == indices_where(i as nat, bare),
            decreases self.children.len() - i,
        {
            if self.children[i].1.is_none() {
                open.push(i);
            }
            i = i + 1;
        }
        proof {
            indices_where_lists(kids.len(), bare);
            assert forall|k: int| 0 <= k < open@.len() implies (#[trigger] open@[k])
                < self.children@.len() && self.children@[open@[k] as int].1 is None by {
                assert(open@.contains(open@[k]));
            }
            if !self.is_expanded() {
                let j = choose|j: int|
                    0 <= j < self.children@.len() && !((#[trigger] self.children@[j]).1 is Some);
                assert(bare(j));
                assert(open@.contains(j as usize));
            }
        }
        open
    }

    /// One step of the search. From a node whose children are all expanded
    /// the step goes on in the child that `select` values most. From a node
    /// with an unexpanded child it either expands one, drawn by chance, and
    /// plays the game out from there, or plays the game out from the node
    /// itself. The outcome is counted in every node on the way, each time
    /// from the point of view of the player to move there.
    ///
    /// The result is the outcome as the player who moved into this node sees
    /// it.
    pub fn improve<G: PvpGame<usize>, S: Fn(&Stat, usize) -> i64>(
        &mut self,
        rollouts: usize,
        rng: &mut StdRng,
        select: &Valuation<S>,
        game: G,
        player: usize,
    ) -> (back: Stat)
        requires
            player < 2,
            rollouts < MAX_ROLLOUTS,
            game.wf(),
            old(self).mirrors(game, player),
            old(self).bounded(rollouts as nat),
        ensures
            improved(*old(self), *final(self), rollouts, select, game, player, back),
        decreases old(self).depth(), 1nat,
    {
        let count: usize = self.children.len();
        let mut expand: bool = false;
        let mut draw: usize = 0;
        if count > 0 && !self.expanded() {
            expand = next_ratio(rng, EXPLORE_NUM, EXPLORE_DEN);
            if expand {
                draw = next_usize(rng);
            }
        }
        proof {
            if !self.is_expanded() && expand {
                indices_where_lists(self.children@.len(), |i: int| self.children@[i].1 is None);
                let open = unexpanded_of(self.children@);
                let j = choose|j: int|
                    0 <= j < self.children@.len() && !((#[trigger] self.children@[j]).1 is Some);
                assert(open.contains(j as usize));
                assert(open.contains(open[(draw as int) % (open.len() as int)]));
            }
        }
        self.grow(rollouts, rng, select, game, player, expand, draw)
    }

    /// One step of the search with the draws given: `expand` tells whether a
    /// node with an unexpanded child expands one, and `draw` picks the child,
    /// counted round the unexpanded ones.
    ///
    /// From a node whose children are all expanded the step goes on in the
    /// first child that `select` values most, and only that child changes.
    /// From a node with an unexpanded child, with `expand` the child picked by
    /// `draw` is expanded and holds the outcome of a game played out from
    /// there; without it no child changes and the game is played out from the
    /// node itself. A node without children plays the game out from itself.
    pub fn grow<G: PvpGame<usize>, S: Fn(&Stat, usize) -> i64>(
        &mut self,
        rollouts: usize,
        rng: &mut StdRng,
        select: &Valuation<S>,
        game: G,
        player: usize,
        expand: bool,
        draw: usize,
    ) -> (back: Stat)
        requires
            player < 2,
            rollouts < MAX_ROLLOUTS,
            game.wf(),
            old(self).mirrors(game, player),
            old(self).bounded(rollouts as nat),
        ensures
            final(self).mirrors(game, player),
            final(self).bounded((rollouts + 1) as nat),
            back.total() == 1,
            final(self).stat.sums(old(self).stat, back.inverted()),
            counts_a_game(game, player, back),
            final(self).children@.len() == old(self).children@.len(),
            old(self).children@.len() > 0 && old(self).is_expanded() ==> went_down(
                old(self).children@,
                final(self).children@,
                select,
                rollouts,
                back,
            ),
            !old(self).is_expanded() && expand ==> opened(
                old(self).children@,
                final(self).children@,
                unexpanded_of(old(self).children@)[(draw as int) % (unexpanded_of(
                    old(self).children@,
                ).len() as int)] as int,
                back,
            ),
            old(self).children@.len() == 0 || (!old(self).is_expanded() && !expand) ==> final(
                self
            ).children@ == old(self).children@,
        decreases old(self).depth(), 0nat,
    {
        let mut game = game;
        let ghost board = game;
        let result: Stat;
        let count: usize = self.children.len();
        if count > 0 && self.expanded() {
            // choose child with best value
            let mut values: Vec<i64> = Vec::new();
            let mut c: usize = 0;
            while c < count
                invariant
                    c <= count,
                    count == self.children@.len(),
                    values@.len() == c,
                    forall|i: int|
                        0 <= i < c ==> select.gives(
                            stat_of(self.children@[i]),
                            rollouts,
                            #[trigger] values@[i],
                        ),
                decreases count - c,
            {
                let stat: Stat = self.child_stat(c);
                values.push(select.value(&stat, rollouts));
                c = c + 1;
            }
            let child_idx: usize = first_max(&values);
            let play: usize = self.children[child_idx].0;
            proof {
                board.moves_are_the_accepted(player);
                assert(board.moves_of(player).contains(play));
                board.accepted_move_fills(play, player);
                Self::deepest_bounds(self.children@, self.children@.len(), child_idx as int);
            }
            game.make_move(play, player);
            let child: &mut Child = &mut self.children[child_idx];
            let ghost child_before = *child;
            match &mut child.1 {
                Some(t) => {
                    result = t.improve(rollouts, rng, select, game, 1 - player);
                },
                None => {
                    // every child is expanded
                    proof {
                        assert(false);
                    }
                    result = Stat::zero();
                },
            }
            proof {
                assert forall|i: int| 0 <= i < self.children@.len() implies (
                #[trigger] self.children@[i].1 matches Some(t) ==> t.bounded(
                    (rollouts + 1) as nat,
                )) by {
                    if i != child_idx {
                        assert(self.children@[i] == old(self).children@[i]);
                        match old(self).children@[i].1 {
                            Some(t) => {
                                t.bounded_grows(rollouts as nat, (rollouts + 1) as nat);
                            },
                            None => {},
                        }
                    }
                }
                assert forall|i: int| 0 <= i < self.children@.len() implies {
                    &&& (#[trigger] self.children@[i]).0 == moves_to_try(board, player)[i]
                    &&& (self.children@[i].1 matches Some(t) ==> t.mirrors(
                        board.after(self.children@[i].0, player),
                        opponent(player),
                    ))
                } by {
                    if i != child_idx {
                        assert(self.children@[i] == old(self).children@[i]);
                    }
                }
                assert(self.mirrors(board, player));
                game_counts_above(board, player, play, result);
                assert(result.inverted().inverted() == result);
                assert(went_down_at(
                    old(self).children@,
                    self.children@,
                    select,
                    rollouts,
                    result.inverted(),
                    values@,
                    child_idx as int,
                )) by {
                    assert forall|i: int| 0 <= i < self.children@.len() && i
                        != child_idx implies #[trigger] self.children@[i] == old(
                        self
                    ).children@[i] by {}
                }
            }
        } else if count > 0 && expand {
            // pick an unvisited child
            let unvisited: Vec<usize> = self.unexpanded();
            let pick: usize = unvisited[draw % unvisited.len()];
            let play: usize = self.children[pick].0;
            proof {
                board.moves_are_the_accepted(player);
                assert(board.moves_of(player).contains(play));
                board.accepted_move_fills(play, player);
            }
            game.make_move(play, player);
            let mut child: Tree = Tree::new(&game, 1 - player);
            let outcome: Stat = roll_out(rng, &game, 1 - player);
            child.stat.accumulate(&outcome);
            assert(child.mirrors(game, opponent(player)));
            assert(child.bounded((rollouts + 1) as nat));
            self.children[pick] = Child(play, Some(child));
            result = outcome.invert();
            proof {
                assert forall|i: int| 0 <= i < self.children@.len() implies (
                #[trigger] self.children@[i].1 matches Some(t) ==> t.bounded(
                    (rollouts + 1) as nat,
                )) by {
                    if i != pick {
                        assert(self.children@[i] == old(self).children@[i]);
                        match old(self).children@[i].1 {
                            Some(t) => {
                                t.bounded_grows(rollouts as nat, (rollouts + 1) as nat);
                            },
                            None => {},
                        }
                    }
                }
                assert forall|i: int| 0 <= i < self.children@.len() implies {
                    &&& (#[trigger] self.children@[i]).0 == moves_to_try(board, player)[i]
                    &&& (self.children@[i].1 matches Some(t) ==> t.mirrors(
                        board.after(self.children@[i].0, player),
                        opponent(player),
                    ))
                } by {
                    if i != pick {
                        assert(self.children@[i] == old(self).children@[i]);
                    }
                }
                assert(self.mirrors(board, player));
                assert(outcome.inverted().inverted() == outcome);
                game_counts_above(board, player, play, outcome.inverted());
                assert(opened(old(self).children@, self.children@, pick as int, outcome)) by {
                    assert forall|i: int| 0 <= i < self.children@.len() && i
                        != pick implies #[trigger] self.children@[i] == old(self).children@[i] by {}
                }
            }
        } else {
            // improve upon this node
            result = roll_out(rng, &game, player);
            proof {
                let ghost kept = *old(self);
                kept.bounded_grows(rollouts as nat, (rollouts + 1) as nat);
                assert(self.mirrors(board, player));
                assert(result.inverted().inverted() == result);
            }
        }
        self.stat.accumulate(&result);
        result.invert()
    }
}

/// `after` is what one step of the search, the one after `rollouts` earlier
/// ones, may make of the node `before` for the board `game` with `player` to
/// move, and `back` is what the step hands back.
///
/// The node still follows the game and counts one playout more: the tally
/// of a finished game that play from the board leads to. Where every child
/// was expanded, the step went on in the first child that `select` values
/// most. Where a child was unexpanded, either no child changed or one
/// unexpanded child was opened and holds the tally.
pub open spec fn improved<G: PvpGame<usize>, S: Fn(&Stat, usize) -> i64>(
    before: Tree,
    after: Tree,
    rollouts: usize,
    select: &Valuation<S>,
    game: G,
    player: usize,
    back: Stat,
) -> bool {
    &&& after.mirrors(game, player)
    &&& after.bounded((rollouts + 1) as nat)
    &&& back.total() == 1
    &&& after.stat.sums(before.stat, back.inverted())
    &&& counts_a_game(game, player, back)
    &&& after.children@.len() == before.children@.len()
    &&& before.children@.len() > 0 && before.is_expanded() ==> went_down(
        before.children@,
        after.children@,
        select,
        rollouts,
        back,
    )
    &&& before.children@.len() == 0 ==> after.children@ == before.children@
    &&& !before.is_expanded() ==> after.children@ == before.children@ || exists|pick: int|
        0 <= pick < before.children@.len() && before.children@[pick].1 is None
            && #[trigger] opened(before.children@, after.children@, pick, back)
}

/// `tree` is a node as a search begins with for the board `game` with
/// `player` to move: a child for every move to try, none of them expanded,
/// and no playout counted.
pub open spec fn is_new<G: PvpGame<usize>>(tree: Tree, game: G, player: usize) -> bool {
    &&& tree.stat == (Stat { win: 0, loss: 0, tie: 0 })
    &&& tree.mirrors(game, player)
    &&& forall|i: int| 0 <= i < tree.children@.len() ==> (#[trigger] tree.children@[i]).1 is None
}

/// `tree` is a tree that `steps` steps of a search for the board `game`, with
/// `player` to move and `select` to value the children, may grow from a new
/// node.
pub open spec fn grown<G: PvpGame<usize>, S: Fn(&Stat, usize) -> i64>(
    tree: Tree,
    steps: nat,
    select: &Valuation<S>,
    game: G,
    player: usize,
) -> bool
    decreases steps,
{
    if steps == 0 {
        is_new(tree, game, player)
    } else {
        exists|before: Tree, back: Stat|
            {
                &&& grown(before, (steps - 1) as nat, select, game, player)
                &&& steps <= MAX_ROLLOUTS
                &&& #[trigger] improved(
                    before,
                    tree,
                    (steps - 1) as usize,
                    select,
                    game,
                    player,
                    back,
                )
            }
    }
}

/// `back` counts one finished game that play from `game`, `player` to move,
/// leads to; it counts the game as the opponent of `player` sees it.
pub open spec fn counts_a_game<G: PvpGame<usize>>(game: G, player: usize, back: Stat) -> bool {
    exists|end: G, steps: nat|
        {
            &&& #[trigger] reached(game, player, end, steps)
            &&& end.status_of().finished()
            &&& back.inverted() == tally_of(end.status_of(), player)
        }
}

/// The step went on in the child at `idx`, which is the first that `select`
/// values most, `values` being the values that `select` gave: the counts of
/// that child grew by `back`, and no other child changed.
pub open spec fn went_down_at<S: Fn(&Stat, usize) -> i64>(
    before: Seq<Child>,
    after: Seq<Child>,
    select: &Valuation<S>,
    rollouts: usize,
    back: Stat,
    values: Seq<i64>,
    idx: int,
) -> bool {
    &&& after.len() == before.len()
    &&& values.len() == before.len()
    &&& forall|i: int|
        0 <= i < before.len() ==> select.gives(stat_of(before[i]), rollouts, #[trigger] values[i])
    &&& is_first_max(values, idx)
    &&& 0 <= idx < before.len()
    &&& after[idx].0 == before[idx].0
    &&& after[idx].1 is Some
    &&& stat_of(after[idx]).sums(stat_of(before[idx]), back)
    &&& forall|i: int| 0 <= i < before.len() && i != idx ==> #[trigger] after[i] == before[i]
}

/// The step went on in the first child that `select` values most.
pub open spec fn went_down<S: Fn(&Stat, usize) -> i64>(
    before: Seq<Child>,
    after: Seq<Child>,
    select: &Valuation<S>,
    rollouts: usize,
    back: Stat,
) -> bool {
    exists|values: Seq<i64>, idx: int|
        #[trigger] went_down_at(before, after, select, rollouts, back, values, idx)
}

/// The step expanded the child at `pick`: that child, which had no subtree,
/// has one now that holds exactly the counts `back` above unexpanded
/// children, and no other child changed.
pub open spec fn opened(before: Seq<Child>, after: Seq<Child>, pick: int, back: Stat) -> bool {
    &&& after.len() == before.len()
    &&& 0 <= pick < before.len()
    &&& before[pick].1 is None
    &&& after[pick].0 == before[pick].0
    &&& after[pick].1 matches Some(t) && t.stat == back && forall|i: int|
        0 <= i < t.children@.len() ==> (#[trigger] t.children@[i]).1 is None
    &&& forall|i: int| 0 <= i < before.len() && i != pick ==> #[trigger] after[i] == before[i]
}

/// What counts a game from the board after a move counts a game from the
/// board before it, seen from the other side.
pub proof fn game_counts_above<G: PvpGame<usize>>(board: G, player: usize, action: usize, back: Stat)
    requires
        player < 2,
        board.wf(),
        board.status_of() is Running,
        board.accepts(action, player),
        counts_a_game(board.after(action, player), opponent(player), back),
    ensures
        counts_a_game(board, player, back.inverted()),
{
    let next = board.after(action, player);
    let (end, steps) = choose|end: G, steps: nat|
        {
            &&& #[trigger] reached(next, opponent(player), end, steps)
            &&& end.status_of().finished()
            &&& back.inverted() == tally_of(end.status_of(), opponent(player))
        };
    board.accepted_move_fills(action, player);
    play_stays_well_formed(next, opponent(player), end, steps);
    end.winner_is_a_player();
    play_begins(board, player, action, end, steps);
    assert(reached(board, player, end, steps + 1));
    assert(back.inverted().inverted() == back);
    assert(back == tally_of(end.status_of(), player));
}

/// Plays the game out from the given board, `player` to move, by moves drawn
/// by chance from the listed ones, and counts the outcome for `player`: the
/// outcome of a finished game that play from the given board leads to.
pub fn roll_out<G: PvpGame<usize>>(rng: &mut StdRng, game: &G, player: usize) -> (stat: Stat)
    requires
        player < 2,
        game.wf(),
    ensures
        stat.total() == 1,
        exists|end: G, steps: nat|
            {
                &&& #[trigger] reached(*game, player, end, steps)
                &&& end.status_of().finished()
                &&& stat == tally_of(end.status_of(), player)
            },
{
    let mut trial: G = game.clone();
    proof {
        game.clone_is_exact(&trial);
    }
    let mut active_player: usize = player;
    let mut state: GameState = trial.status();
    let ghost mut steps: nat = 0;
    while state == GameState::Running
        invariant
            player < 2,
            active_player == mover_after(player, steps),
            trial.wf(),
            state == trial.status_of(),
            reached(*game, player, trial, steps),
        decreases trial.vacancies(),
    {
        let moves: Vec<usize> = trial.possible_moves(active_player);
        proof {
            trial.running_has_moves(active_player);
            trial.moves_are_the_accepted(active_player);
        }
        let play: usize = moves[next_usize(rng) % moves.len()];
        proof {
            assert(trial.moves_of(active_player).contains(play));
            trial.accepted_move_fills(play, active_player);
            play_goes_on(*game, player, trial, steps, play);
            steps = steps + 1;
        }
        state = trial.make_move(play, active_player);
        active_player = 1 - active_player;
    }
    proof {
        trial.status_is_settled();
        assert(state.finished());
    }
    tally(state, player)
}

/// The child to play after a search: the best rated one whose move the board
/// accepts, and among equally rated ones the first. `None` where the board
/// accepts the move of no child.
pub open spec fn is_best_child<G: PvpGame<usize>>(
    tree: &Tree,
    game: &G,
    player: usize,
    found: Option<usize>,
) -> bool {
    match found {
        Some(idx) => {
            &&& idx < tree.children@.len()
            &&& game.accepts(tree.children@[idx as int].0, player)
            &&& forall|j: int|
                0 <= j < tree.children@.len() && game.accepts(
                    (#[trigger] tree.children@[j]).0,
                    player,
                ) ==> !rates_above(stat_of(tree.children@[j]), stat_of(tree.children@[idx as int]))
            &&& forall|j: int|
                0 <= j < idx && game.accepts((#[trigger] tree.children@[j]).0, player)
                    ==> rates_above(stat_of(tree.children@[idx as int]), stat_of(tree.children@[j]))
        },
        None => forall|j: int|
            0 <= j < tree.children@.len() ==> !game.accepts(
                (#[trigger] tree.children@[j]).0,
                player,
            ),
    }
}

/// Chooses the child to play, trying the move of each on a copy of the board.
pub fn best_child<G: PvpGame<usize>>(tree: &Tree, game: &G, player: usize) -> (found: Option<
    usize,
>)
    requires
        tree.bounded(MAX_ROLLOUTS as nat),
    ensures
        is_best_child(tree, game, player, found),
{
    let mut found: Option<usize> = None;
    let mut c: usize = 0;
    while c < tree.children.len()
        invariant
            c <= tree.children@.len(),
            tree.bounded(MAX_ROLLOUTS as nat),
            match found {
                Some(idx) => {
                    &&& idx < c
                    &&& game.accepts(tree.children@[idx as int].0, player)
                    &&& forall|j: int|
                        0 <= j < c && game.accepts((#[trigger] tree.children@[j]).0, player)
                            ==> !rates_above(
                            stat_of(tree.children@[j]),
                            stat_of(tree.children@[idx as int]),
                        )
                    &&& forall|j: int|
                        0 <= j < idx && game.accepts((#[trigger] tree.children@[j]).0, player)
                            ==> rates_above(
                            stat_of(tree.children@[idx as int]),
                            stat_of(tree.children@[j]),
                        )
                },
                None => forall|j: int|
                    0 <= j < c ==> !game.accepts((#[trigger] tree.children@[j]).0, player),
            },
        decreases tree.children.len() - c,
    {
        let (trial, state) = preview(game, tree.children[c].0, player);
        if state != GameState::Invalid {
            let stat: Stat = tree.child_stat(c);
            assert(stat.total() <= MAX_ROLLOUTS) by {
                assert(tree.children@[c as int].1 matches Some(t) ==> t.bounded(
                    MAX_ROLLOUTS as nat,
                ));
            }
            match found {
                Some(idx) => {
                    let best: Stat = tree.child_stat(idx);
                    assert(best.total() <= MAX_ROLLOUTS) by {
                        assert(tree.children@[idx as int].1 matches Some(t) ==> t.bounded(
                            MAX_ROLLOUTS as nat,
                        ));
                    }
                    if rated_above(&stat, &best) {
                        proof {
                            assert forall|j: int|
                                0 <= j < c && game.accepts(
                                    (#[trigger] tree.children@[j]).0,
                                    player,
                                ) implies rates_above(stat, stat_of(tree.children@[j])) by {
                                rating_order(stat_of(tree.children@[j]), best, stat);
                            }
                        }
                        found = Some(c);
                    }
                },
                None => {
                    found = Some(c);
                },
            }
        } else {
            proof {
                trial.status_is_settled();
                if game.accepts(tree.children@[c as int].0, player) {
                    game.after(tree.children@[c as int].0, player).status_is_settled();
                }
            }
        }
        c = c + 1;
    }
    found
}

/// The opponent that searches by playouts for a limited time.
pub struct TreeSearchAi<G, S: Fn(&Stat, usize) -> i64> {
    /// Time limit in milliseconds for each move
    time_limit: u64,
    rng: StdRng,
    select: Valuation<S>,
    _phantom: PhantomData<G>,
}

impl<G, S: Fn(&Stat, usize) -> i64> TreeSearchAi<G, S> {
    /// The time that the opponent takes for a move, in milliseconds.
    pub closed spec fn time_limit(&self) -> u64 {
        self.time_limit
    }

    /// The generator from which the opponent draws.
    pub closed spec fn generator(&self) -> StdRng {
        self.rng
    }

    /// The valuation by which the opponent descends.
    pub closed spec fn valuation(&self) -> Valuation<S> {
        self.select
    }

    /// An opponent that thinks for `time_limit` milliseconds about a move,
    /// draws from `rng` and descends by `select`.
    pub fn new(time_limit: u64, rng: StdRng, select: Valuation<S>) -> (player: Self)
        ensures
            player.time_limit() == time_limit,
            player.generator() == rng,
            player.valuation() == select,
    {
        TreeSearchAi { time_limit, rng, select, _phantom: PhantomData }
    }
}

impl<G: PvpGame<usize> + Send + Sync, S: Fn(&Stat, usize) -> i64 + Send + Sync> AiPlayer<
    usize,
    G,
> for TreeSearchAi<G, S> {
    /// A move may be played if the board accepts it and it is the move of the
    /// best rated child of a tree that steps of the search with the
    /// opponent's valuation may grow for the board.
    open spec fn may_play(&self, game: &G, player: usize, action: usize) -> bool {
        &&& game.accepts(action, player)
        &&& exists|tree: Tree, steps: nat, idx: usize|
            {
                &&& #[trigger] grown(tree, steps, &self.valuation(), *game, player)
                &&& #[trigger] is_best_child(&tree, game, player, Some(idx))
                &&& tree.children@[idx as int].0 == action
            }
    }

    /// Grows a tree for the board until the time is up and plays the move of
    /// its best rated child.
    fn make_move(&mut self, game: &G, player: usize) -> (action: usize)
        ensures
            final(self).time_limit() == old(self).time_limit(),
            final(self).valuation() == old(self).valuation(),
    {
        let begin = now();
        let mut tree: Tree = Tree::new(game, player);

        let mut rollouts: usize = 0;
        while whole_millis(&elapsed(&begin)) < self.time_limit as u128 && rollouts < MAX_ROLLOUTS
            invariant
                player < 2,
                game.wf(),
                self.time_limit() == old(self).time_limit(),
                self.valuation() == old(self).valuation(),
                rollouts <= MAX_ROLLOUTS,
                tree.mirrors(*game, player),
                tree.bounded(rollouts as nat),
                grown(tree, rollouts as nat, &self.valuation(), *game, player),
            decreases MAX_ROLLOUTS - rollouts,
        {
            let trial: G = game.clone();
            proof {
                game.clone_is_exact(&trial);
            }
            let ghost before = tree;
            let back: Stat = tree.improve(rollouts, &mut self.rng, &self.select, trial, player);
            proof {
                let later = (rollouts + 1) as nat;
                assert(grown(before, (later - 1) as nat, &self.valuation(), *game, player));
                assert(improved(
                    before,
                    tree,
                    (later - 1) as usize,
                    &self.valuation(),
                    *game,
                    player,
                    back,
                ));
                assert(grown(tree, later, &self.valuation(), *game, player));
            }
            rollouts = rollouts + 1;
        }

        // choose best move
        proof {
            tree.bounded_grows(rollouts as nat, MAX_ROLLOUTS as nat);
            game.running_has_moves(player);
            game.moves_are_the_accepted(player);
            assert(game.moves_of(player).contains(tree.children@[0].0));
        }
        match best_child(&tree, game, player) {
            Some(idx) => {
                assert(is_best_child(&tree, game, player, Some(idx)));
                tree.children[idx].0
            },
            None => 0,
        }
    }
}

} // verus!
