//! Waves that are bought from a budget of resources.
//!
//! Each enemy of such a wave costs a share of the resources that are left,
//! drawn at random. The more an enemy costs, the bigger it is.
use vstd::prelude::*;
use crate::enemy::{bounded_picks, EnemyEmitter, EnemyType, Pick, TIME_RANDOM_FACTOR};
use crate::fixed::{lemma_product_bound, quot, UNIT};
use crate::random::{range, range_from, range_of};

verus! {

/// The resources of a wave, and the rules by which they are spent.
#[derive(Debug, Copy, Clone)]
pub struct Budget {
    /// The resources to spend.
    pub total: i64,
    /// The least share of the remaining resources that an enemy costs, in
    /// thousandths.
    pub min_share: i64,
    /// The greatest share of the remaining resources that an enemy costs, in
    /// thousandths.
    pub max_share: i64,
    /// The least that an enemy costs.
    pub floor: i64,
    /// How often a cost below the floor is drawn again before the floor is
    /// taken in its place.
    pub retries: usize,
    /// The cost from which an enemy is medium.
    pub medium_from: i64,
    /// The cost from which an enemy is big.
    pub big_from: i64,
}

/// The sum of the costs.
pub open spec fn total_of(costs: Seq<i64>) -> int
    decreases costs.len(),
{
    if costs.len() == 0 {
        0
    } else {
        total_of(costs.drop_last()) + costs.last()
    }
}

impl Budget {
    /// There is nothing less than nothing to spend, the shares are in order
    /// and at most the whole, and an enemy costs something.
    pub open spec fn wf(self) -> bool {
        &&& 0 <= self.total
        &&& 0 <= self.min_share <= self.max_share <= UNIT
        &&& 1 <= self.floor
    }

    /// The share of `remaining` that `share` thousandths make.
    pub open spec fn share_of(remaining: int, share: int) -> int {
        quot(remaining * share, UNIT as int)
    }

    /// The most that one enemy can cost: the greatest share of all the
    /// resources, or the floor where that is more.
    pub open spec fn largest_draw(self) -> int {
        let most = Budget::share_of(self.total as int, self.max_share as int);
        if most > self.floor {
            most
        } else {
            self.floor as int
        }
    }

    /// The cost that a draw selects while `remaining` resources are left: a
    /// share of them between the least and the greatest share.
    pub open spec fn drawn_cost(self, remaining: int, r: u32) -> i64 {
        range_of(
            r,
            Budget::share_of(remaining, self.min_share as int),
            Budget::share_of(remaining, self.max_share as int),
        ) as i64
    }

    /// What is made of one draw of a cost after `tries` earlier draws: the
    /// cost, where it is not below the floor; the floor, where the cost has
    /// been drawn again `retries` times already; nothing yet otherwise.
    pub open spec fn decided(self, drawn: i64, tries: int) -> Option<i64> {
        if drawn >= self.floor {
            Some(drawn)
        } else if tries >= self.retries {
            Some(self.floor)
        } else {
            None
        }
    }

    /// The cost that the draws from the one with the number `i` on give: what
    /// is decided of the first of them of which something is decided, and the
    /// floor where the draws run out before.
    pub open spec fn settled(self, remaining: int, draws: Seq<u32>, i: int) -> i64
        decreases draws.len() - i,
    {
        if i < 0 || i >= draws.len() {
            self.floor
        } else {
            match self.decided(self.drawn_cost(remaining, draws[i]), i) {
                Some(cost) => cost,
                None => self.settled(remaining, draws, i + 1),
            }
        }
    }

    /// Whether the draws are draws that `draw_cost` can have made for the
    /// cost: there is at least one, nothing is decided of any but the last,
    /// and the cost is what is decided of the last.
    pub open spec fn settles(self, remaining: int, draws: Seq<u32>, cost: i64) -> bool {
        &&& draws.len() >= 1
        &&& forall|j: int|
            0 <= j < draws.len() - 1 ==> self.decided(
                self.drawn_cost(remaining, #[trigger] draws[j]),
                j,
            ) is None
        &&& self.decided(self.drawn_cost(remaining, draws.last()), draws.len() - 1) == Some(cost)
    }

    /// Draws of which nothing is decided do not count: where nothing is
    /// decided of any draw before the one with the number `i`, the draws give
    /// what the draws from that one on give.
    pub proof fn lemma_settled_skips(self, remaining: int, draws: Seq<u32>, i: int)
        requires
            0 <= i <= draws.len(),
            forall|j: int|
                0 <= j < i ==> self.decided(self.drawn_cost(remaining, #[trigger] draws[j]), j)
                    is None,
        ensures
            self.settled(remaining, draws, 0) == self.settled(remaining, draws, i),
        decreases i,
    {
        if i > 0 {
            self.lemma_settled_skips(remaining, draws, i - 1);
        }
    }

    /// The archetype of an enemy of the cost.
    pub open spec fn kind_of(self, cost: i64) -> EnemyType {
        if cost >= self.big_from {
            EnemyType::Big
        } else if cost >= self.medium_from {
            EnemyType::Medium
        } else {
            EnemyType::Small
        }
    }

    /// Whether `costs` are the costs of the enemies of a wave that spends this
    /// budget: none is below the floor or above the largest draw, and the
    /// last of them is the one with which the budget is reached. So the costs
    /// add up to less than the budget and the largest draw together.
    pub open spec fn spends(self, costs: Seq<i64>) -> bool {
        &&& forall|i: int|
            0 <= i < costs.len() ==> self.floor <= #[trigger] costs[i] <= self.largest_draw()
        &&& costs.len() == 0 ==> self.total <= 0
        &&& costs.len() > 0 ==> total_of(costs.drop_last()) < self.total <= total_of(costs)
    }

    /// Whether `picks` are picks for enemies of the costs: one for each cost,
    /// of the archetype of the cost, each variation within bounds.
    pub open spec fn picked(self, costs: Seq<i64>, picks: Seq<Pick>) -> bool {
        &&& picks.len() == costs.len()
        &&& bounded_picks(picks)
        &&& forall|i: int|
            0 <= i < picks.len() ==> (#[trigger] picks[i]).kind == self.kind_of(costs[i])
    }

    /// The archetype of an enemy of the cost.
    pub fn kind(&self, cost: i64) -> (t: EnemyType)
        ensures
            t == self.kind_of(cost),
    {
        if cost >= self.big_from {
            EnemyType::Big
        } else if cost >= self.medium_from {
            EnemyType::Medium
        } else {
            EnemyType::Small
        }
    }

    /// The share of `remaining` that `share` thousandths make.
    pub fn share(remaining: i64, share: i64) -> (s: i64)
        requires
            0 <= remaining,
            0 <= share <= UNIT,
        ensures
            s == Budget::share_of(remaining as int, share as int),
            0 <= s <= remaining,
    {
        proof {
            lemma_product_bound(remaining as int, share as int, remaining as int, UNIT as int);
            assert(0 <= remaining * share) by (nonlinear_arith)
                requires
                    0 <= remaining,
                    0 <= share,
            ;
        }
        let wide: i128 = (remaining as i128) * (share as i128) / 1000;
        wide as i64
    }

    /// What is made of one draw of a cost: the cost is taken where it is not
    /// below the floor; else the floor is taken where the cost has been drawn
    /// again `retries` times already (`tries` says how often); else the cost
    /// is drawn again, and nothing is taken yet.
    pub fn decide(&self, drawn: i64, tries: usize) -> (cost: Option<i64>)
        ensures
            cost == self.decided(drawn, tries as int),
    {
        if drawn >= self.floor {
            Some(drawn)
        } else if tries >= self.retries {
            Some(self.floor)
        } else {
            None
        }
    }

    /// The cost of the next enemy that the draws give while `remaining`
    /// resources are left: the cost that the first draw selects that is not
    /// below the floor, among the first draw and the `retries` after it; the
    /// floor where there is none, or where the draws run out before.
    pub fn settle(&self, remaining: i64, draws: &Vec<u32>) -> (cost: i64)
        requires
            self.wf(),
            0 <= remaining,
        ensures
            cost == self.settled(remaining as int, draws@, 0),
    {
        let low: i64 = Budget::share(remaining, self.min_share);
        let high: i64 = Budget::share(remaining, self.max_share);
        let mut i: usize = 0;
        while i < draws.len()
            invariant
                0 <= i <= draws@.len(),
                low == Budget::share_of(remaining as int, self.min_share as int),
                high == Budget::share_of(remaining as int, self.max_share as int),
                self.settled(remaining as int, draws@, 0) == self.settled(
                    remaining as int,
                    draws@,
                    i as int,
                ),
            decreases draws@.len() - i,
        {
            match self.decide(range_from(draws[i], low, high), i) {
                Some(cost) => {
                    return cost;
                },
                None => {},
            }
            i = i + 1;
        }
        self.floor
    }

    /// The cost of the next enemy while `remaining` resources are left: a
    /// share of them drawn between the least and the greatest share; a draw
    /// below the floor is drawn again, as often as the budget allows, and then
    /// the floor is taken. So the cost is what `settle` gives for the draws
    /// that are made: a drawn share that is not below the floor, or the floor.
    pub fn draw_cost(&self, remaining: i64) -> (cost: i64)
        requires
            self.wf(),
            0 < remaining <= self.total,
        ensures
            exists|draws: Seq<u32>|
                #[trigger] self.settles(remaining as int, draws, cost) && cost == self.settled(
                    remaining as int,
                    draws,
                    0,
                ),
            cost == self.floor || Budget::share_of(remaining as int, self.min_share as int) <= cost
                <= Budget::share_of(remaining as int, self.max_share as int),
            self.floor <= cost <= self.largest_draw(),
    {
        let low: i64 = Budget::share(remaining, self.min_share);
        let high: i64 = Budget::share(remaining, self.max_share);
        proof {
            let least = remaining * self.min_share;
            let most = remaining * self.max_share;
            let all = self.total * self.max_share;
            assert(0 <= least <= most <= all) by (nonlinear_arith)
                requires
                    0 < remaining <= self.total,
                    0 <= self.min_share <= self.max_share,
                    least == remaining * self.min_share,
                    most == remaining * self.max_share,
                    all == self.total * self.max_share,
            ;
        }
        let ghost mut draws: Seq<u32> = Seq::empty();
        let mut tries: usize = 0;
        loop
            invariant
                self.wf(),
                low == Budget::share_of(remaining as int, self.min_share as int),
                high == Budget::share_of(remaining as int, self.max_share as int),
                low <= high <= self.largest_draw(),
                0 <= tries <= self.retries,
                draws.len() == tries,
                forall|j: int|
                    0 <= j < draws.len() ==> self.decided(
                        self.drawn_cost(remaining as int, #[trigger] draws[j]),
                        j,
                    ) is None,
            decreases self.retries - tries,
        {
            let drawn: i64 = range(low, high);
            let ghost r = choose|r: u32| drawn == range_of(r, low as int, high as int);
            let ghost longer = draws.push(r);
            match self.decide(drawn, tries) {
                Some(cost) => {
                    proof {
                        self.lemma_settled_skips(remaining as int, longer, tries as int);
                        assert(longer.last() == r);
                        assert forall|j: int| 0 <= j < longer.len() - 1 implies self.decided(
                            self.drawn_cost(remaining as int, #[trigger] longer[j]),
                            j,
                        ) is None by {
                            assert(longer[j] == draws[j]);
                        }
                        assert(self.settles(remaining as int, longer, cost));
                    }
                    return cost;
                },
                None => {},
            }
            proof {
                draws = longer;
            }
            tries = tries + 1;
        }
    }

    /// The costs of the enemies of a wave that spends this budget: costs are
    /// drawn until they add up to the budget or more.
    pub fn costs(&self) -> (costs: Vec<i64>)
        requires
            self.wf(),
        ensures
            self.spends(costs@),
            self.total <= total_of(costs@) < self.total + self.largest_draw(),
            forall|i: int| 0 <= i < costs@.len() ==> self.floor <= #[trigger] costs@[i],
    {
        let mut costs: Vec<i64> = Vec::new();
        let mut used: i128 = 0;
        while used < self.total as i128
            invariant
                self.wf(),
                used == total_of(costs@),
                0 <= used,
                forall|i: int|
                    0 <= i < costs@.len() ==> self.floor <= #[trigger] costs@[i]
                        <= self.largest_draw(),
                costs@.len() > 0 ==> total_of(costs@.drop_last()) < self.total,
                costs@.len() == 0 ==> used == 0,
            decreases
                    (if used < self.total {
                        self.total - used
                    } else {
                        0
                    }),
        {
            let remaining: i64 = (self.total as i128 - used) as i64;
            let cost: i64 = self.draw_cost(remaining);
            let ghost before = costs@;
            costs.push(cost);
            assert(costs@.drop_last() == before);
            used = used + cost as i128;
        }
        proof {
            lemma_budget_overshoot(*self, costs@);
        }
        costs
    }
}

/// A wave never costs the budget and the largest draw together, or more: the
/// costs stay below the budget until the last enemy, and that costs no more
/// than the largest draw.
pub proof fn lemma_budget_overshoot(budget: Budget, costs: Seq<i64>)
    requires
        budget.wf(),
        budget.spends(costs),
    ensures
        total_of(costs) - budget.total < budget.largest_draw(),
        budget.total <= total_of(costs),
{
}

impl EnemyEmitter {
    /// The emitter of a wave that spends a budget of resources over
    /// `total_time`: the costs of the enemies are drawn, each enemy is of the
    /// archetype of its cost, and the enemies are scheduled over the time.
    pub fn from_budget(budget: &Budget, total_time: i64) -> (e: EnemyEmitter)
        requires
            budget.wf(),
        ensures
            e.wf(),
            exists|costs: Seq<i64>, picks: Seq<Pick>|
                {
                    &&& budget.spends(costs)
                    &&& budget.total <= total_of(costs) < budget.total + budget.largest_draw()
                    &&& #[trigger] budget.picked(costs, picks)
                    &&& e.scheduled_from(picks, total_time)
                },
    {
        let costs: Vec<i64> = budget.costs();
        let mut picks: Vec<Pick> = Vec::new();
        let n: usize = costs.len();
        let mut i: usize = 0;
        while i < n
            invariant
                n == costs@.len(),
                0 <= i <= n,
                picks@.len() == i,
                bounded_picks(picks@),
                forall|j: int|
                    0 <= j < i ==> (#[trigger] picks@[j]).kind == budget.kind_of(costs@[j]),
            decreases n - i,
        {
            let kind: EnemyType = budget.kind(costs[i]);
            let jitter: i64 = range(-TIME_RANDOM_FACTOR, TIME_RANDOM_FACTOR);
            picks.push(Pick { kind, jitter });
            i = i + 1;
        }
        assert(budget.picked(costs@, picks@));
        EnemyEmitter::scheduled(&picks, total_time)
    }
}

} // verus!
