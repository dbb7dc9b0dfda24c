use vstd::prelude::*;
use vstd::multiset::Multiset;
use crate::functions::Functions;
use crate::member::{
    best_index, fitness_lower_bound, migrate_populations, migration_outcome, Member,
};
use crate::vector::VectorN;

verus! {

/// `b` together with the position `pos` is exactly a best entry of the
/// population: no member is better, and some member attains both.
pub open spec fn exact_best<M: Member>(b: u64, pos: Seq<u64>, s: Seq<M>) -> bool {
    &&& fitness_lower_bound(b, s)
    &&& exists|k: int| 0 <= k < s.len() && s[k].fitness() == b && s[k].position() == pos
}

/// After a best-tracking pass: either the recorded best survived untouched,
/// or it was replaced by a best entry of the population `s`.
pub open spec fn best_kept_or_attained<M: Member>(
    pre_b: u64,
    pre_pos: Seq<u64>,
    post_b: u64,
    post_pos: Seq<u64>,
    s: Seq<M>,
) -> bool {
    ||| (post_b == pre_b && post_pos == pre_pos)
    ||| exists|k: int| 0 <= k < s.len() && s[k].fitness() == post_b && s[k].position() == post_pos
}

/// One self-contained population with its best-found tracking and the
/// configuration it was set up with: the objective function, the search
/// domain `bounds` (as order keys, `bounds.0 < bounds.1`) and a
/// variant-specific parameter block `C`.
///
/// `best_solution_value` never exceeds any fitness recorded in the
/// population and never regresses while the population moves; minimization
/// is the direction throughout, a lower key is better.
pub struct Swarm<M, C> {
    pub population: Vec<M>,
    pub best_solution: VectorN,
    pub best_solution_value: u64,
    pub bounds: (u64, u64),
    pub function: Functions,
    pub config: C,
}

impl<M: Member, C> Swarm<M, C> {
    /// Set a swarm up around an initial population; the best tracking starts
    /// at an exact best of that population.
    pub fn assemble(population: Vec<M>, function: Functions, bounds: (u64, u64), config: C) -> (w:
        Swarm<M, C>)
        requires
            population@.len() > 0,
            bounds.0 < bounds.1,
        ensures
            w.population@ == population@,
            w.function == function,
            w.bounds == bounds,
            w.config == config,
            exact_best(w.best_solution_value, w.best_solution@, population@),
    {
        let best = best_index(&population);
        let best_solution = population[best].position_point();
        let best_solution_value = population[best].fitness_key();
        Swarm { population, best_solution, best_solution_value, bounds, function, config }
    }

    /// Fold the current population into the best tracking: a strictly better
    /// member replaces the recorded best, ties and worse members leave it
    /// alone. The recorded best never regresses.
    pub fn update_best_solutions(&mut self)
        ensures
            final(self).population@ == old(self).population@,
            final(self).bounds == old(self).bounds,
            final(self).function == old(self).function,
            final(self).config == old(self).config,
            final(self).best_solution_value <= old(self).best_solution_value,
            fitness_lower_bound(final(self).best_solution_value, old(self).population@),
            best_kept_or_attained(
                old(self).best_solution_value,
                old(self).best_solution@,
                final(self).best_solution_value,
                final(self).best_solution@,
                old(self).population@,
            ),
    {
        let n = self.population.len();
        let mut i: usize = 0;
        while i < n
            invariant
                i <= n,
                n == self.population@.len(),
                self.population@ == old(self).population@,
                self.bounds == old(self).bounds,
                self.function == old(self).function,
                self.config == old(self).config,
                self.best_solution_value <= old(self).best_solution_value,
                forall|k: int|
                    0 <= k < i ==> self.best_solution_value <= self.population@[k].fitness(),
                best_kept_or_attained(
                    old(self).best_solution_value,
                    old(self).best_solution@,
                    self.best_solution_value,
                    self.best_solution@,
                    self.population@,
                ),
            decreases n - i,
        {
            let key = self.population[i].fitness_key();
            if key < self.best_solution_value {
                self.best_solution_value = key;
                self.best_solution = self.population[i].position_point();
            }
            i = i + 1;
        }
    }

    /// Replace the population with the members the caller has moved and
    /// absorb the outcome into the best tracking. The recorded best never
    /// regresses, whatever the move produced; the configuration and the
    /// population size survive untouched.
    pub fn advance(&mut self, moved: Vec<M>)
        requires
            moved@.len() == old(self).population@.len(),
        ensures
            final(self).population@ == moved@,
            final(self).population@.len() == old(self).population@.len(),
            final(self).bounds == old(self).bounds,
            final(self).function == old(self).function,
            final(self).config == old(self).config,
            final(self).best_solution_value <= old(self).best_solution_value,
            fitness_lower_bound(final(self).best_solution_value, moved@),
            best_kept_or_attained(
                old(self).best_solution_value,
                old(self).best_solution@,
                final(self).best_solution_value,
                final(self).best_solution@,
                moved@,
            ),
    {
        self.population = moved;
        self.update_best_solutions();
    }

    /// Install a freshly drawn population and rebuild the best tracking from
    /// scratch; the configuration and the population size survive a reset
    /// untouched.
    pub fn reset(&mut self, fresh: Vec<M>)
        requires
            fresh@.len() == old(self).population@.len(),
            fresh@.len() > 0,
        ensures
            final(self).population@ == fresh@,
            final(self).population@.len() == old(self).population@.len(),
            final(self).bounds == old(self).bounds,
            final(self).function == old(self).function,
            final(self).config == old(self).config,
            exact_best(final(self).best_solution_value, final(self).best_solution@, fresh@),
    {
        let best = best_index(&fresh);
        self.best_solution = fresh[best].position_point();
        self.best_solution_value = fresh[best].fitness_key();
        self.population = fresh;
    }

    /// Move the population out, leaving an empty one behind.
    fn take_population(&mut self) -> (p: Vec<M>)
        ensures
            p@ == old(self).population@,
            final(self).population@.len() == 0,
            final(self).best_solution@ == old(self).best_solution@,
            final(self).best_solution_value == old(self).best_solution_value,
            final(self).bounds == old(self).bounds,
            final(self).function == old(self).function,
            final(self).config == old(self).config,
    {
        let mut taken: Vec<M> = Vec::new();
        core::mem::swap(&mut taken, &mut self.population);
        taken
    }
}

/// The parts of a swarm that survive every run, reset and migration.
pub open spec fn same_configuration<M: Member, C>(a: Swarm<M, C>, b: Swarm<M, C>) -> bool {
    &&& a.bounds == b.bounds
    &&& a.function == b.function
    &&& a.config == b.config
}

/// `b` is at or below every contained swarm's recorded best.
pub open spec fn swarm_value_lower_bound<M: Member, C>(b: u64, s: Seq<Swarm<M, C>>) -> bool {
    forall|k: int| 0 <= k < s.len() ==> b <= s[k].best_solution_value
}

/// `b` and `pos` are exactly the recorded best of one of the swarms, and no
/// swarm records anything better.
pub open spec fn swarm_exact_best<M: Member, C>(b: u64, pos: Seq<u64>, s: Seq<Swarm<M, C>>) -> bool {
    &&& swarm_value_lower_bound(b, s)
    &&& exists|k: int|
        0 <= k < s.len() && s[k].best_solution_value == b && s[k].best_solution@ == pos
}

/// After a global best-tracking pass: either the recorded global best
/// survived untouched, or a swarm's recorded best replaced it.
pub open spec fn swarm_best_kept_or_attained<M: Member, C>(
    pre_b: u64,
    pre_pos: Seq<u64>,
    post_b: u64,
    post_pos: Seq<u64>,
    s: Seq<Swarm<M, C>>,
) -> bool {
    ||| (post_b == pre_b && post_pos == pre_pos)
    ||| exists|k: int|
        0 <= k < s.len() && s[k].best_solution_value == post_b && s[k].best_solution@ == post_pos
}

/// The visible effect of one pairwise exchange on the two swarms involved:
/// configurations survive, the populations are repartitioned as
/// `migration_outcome` says with nothing created or destroyed, and each
/// swarm's best tracking has absorbed its new population without regressing.
pub open spec fn migrated_pair<M: Member, C>(
    pre_first: Swarm<M, C>,
    pre_second: Swarm<M, C>,
    count: int,
    post_first: Swarm<M, C>,
    post_second: Swarm<M, C>,
) -> bool {
    &&& same_configuration(pre_first, post_first)
    &&& same_configuration(pre_second, post_second)
    &&& post_first.population@.len() == pre_first.population@.len()
    &&& post_second.population@.len() == pre_second.population@.len()
    &&& post_first.population@.to_multiset().add(post_second.population@.to_multiset())
        == pre_first.population@.to_multiset().add(pre_second.population@.to_multiset())
    &&& migration_outcome(
        pre_first.population@,
        pre_second.population@,
        count,
        post_first.population@,
        post_second.population@,
    )
    &&& post_first.best_solution_value <= pre_first.best_solution_value
    &&& post_second.best_solution_value <= pre_second.best_solution_value
    &&& fitness_lower_bound(post_first.best_solution_value, post_first.population@)
    &&& fitness_lower_bound(post_second.best_solution_value, post_second.population@)
}

/// The effect of one migration entry on the whole multi-swarm state:
/// `None` leaves it bit-for-bit unchanged; `Some(count)` repartitions
/// exactly the pair `(first, second)` as `migrated_pair` says and touches
/// nothing else — not the other swarms, not the global tracking, not the
/// threshold.
pub open spec fn migration_stepped<M: Member, C>(
    pre: MultiSwarm<M, C>,
    post: MultiSwarm<M, C>,
    first: int,
    second: int,
    decision: Option<usize>,
) -> bool {
    match decision {
        None => post == pre,
        Some(count) => {
            &&& post.swarms@.len() == pre.swarms@.len()
            &&& post.migration_threshold == pre.migration_threshold
            &&& post.best_solution@ == pre.best_solution@
            &&& post.best_solution_value == pre.best_solution_value
            &&& forall|k: int|
                0 <= k < pre.swarms@.len() && k != first && k != second ==> post.swarms@[k]
                    == pre.swarms@[k]
            &&& migrated_pair(
                pre.swarms@[first],
                pre.swarms@[second],
                count as int,
                post.swarms@[first],
                post.swarms@[second],
            )
        },
    }
}

/// The unordered pairs `(i, j)` with `i < j < n`, in increasing
/// lexicographic order, starting at the pair `(first, second)`.
pub open spec fn pair_order_from(first: int, second: int, n: int) -> Seq<(int, int)>
    decreases n - first, n - second,
{
    if first < 0 || second <= first || first >= n - 1 {
        Seq::empty()
    } else if second >= n {
        pair_order_from(first + 1, first + 2, n)
    } else {
        seq![(first, second)] + pair_order_from(first, second + 1, n)
    }
}

/// The migration pass's pair schedule for `n` swarms:
/// `(0,1), (0,2), …, (0,n-1), (1,2), …, (n-2,n-1)`.
pub open spec fn pair_order(n: int) -> Seq<(int, int)> {
    pair_order_from(0, 1, n)
}

/// Step `t` of a recorded migration pass: the decision is one the decider
/// can return for the current state's recorded bests and population sizes
/// of the scheduled pair, and the next state is that decision's effect.
pub open spec fn pass_step_ok<M: Member, C, F: Fn(u64, u64, usize, usize) -> Option<usize>>(
    f: F,
    states: Seq<MultiSwarm<M, C>>,
    decisions: Seq<Option<usize>>,
    pairs: Seq<(int, int)>,
    t: int,
) -> bool {
    &&& call_ensures(
        f,
        (
            states[t].swarms@[pairs[t].0].best_solution_value,
            states[t].swarms@[pairs[t].1].best_solution_value,
            states[t].swarms@[pairs[t].0].population@.len() as usize,
            states[t].swarms@[pairs[t].1].population@.len() as usize,
        ),
        decisions[t],
    )
    &&& migration_stepped(states[t], states[t + 1], pairs[t].0, pairs[t].1, decisions[t])
}

/// A record of one whole migration pass from `pre` to `post` against the
/// decider `f`: one intermediate state per pair of the schedule, in order,
/// starting at `pre` and ending at `post`, where each step consults the
/// decider on the state *it* sees — so later pairs observe the mutations
/// earlier pairs left behind — and has exactly the effect
/// `migration_stepped` describes.
pub open spec fn valid_migration_trace<
    M: Member,
    C,
    F: Fn(u64, u64, usize, usize) -> Option<usize>,
>(
    f: F,
    pre: MultiSwarm<M, C>,
    post: MultiSwarm<M, C>,
    states: Seq<MultiSwarm<M, C>>,
    decisions: Seq<Option<usize>>,
) -> bool {
    let pairs = pair_order(pre.swarms@.len() as int);
    &&& states.len() == pairs.len() + 1
    &&& decisions.len() == pairs.len()
    &&& states[0] == pre
    &&& states[pairs.len() as int] == post
    &&& forall|t: int|
        0 <= t < pairs.len() ==> #[trigger] pass_step_ok(f, states, decisions, pairs, t)
}

/// Some run of the migration pass, pair by scheduled pair, leads from
/// `pre` to `post`.
pub open spec fn migration_pass_trace<M: Member, C, F: Fn(u64, u64, usize, usize) -> Option<
    usize,
>>(f: F, pre: MultiSwarm<M, C>, post: MultiSwarm<M, C>) -> bool {
    exists|states: Seq<MultiSwarm<M, C>>, decisions: Seq<Option<usize>>|
        valid_migration_trace(f, pre, post, states, decisions)
}

/// Everything the family holds: all swarms' populations, as one multiset.
pub open spec fn total_members<M: Member, C>(s: Seq<Swarm<M, C>>) -> Multiset<M>
    decreases s.len(),
{
    if s.len() == 0 {
        Multiset::empty()
    } else {
        s[0].population@.to_multiset().add(total_members(s.drop_first()))
    }
}

/// Replacing one swarm trades its members for the replacement's.
proof fn lemma_total_members_update<M: Member, C>(s: Seq<Swarm<M, C>>, k: int, x: Swarm<M, C>)
    requires
        0 <= k < s.len(),
    ensures
        total_members(s.update(k, x)).add(s[k].population@.to_multiset()) == total_members(s).add(
            x.population@.to_multiset(),
        ),
    decreases s.len(),
{
    broadcast use vstd::multiset::group_multiset_axioms;

    let d = s.drop_first();
    let s0m = s[0].population@.to_multiset();
    let xm = x.population@.to_multiset();
    if k == 0 {
        assert(s.update(0, x).drop_first() =~= d);
        assert(total_members(s.update(0, x)) == xm.add(total_members(d)));
        assert(total_members(s) == s0m.add(total_members(d)));
        assert(xm.add(total_members(d)).add(s0m) =~= s0m.add(total_members(d)).add(xm));
    } else {
        let du = d.update(k - 1, x);
        let skm = s[k].population@.to_multiset();
        assert(s.update(k, x).drop_first() =~= du);
        assert(total_members(s.update(k, x)) == s0m.add(total_members(du)));
        assert(total_members(s) == s0m.add(total_members(d)));
        lemma_total_members_update(d, k - 1, x);
        assert(d[k - 1] == s[k]);
        assert(total_members(du).add(skm) == total_members(d).add(xm));
        assert forall|e: M|
            total_members(s.update(k, x)).add(skm).count(e) == total_members(s).add(xm).count(
                e,
            ) by {
            assert(total_members(du).add(skm).count(e) == total_members(d).add(xm).count(e));
        }
        assert(total_members(s.update(k, x)).add(skm) =~= total_members(s).add(xm));
    }
}

/// Multiset addition cancels: equal sums with an equal summand have equal
/// other summands.
proof fn lemma_multiset_add_cancel<T>(a: Multiset<T>, b: Multiset<T>, x: Multiset<T>)
    requires
        a.add(x) == b.add(x),
    ensures
        a == b,
{
    broadcast use vstd::multiset::group_multiset_axioms;

    assert forall|e: T| a.count(e) == b.count(e) by {
        assert(a.add(x).count(e) == a.count(e) + x.count(e));
        assert(b.add(x).count(e) == b.count(e) + x.count(e));
        assert(a.add(x).count(e) == b.add(x).count(e));
    }
    assert(a =~= b);
}

/// A family changed at two positions only, with the combined contents of
/// those two populations conserved, holds the same members in all.
proof fn lemma_total_members_pair_exchange<M: Member, C>(
    a: Seq<Swarm<M, C>>,
    b: Seq<Swarm<M, C>>,
    i: int,
    j: int,
)
    requires
        a.len() == b.len(),
        0 <= i < j < a.len(),
        forall|k: int| 0 <= k < a.len() && k != i && k != j ==> b[k] == a[k],
        b[i].population@.to_multiset().add(b[j].population@.to_multiset())
            == a[i].population@.to_multiset().add(a[j].population@.to_multiset()),
    ensures
        total_members(b) == total_members(a),
{
    broadcast use vstd::multiset::group_multiset_axioms;

    let mid = a.update(i, b[i]);
    assert(b =~= mid.update(j, b[j]));
    assert(mid[j] == a[j]);
    lemma_total_members_update(a, i, b[i]);
    lemma_total_members_update(mid, j, b[j]);
    let ai = a[i].population@.to_multiset();
    let aj = a[j].population@.to_multiset();
    let bi = b[i].population@.to_multiset();
    let bj = b[j].population@.to_multiset();
    assert(total_members(b).add(aj) == total_members(mid).add(bj));
    assert forall|e: M|
        total_members(b).add(aj.add(ai)).count(e) == total_members(a).add(aj.add(ai)).count(e) by {
        assert(total_members(b).add(aj).count(e) == total_members(mid).add(bj).count(e));
        assert(total_members(mid).add(ai).count(e) == total_members(a).add(bi).count(e));
        assert(bi.add(bj).count(e) == ai.add(aj).count(e));
        assert(aj.add(ai).count(e) == aj.count(e) + ai.count(e));
        assert(total_members(b).add(aj.add(ai)).count(e) == total_members(b).count(e) + aj.count(
            e,
        ) + ai.count(e));
        assert(total_members(a).add(aj.add(ai)).count(e) == total_members(a).count(e) + aj.count(
            e,
        ) + ai.count(e));
    }
    assert(total_members(b).add(aj.add(ai)) =~= total_members(a).add(aj.add(ai)));
    lemma_multiset_add_cancel(total_members(b), total_members(a), aj.add(ai));
}

/// A swarm after a reset: same configuration, the fresh population
/// installed, and best tracking rebuilt from scratch over it.
pub open spec fn reset_swarm<M: Member, C>(pre: Swarm<M, C>, post: Swarm<M, C>, fresh: Seq<M>) -> bool {
    &&& same_configuration(pre, post)
    &&& post.population@ == fresh
    &&& post.population@.len() == pre.population@.len()
    &&& exact_best(post.best_solution_value, post.best_solution@, fresh)
}

/// A fixed family of independent swarms sharing one objective function and
/// configuration, with a migration threshold (an order key over fitness
/// differences, interpreted by the caller) and a global best tracked across
/// all of them.
pub struct MultiSwarm<M, C> {
    pub swarms: Vec<Swarm<M, C>>,
    pub migration_threshold: u64,
    pub best_solution: VectorN,
    pub best_solution_value: u64,
}

/// The index of a swarm whose recorded best is at or below every other's.
fn best_swarm_index<M: Member, C>(swarms: &Vec<Swarm<M, C>>) -> (best: usize)
    requires
        swarms@.len() > 0,
    ensures
        best < swarms@.len(),
        swarm_value_lower_bound(swarms@[best as int].best_solution_value, swarms@),
{
    let mut best: usize = 0;
    let mut best_key: u64 = swarms[0].best_solution_value;
    let mut i: usize = 1;
    while i < swarms.len()
        invariant
            best < i <= swarms@.len(),
            best_key == swarms@[best as int].best_solution_value,
            forall|k: int| 0 <= k < i ==> best_key <= swarms@[k].best_solution_value,
        decreases swarms@.len() - i,
    {
        let key = swarms[i].best_solution_value;
        if key < best_key {
            best = i;
            best_key = key;
        }
        i = i + 1;
    }
    best
}

impl<M: Member, C> MultiSwarm<M, C> {
    /// Gather at least two swarms under one roof; the global best tracking
    /// starts at an exact best across them.
    pub fn new(swarms: Vec<Swarm<M, C>>, migration_threshold: u64) -> (w: MultiSwarm<M, C>)
        requires
            swarms@.len() >= 2,
        ensures
            w.swarms@ == swarms@,
            w.migration_threshold == migration_threshold,
            swarm_exact_best(w.best_solution_value, w.best_solution@, swarms@),
    {
        let best = best_swarm_index(&swarms);
        let best_solution = swarms[best].best_solution.duplicate();
        let best_solution_value = swarms[best].best_solution_value;
        MultiSwarm { swarms, migration_threshold, best_solution, best_solution_value }
    }

    /// Fold every swarm's recorded best into the global best tracking; the
    /// global best never regresses.
    pub fn update_best_solutions(&mut self)
        ensures
            final(self).swarms@ == old(self).swarms@,
            final(self).migration_threshold == old(self).migration_threshold,
            final(self).best_solution_value <= old(self).best_solution_value,
            swarm_value_lower_bound(final(self).best_solution_value, old(self).swarms@),
            swarm_best_kept_or_attained(
                old(self).best_solution_value,
                old(self).best_solution@,
                final(self).best_solution_value,
                final(self).best_solution@,
                old(self).swarms@,
            ),
    {
        let n = self.swarms.len();
        let mut i: usize = 0;
        while i < n
            invariant
                i <= n,
                n == self.swarms@.len(),
                self.swarms@ == old(self).swarms@,
                self.migration_threshold == old(self).migration_threshold,
                self.best_solution_value <= old(self).best_solution_value,
                forall|k: int|
                    0 <= k < i ==> self.best_solution_value <= self.swarms@[k].best_solution_value,
                swarm_best_kept_or_attained(
                    old(self).best_solution_value,
                    old(self).best_solution@,
                    self.best_solution_value,
                    self.best_solution@,
                    self.swarms@,
                ),
            decreases n - i,
        {
            let key = self.swarms[i].best_solution_value;
            if key < self.best_solution_value {
                self.best_solution_value = key;
                let pos = self.swarms[i].best_solution.duplicate();
                self.best_solution = pos;
            }
            i = i + 1;
        }
    }

    /// One entry of the pairwise migration pass, for the pair
    /// `(first, second)`. The caller, who owns the numeric fitness values,
    /// decides: `None` when the two recorded bests are within the migration
    /// threshold of each other — then nothing at all happens — and
    /// `Some(count)` otherwise, with `count` members to exchange in each
    /// direction. The exchange repartitions exactly the two populations
    /// involved (`migrated_pair`); every other swarm and the global tracking
    /// are untouched, so later pairs of the same pass observe the mutation.
    pub fn migration_step(&mut self, first: usize, second: usize, decision: Option<usize>)
        requires
            first < second,
            second < old(self).swarms@.len(),
            decision matches Some(c) ==> c <= old(self).swarms@[first as int].population@.len()
                && c <= old(self).swarms@[second as int].population@.len(),
        ensures
            decision is None ==> *final(self) == *old(self),
            final(self).swarms@.len() == old(self).swarms@.len(),
            final(self).migration_threshold == old(self).migration_threshold,
            final(self).best_solution@ == old(self).best_solution@,
            final(self).best_solution_value == old(self).best_solution_value,
            forall|k: int|
                0 <= k < old(self).swarms@.len() && k != first && k != second
                    ==> final(self).swarms@[k] == old(self).swarms@[k],
            decision matches Some(c) ==> migrated_pair(
                old(self).swarms@[first as int],
                old(self).swarms@[second as int],
                c as int,
                final(self).swarms@[first as int],
                final(self).swarms@[second as int],
            ),
            total_members(final(self).swarms@) == total_members(old(self).swarms@),
    {
        let count: usize = match decision {
            None => {
                return ;
            },
            Some(c) => c,
        };
        let ghost s0 = self.swarms@;
        let mut swarm_second = self.swarms.remove(second);
        let mut swarm_first = self.swarms.remove(first);
        let pop_first = swarm_first.take_population();
        let pop_second = swarm_second.take_population();
        let (new_pop_first, new_pop_second) = migrate_populations(pop_first, pop_second, count);
        swarm_first.population = new_pop_first;
        swarm_first.update_best_solutions();
        swarm_second.population = new_pop_second;
        swarm_second.update_best_solutions();
        self.swarms.insert(first, swarm_first);
        self.swarms.insert(second, swarm_second);
        proof {
            let f = first as int;
            let sc = second as int;
            let s1 = s0.remove(sc);
            let s2 = s1.remove(f);
            let s3 = s2.insert(f, self.swarms@[f]);
            let s4 = s3.insert(sc, self.swarms@[sc]);
            s0.remove_ensures(sc);
            s1.remove_ensures(f);
            s2.insert_ensures(f, self.swarms@[f]);
            s3.insert_ensures(sc, self.swarms@[sc]);
            assert(self.swarms@ == s4);
            assert forall|k: int| 0 <= k < s0.len() && k != f && k != sc implies self.swarms@[k]
                == s0[k] by {
                if k < f {
                } else if k < sc {
                    assert(s4[k] == s3[k]);
                    assert(s3[k] == s2[k - 1]);
                    assert(s2[k - 1] == s1[k]);
                    assert(s1[k] == s0[k]);
                } else {
                    assert(s4[k] == s3[k - 1]);
                    assert(s3[k - 1] == s2[k - 2]);
                    assert(s2[k - 2] == s1[k - 1]);
                    assert(s1[k - 1] == s0[k]);
                }
            }
            lemma_total_members_pair_exchange(s0, self.swarms@, f, sc);
        }
    }

    /// The full migration pass: every unordered pair of swarm indices
    /// `(first, second)` with `first < second`, in increasing lexicographic
    /// order (`pair_order`), each pair observing the mutations the earlier
    /// pairs left behind — the order is load-bearing. The caller's `decide`
    /// is consulted once per pair, with the two recorded best values and
    /// the two population sizes as the pair stands *at that moment*, and
    /// answers `None` (the bests lie within the migration threshold: leave
    /// the pair exactly as it is) or `Some(count)` (exchange `count`
    /// members in each direction).
    ///
    /// The final state is pinned by `migration_pass_trace`: a chain of
    /// states, one step per scheduled pair, leads from the old state to the
    /// new one, where every step's decision is one the decider can return
    /// for the state that step sees, a declined step changes nothing, and
    /// an accepted step repartitions exactly its pair by rank
    /// (`migration_stepped`, hence `migrated_pair`). It follows — and is
    /// also stated directly — that swarm count, configurations, population
    /// sizes, the threshold and the global tracking survive the pass, that
    /// the members over all swarms together are conserved, and that a
    /// decider that can only decline leaves the state untouched.
    pub fn do_migration_pass<F: Fn(u64, u64, usize, usize) -> Option<usize>>(&mut self, decide: F)
        requires
            forall|args: (u64, u64, usize, usize)| call_requires(decide, args),
            forall|args: (u64, u64, usize, usize), r: Option<usize>|
                call_ensures(decide, args, r) ==> (r matches Some(c) ==> c <= args.2 && c
                    <= args.3),
        ensures
            migration_pass_trace(decide, *old(self), *final(self)),
            final(self).swarms@.len() == old(self).swarms@.len(),
            final(self).migration_threshold == old(self).migration_threshold,
            final(self).best_solution@ == old(self).best_solution@,
            final(self).best_solution_value == old(self).best_solution_value,
            forall|k: int|
                0 <= k < old(self).swarms@.len() ==> same_configuration(
                    old(self).swarms@[k],
                    #[trigger] final(self).swarms@[k],
                ),
            forall|k: int|
                0 <= k < old(self).swarms@.len()
                    ==> (#[trigger] final(self).swarms@[k].population@.len()) == old(
                    self,
                ).swarms@[k].population@.len(),
            total_members(final(self).swarms@) == total_members(old(self).swarms@),
            (forall|args: (u64, u64, usize, usize), r: Option<usize>|
                call_ensures(decide, args, r) ==> r is None) ==> *final(self) == *old(self),
    {
        let ghost all_none = forall|args: (u64, u64, usize, usize), r: Option<usize>|
            call_ensures(decide, args, r) ==> r is None;
        let size = self.swarms.len();
        let ghost pairs = pair_order(size as int);
        let ghost mut states: Seq<MultiSwarm<M, C>> = seq![*old(self)];
        let ghost mut decisions: Seq<Option<usize>> = Seq::empty();
        if size == 0 {
            proof {
                assert(pair_order_from(0, 1, 0) =~= Seq::<(int, int)>::empty());
                assert(valid_migration_trace(decide, *old(self), *self, states, decisions));
                assert(migration_pass_trace(decide, *old(self), *self));
            }
            return ;
        }
        proof {
            assert(pairs.skip(0) =~= pairs);
        }
        let mut first: usize = 0;
        while first < size - 1
            invariant
                first <= size - 1,
                size >= 1,
                size == self.swarms@.len(),
                size == old(self).swarms@.len(),
                forall|args: (u64, u64, usize, usize)| call_requires(decide, args),
                forall|args: (u64, u64, usize, usize), r: Option<usize>|
                    call_ensures(decide, args, r) ==> (r matches Some(c) ==> c <= args.2 && c
                        <= args.3),
                all_none == (forall|args: (u64, u64, usize, usize), r: Option<usize>|
                    call_ensures(decide, args, r) ==> r is None),
                self.migration_threshold == old(self).migration_threshold,
                self.best_solution@ == old(self).best_solution@,
                self.best_solution_value == old(self).best_solution_value,
                forall|k: int|
                    0 <= k < size ==> same_configuration(
                        old(self).swarms@[k],
                        #[trigger] self.swarms@[k],
                    ),
                forall|k: int|
                    0 <= k < size ==> (#[trigger] self.swarms@[k].population@.len()) == old(
                        self,
                    ).swarms@[k].population@.len(),
                all_none ==> *self == *old(self),
                total_members(self.swarms@) == total_members(old(self).swarms@),
                pairs == pair_order(size as int),
                states.len() == decisions.len() + 1,
                decisions.len() <= pairs.len(),
                states[0] == *old(self),
                states[decisions.len() as int] == *self,
                pairs.skip(decisions.len() as int) == pair_order_from(
                    first as int,
                    first as int + 1,
                    size as int,
                ),
                forall|t: int|
                    0 <= t < decisions.len() ==> #[trigger] pass_step_ok(
                        decide,
                        states,
                        decisions,
                        pairs,
                        t,
                    ),
            decreases size - first,
        {
            let mut second: usize = first + 1;
            while second < size
                invariant
                    first < second <= size,
                    first < size - 1,
                    size == self.swarms@.len(),
                    size == old(self).swarms@.len(),
                    forall|args: (u64, u64, usize, usize)| call_requires(decide, args),
                    forall|args: (u64, u64, usize, usize), r: Option<usize>|
                        call_ensures(decide, args, r) ==> (r matches Some(c) ==> c <= args.2 && c
                            <= args.3),
                    all_none == (forall|args: (u64, u64, usize, usize), r: Option<usize>|
                        call_ensures(decide, args, r) ==> r is None),
                    self.migration_threshold == old(self).migration_threshold,
                    self.best_solution@ == old(self).best_solution@,
                    self.best_solution_value == old(self).best_solution_value,
                    forall|k: int|
                        0 <= k < size ==> same_configuration(
                            old(self).swarms@[k],
                            #[trigger] self.swarms@[k],
                        ),
                    forall|k: int|
                        0 <= k < size ==> (#[trigger] self.swarms@[k].population@.len()) == old(
                            self,
                        ).swarms@[k].population@.len(),
                    all_none ==> *self == *old(self),
                    total_members(self.swarms@) == total_members(old(self).swarms@),
                    pairs == pair_order(size as int),
                    states.len() == decisions.len() + 1,
                    decisions.len() <= pairs.len(),
                    states[0] == *old(self),
                    states[decisions.len() as int] == *self,
                    pairs.skip(decisions.len() as int) == pair_order_from(
                        first as int,
                        second as int,
                        size as int,
                    ),
                    forall|t: int|
                        0 <= t < decisions.len() ==> #[trigger] pass_step_ok(
                            decide,
                            states,
                            decisions,
                            pairs,
                            t,
                        ),
                decreases size - second,
            {
                let ghost before = *self;
                let ghost t = decisions.len() as int;
                let n_first = self.swarms[first].population.len();
                let n_second = self.swarms[second].population.len();
                let decision = decide(
                    self.swarms[first].best_solution_value,
                    self.swarms[second].best_solution_value,
                    n_first,
                    n_second,
                );
                self.migration_step(first, second, decision);
                proof {
                    let f_i = first as int;
                    let s_i = second as int;
                    // The schedule's next entry is exactly this pair.
                    assert(pair_order_from(f_i, s_i, size as int) == seq![(f_i, s_i)]
                        + pair_order_from(f_i, s_i + 1, size as int));
                    assert(pairs.skip(t)[0] == pairs[t]);
                    assert(pairs[t] == (f_i, s_i));
                    assert(t < pairs.len());
                    assert(migration_stepped(before, *self, f_i, s_i, decision));
                    let new_states = states.push(*self);
                    let new_decisions = decisions.push(decision);
                    assert forall|u: int|
                        0 <= u < new_decisions.len() implies #[trigger] pass_step_ok(
                        decide,
                        new_states,
                        new_decisions,
                        pairs,
                        u,
                    ) by {
                        if u < t {
                            assert(pass_step_ok(decide, states, decisions, pairs, u));
                            assert(new_states[u] == states[u]);
                            assert(new_states[u + 1] == states[u + 1]);
                            assert(new_decisions[u] == decisions[u]);
                        } else {
                            assert(new_states[t] == before);
                            assert(new_states[t + 1] == *self);
                            assert(new_decisions[t] == decision);
                        }
                    }
                    states = new_states;
                    decisions = new_decisions;
                    assert(pairs.skip(t + 1) =~= pairs.skip(t).skip(1));
                    assert(pairs.skip(t).skip(1) =~= pair_order_from(f_i, s_i + 1, size as int));
                    assert(pairs.skip(decisions.len() as int) == pair_order_from(
                        f_i,
                        s_i + 1,
                        size as int,
                    ));
                    if all_none {
                        assert(decision is None);
                        assert(*self == before);
                    }
                }
                second = second + 1;
            }
            proof {
                assert(pair_order_from(first as int, size as int, size as int)
                    == pair_order_from(first as int + 1, first as int + 2, size as int));
            }
            first = first + 1;
        }
        proof {
            assert(pair_order_from(size as int - 1, size as int, size as int) =~= Seq::<(
                int,
                int,
            )>::empty());
            assert(decisions.len() == pairs.len());
            assert(valid_migration_trace(decide, *old(self), *self, states, decisions));
            assert(migration_pass_trace(decide, *old(self), *self));
        }
    }

    /// Reset every contained swarm around its entry of `fresh` and rebuild
    /// the global best tracking from scratch; swarm count, migration
    /// threshold and every swarm's configuration survive untouched.
    pub fn reset(&mut self, fresh: Vec<Vec<M>>)
        requires
            old(self).swarms@.len() >= 2,
            fresh@.len() == old(self).swarms@.len(),
            forall|k: int|
                0 <= k < fresh@.len()
                    ==> (#[trigger] fresh@[k]@.len()) == old(self).swarms@[k].population@.len(),
            forall|k: int| 0 <= k < fresh@.len() ==> fresh@[k]@.len() > 0,
        ensures
            final(self).swarms@.len() == old(self).swarms@.len(),
            final(self).migration_threshold == old(self).migration_threshold,
            forall|k: int|
                0 <= k < final(self).swarms@.len() ==> reset_swarm(
                    old(self).swarms@[k],
                    final(self).swarms@[k],
                    fresh@[k]@,
                ),
            swarm_exact_best(
                final(self).best_solution_value,
                final(self).best_solution@,
                final(self).swarms@,
            ),
    {
        let ghost fresh0 = fresh@;
        let n = self.swarms.len();
        let mut rest = fresh;
        let mut k: usize = 0;
        while k < n
            invariant
                k <= n,
                n == self.swarms@.len(),
                n == old(self).swarms@.len(),
                rest@ == fresh0.skip(k as int),
                fresh0.len() == n,
                forall|j: int|
                    0 <= j < fresh0.len()
                        ==> (#[trigger] fresh0[j]@.len()) == old(self).swarms@[j].population@.len(),
                forall|j: int| 0 <= j < fresh0.len() ==> fresh0[j]@.len() > 0,
                self.migration_threshold == old(self).migration_threshold,
                forall|j: int|
                    0 <= j < k ==> reset_swarm(
                        old(self).swarms@[j],
                        #[trigger] self.swarms@[j],
                        fresh0[j]@,
                    ),
                forall|j: int| k <= j < n ==> self.swarms@[j] == old(self).swarms@[j],
            decreases n - k,
        {
            let ghost swarms_before = self.swarms@;
            let fresh_k = rest.remove(0);
            proof {
                assert(fresh0.skip(k as int)[0] == fresh0[k as int]);
                assert(rest@ =~= fresh0.skip(k as int + 1));
            }
            let mut s = self.swarms.remove(k);
            s.reset(fresh_k);
            self.swarms.insert(k, s);
            proof {
                assert(self.swarms@ =~= swarms_before.update(k as int, self.swarms@[k as int]));
            }
            k = k + 1;
        }
        let best = best_swarm_index(&self.swarms);
        let pos = self.swarms[best].best_solution.duplicate();
        self.best_solution = pos;
        self.best_solution_value = self.swarms[best].best_solution_value;
    }
}

} // verus!
