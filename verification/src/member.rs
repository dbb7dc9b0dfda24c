use vstd::prelude::*;
use rand::seq::SliceRandom;
use crate::vector::VectorN;

verus! {

/// A population member carrying a position and a cached fitness key (see
/// `vector`: keys order like the real fitness measurements; lower is better).
pub trait Member: Sized {
    spec fn fitness(&self) -> u64;

    spec fn position(&self) -> Seq<u64>;

    fn fitness_key(&self) -> (k: u64)
        ensures
            k == self.fitness(),
    ;

    fn position_point(&self) -> (p: VectorN)
        ensures
            p@ == self.position(),
    ;
}

/// Ascending fitness order: the best member (lowest key) first.
pub open spec fn sorted_ascending<M: Member>(s: Seq<M>) -> bool {
    forall|i: int, j: int| 0 <= i <= j < s.len() ==> s[i].fitness() <= s[j].fitness()
}

/// Descending fitness order: the worst member (highest key) first.
pub open spec fn sorted_descending<M: Member>(s: Seq<M>) -> bool {
    forall|i: int, j: int| 0 <= i <= j < s.len() ==> s[i].fitness() >= s[j].fitness()
}

/// `b` is at or below every fitness in the population.
pub open spec fn fitness_lower_bound<M: Member>(b: u64, s: Seq<M>) -> bool {
    forall|k: int| 0 <= k < s.len() ==> b <= s[k].fitness()
}

/// The index of a best (lowest-fitness) member.
pub fn best_index<M: Member>(pop: &Vec<M>) -> (best: usize)
    requires
        pop@.len() > 0,
    ensures
        best < pop@.len(),
        fitness_lower_bound(pop@[best as int].fitness(), pop@),
{
    let mut best: usize = 0;
    let mut best_key: u64 = pop[0].fitness_key();
    let mut i: usize = 1;
    while i < pop.len()
        invariant
            best < i <= pop@.len(),
            best_key == pop@[best as int].fitness(),
            forall|k: int| 0 <= k < i ==> best_key <= pop@[k].fitness(),
        decreases pop@.len() - i,
    {
        let key = pop[i].fitness_key();
        if key < best_key {
            best = i;
            best_key = key;
        }
        i = i + 1;
    }
    best
}

/// The index at which a key can be inserted into an ascending population
/// without breaking the order.
fn ascending_insertion_point<M: Member>(out: &Vec<M>, key: u64) -> (idx: usize)
    requires
        sorted_ascending(out@),
    ensures
        idx <= out@.len(),
        forall|k: int| 0 <= k < idx ==> out@[k].fitness() <= key,
        forall|k: int| idx <= k < out@.len() ==> out@[k].fitness() > key,
{
    let mut idx: usize = 0;
    while idx < out.len()
        invariant
            idx <= out@.len(),
            sorted_ascending(out@),
            forall|k: int| 0 <= k < idx ==> out@[k].fitness() <= key,
        decreases out@.len() - idx,
    {
        if out[idx].fitness_key() > key {
            return idx;
        }
        idx = idx + 1;
    }
    idx
}

/// As `ascending_insertion_point`, for a descending population.
fn descending_insertion_point<M: Member>(out: &Vec<M>, key: u64) -> (idx: usize)
    requires
        sorted_descending(out@),
    ensures
        idx <= out@.len(),
        forall|k: int| 0 <= k < idx ==> out@[k].fitness() >= key,
        forall|k: int| idx <= k < out@.len() ==> out@[k].fitness() < key,
{
    let mut idx: usize = 0;
    while idx < out.len()
        invariant
            idx <= out@.len(),
            sorted_descending(out@),
            forall|k: int| 0 <= k < idx ==> out@[k].fitness() >= key,
        decreases out@.len() - idx,
    {
        if out[idx].fitness_key() < key {
            return idx;
        }
        idx = idx + 1;
    }
    idx
}

/// Sort a population ascending by fitness (best first). The result holds
/// exactly the members that went in.
pub fn sort_ascending<M: Member>(v: Vec<M>) -> (r: Vec<M>)
    ensures
        sorted_ascending(r@),
        r@.to_multiset() == v@.to_multiset(),
        r@.len() == v@.len(),
{
    let ghost orig = v@;
    let mut rest = v;
    let mut out: Vec<M> = Vec::new();
    proof {
        broadcast use vstd::seq_lib::group_to_multiset_ensures;

        assert(out@.to_multiset().add(rest@.to_multiset()) =~= orig.to_multiset());
    }
    while rest.len() > 0
        invariant
            sorted_ascending(out@),
            out@.to_multiset().add(rest@.to_multiset()) == orig.to_multiset(),
            out@.len() + rest@.len() == orig.len(),
        decreases rest@.len(),
    {
        let ghost rest_before = rest@;
        let ghost out_before = out@;
        let x = rest.pop().unwrap();
        let idx = ascending_insertion_point(&out, x.fitness_key());
        out.insert(idx, x);
        proof {
            broadcast use vstd::seq_lib::group_to_multiset_ensures;

            assert(rest_before =~= rest@.push(x));
            assert(out@ == out_before.insert(idx as int, x));
            out_before.insert_ensures(idx as int, x);
            assert(sorted_ascending(out@));
            assert(out@.to_multiset().add(rest@.to_multiset()) =~= orig.to_multiset());
        }
    }
    out
}

/// Sort a population descending by fitness (worst first). The result holds
/// exactly the members that went in.
pub fn sort_descending<M: Member>(v: Vec<M>) -> (r: Vec<M>)
    ensures
        sorted_descending(r@),
        r@.to_multiset() == v@.to_multiset(),
        r@.len() == v@.len(),
{
    let ghost orig = v@;
    let mut rest = v;
    let mut out: Vec<M> = Vec::new();
    proof {
        broadcast use vstd::seq_lib::group_to_multiset_ensures;

        assert(out@.to_multiset().add(rest@.to_multiset()) =~= orig.to_multiset());
    }
    while rest.len() > 0
        invariant
            sorted_descending(out@),
            out@.to_multiset().add(rest@.to_multiset()) == orig.to_multiset(),
            out@.len() + rest@.len() == orig.len(),
        decreases rest@.len(),
    {
        let ghost rest_before = rest@;
        let ghost out_before = out@;
        let x = rest.pop().unwrap();
        let idx = descending_insertion_point(&out, x.fitness_key());
        out.insert(idx, x);
        proof {
            broadcast use vstd::seq_lib::group_to_multiset_ensures;

            assert(rest_before =~= rest@.push(x));
            assert(out@ == out_before.insert(idx as int, x));
            out_before.insert_ensures(idx as int, x);
            assert(sorted_descending(out@));
            assert(out@.to_multiset().add(rest@.to_multiset()) =~= orig.to_multiset());
        }
    }
    out
}

/// Relies on rand's `SliceRandom::shuffle`: it permutes the slice in place by
/// swaps, so the members are rearranged and none is created or destroyed.
#[verifier::external_body]
fn shuffle_members<M>(v: &mut Vec<M>)
    ensures
        final(v)@.len() == old(v)@.len(),
        final(v)@.to_multiset() == old(v)@.to_multiset(),
{
    v.shuffle(&mut rand::thread_rng());
}

/// What one pairwise migration exchange leaves behind, as contents. Ranking
/// a population only fixes which *fitness keys* stand where, so the outcome
/// is stated over some ascending arrangement `si` of the first population and
/// some descending arrangement `sj` of the second: the first population ends
/// up with `si`'s tail (its worse members) plus `sj`'s head (the second's
/// worst members), the second with `si`'s head (the first's best members)
/// plus `sj`'s tail (the second's better members).
pub open spec fn migration_outcome<M: Member>(
    first: Seq<M>,
    second: Seq<M>,
    count: int,
    new_first: Seq<M>,
    new_second: Seq<M>,
) -> bool {
    exists|si: Seq<M>, sj: Seq<M>|
        {
            &&& sorted_ascending(si)
            &&& si.to_multiset() == first.to_multiset()
            &&& sorted_descending(sj)
            &&& sj.to_multiset() == second.to_multiset()
            &&& new_first.to_multiset() == si.skip(count).to_multiset().add(
                sj.take(count).to_multiset(),
            )
            &&& new_second.to_multiset() == si.take(count).to_multiset().add(
                sj.skip(count).to_multiset(),
            )
        }
}

/// One pairwise migration exchange between two populations that `count`
/// members leave in each direction.
///
/// The first population is ranked ascending (best first), the second
/// descending (worst first); each is split after its first `count` members.
/// The first population keeps its own tail (its worse members) and receives
/// the second's head (the second's worst members); the second keeps its own
/// tail (its better members) and receives the first's head (the first's best
/// members). Both results are then shuffled into a random order. The exchange
/// conserves members: nothing is created or destroyed.
pub fn migrate_populations<M: Member>(pop_first: Vec<M>, pop_second: Vec<M>, count: usize) -> (r: (
    Vec<M>,
    Vec<M>,
))
    requires
        count <= pop_first@.len(),
        count <= pop_second@.len(),
    ensures
        r.0@.len() == pop_first@.len(),
        r.1@.len() == pop_second@.len(),
        r.0@.to_multiset().add(r.1@.to_multiset()) == pop_first@.to_multiset().add(
            pop_second@.to_multiset(),
        ),
        migration_outcome(pop_first@, pop_second@, count as int, r.0@, r.1@),
{
    let mut best_of_first = sort_ascending(pop_first);
    let mut worst_of_second = sort_descending(pop_second);
    let ghost si = best_of_first@;
    let ghost sj = worst_of_second@;
    let mut new_first = best_of_first.split_off(count);
    let mut tail_of_second = worst_of_second.split_off(count);
    // best_of_first now holds the first population's `count` best members,
    // worst_of_second the second population's `count` worst.
    new_first.append(&mut worst_of_second);
    let mut new_second = best_of_first;
    new_second.append(&mut tail_of_second);
    shuffle_members(&mut new_first);
    shuffle_members(&mut new_second);
    proof {
        broadcast use vstd::seq_lib::group_to_multiset_ensures;
        broadcast use vstd::multiset::group_multiset_axioms;

        let c = count as int;
        vstd::seq_lib::lemma_multiset_commutative(si.skip(c), sj.take(c));
        vstd::seq_lib::lemma_multiset_commutative(si.take(c), sj.skip(c));
        lemma_multiset_split(si, c);
        lemma_multiset_split(sj, c);
        assert(new_first@.to_multiset() == si.skip(c).to_multiset().add(sj.take(c).to_multiset()));
        assert(new_second@.to_multiset() == si.take(c).to_multiset().add(sj.skip(c).to_multiset()));
        assert(new_first@.to_multiset().add(new_second@.to_multiset())
            =~= pop_first@.to_multiset().add(pop_second@.to_multiset()));
        assert(migration_outcome(pop_first@, pop_second@, c, new_first@, new_second@));
    }
    (new_first, new_second)
}

/// A sequence is its first `n` members and the rest, as multisets.
proof fn lemma_multiset_split<M>(s: Seq<M>, n: int)
    requires
        0 <= n <= s.len(),
    ensures
        s.take(n).to_multiset().add(s.skip(n).to_multiset()) == s.to_multiset(),
{
    assert(s =~= s.take(n) + s.skip(n));
    vstd::seq_lib::lemma_multiset_commutative(s.take(n), s.skip(n));
}

} // verus!
