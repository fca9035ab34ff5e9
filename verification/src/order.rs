//! Why the order of the pulls does not matter: where no sum runs into the ends
//! of the numbers, the force that the grid gives is the force over all pairs.

use crate::config::Configuration;
use crate::fixed::Fixed;
use crate::particle::Particle;
use crate::scalar::Scalar;
use crate::universe::Universe;
use crate::vector::Vector;
use vstd::prelude::*;

verus! {

/// The pull of particle `j` on particle `i` by itself: what it adds to a force
/// of zero. A particle has no pull on itself.
pub open spec fn share(
    particles: Seq<Particle<Fixed>>,
    table: Seq<Seq<Fixed>>,
    i: int,
    j: int,
    config: Configuration<Fixed>,
) -> Vector<Fixed> {
    if j == i {
        Vector::<Fixed>::zero_spec()
    } else {
        crate::physics::pull_spec(
            Vector::<Fixed>::zero_spec(),
            particles[i].position,
            particles[j].position,
            table[particles[i].variety.index() as int][particles[j].variety.index() as int],
            config,
        )
    }
}

/// The sum of `f` over the particles of a list.
pub open spec fn total(list: Seq<usize>, f: spec_fn(usize) -> int) -> int
    decreases list.len(),
{
    if list.len() == 0 {
        0
    } else {
        total(list.drop_last(), f) + f(list.last())
    }
}

/// The sum of `f` over those of the first `n` particles that are in a set.
pub open spec fn total_below(n: nat, set: Set<usize>, f: spec_fn(usize) -> int) -> int
    decreases n,
{
    if n == 0 {
        0
    } else {
        total_below((n - 1) as nat, set, f) + if set.contains((n - 1) as usize) {
            f((n - 1) as usize)
        } else {
            0
        }
    }
}

/// The pull of each particle on particle `i` along the first axis, in raw
/// units.
pub open spec fn share_x(
    particles: Seq<Particle<Fixed>>,
    table: Seq<Seq<Fixed>>,
    i: int,
    config: Configuration<Fixed>,
) -> spec_fn(usize) -> int {
    |j: usize| share(particles, table, i, j as int, config).x.raw as int
}

/// The pull of each particle on particle `i` along the second axis, in raw
/// units.
pub open spec fn share_y(
    particles: Seq<Particle<Fixed>>,
    table: Seq<Seq<Fixed>>,
    i: int,
    config: Configuration<Fixed>,
) -> spec_fn(usize) -> int {
    |j: usize| share(particles, table, i, j as int, config).y.raw as int
}

/// The size of the pull of each particle on particle `i` along the first axis.
pub open spec fn size_x(
    particles: Seq<Particle<Fixed>>,
    table: Seq<Seq<Fixed>>,
    i: int,
    config: Configuration<Fixed>,
) -> spec_fn(usize) -> int {
    |j: usize| crate::fixed::magnitude(share(particles, table, i, j as int, config).x.raw as int)
}

/// The size of the pull of each particle on particle `i` along the second
/// axis.
pub open spec fn size_y(
    particles: Seq<Particle<Fixed>>,
    table: Seq<Seq<Fixed>>,
    i: int,
    config: Configuration<Fixed>,
) -> spec_fn(usize) -> int {
    |j: usize| crate::fixed::magnitude(share(particles, table, i, j as int, config).y.raw as int)
}

/// Whether the pulls on particle `i` can be added up in any order without a
/// sum running into the ends of the numbers: along each axis the sizes of all
/// pulls together fit a number.
pub open spec fn pulls_fit(
    particles: Seq<Particle<Fixed>>,
    table: Seq<Seq<Fixed>>,
    i: int,
    config: Configuration<Fixed>,
) -> bool {
    &&& total(crate::physics::everyone(particles.len()), size_x(particles, table, i, config))
        <= i64::MAX
    &&& total(crate::physics::everyone(particles.len()), size_y(particles, table, i, config))
        <= i64::MAX
}

/// A pull is an addition: pulling on a force is adding the pull by itself.
pub proof fn lemma_pull_is_addition(
    acc: Vector<Fixed>,
    here: Vector<Fixed>,
    there: Vector<Fixed>,
    attraction: Fixed,
    config: Configuration<Fixed>,
)
    ensures
        crate::physics::pull_spec(acc, here, there, attraction, config) == acc.add_spec(
            crate::physics::pull_spec(
                Vector::<Fixed>::zero_spec(),
                here,
                there,
                attraction,
                config,
            ),
        ),
{
}

/// Where the sizes of the pulls of a list fit a number, the force from the
/// list is the plain sum of the pulls.
pub proof fn lemma_force_is_the_sum(
    particles: Seq<Particle<Fixed>>,
    table: Seq<Seq<Fixed>>,
    i: int,
    list: Seq<usize>,
    config: Configuration<Fixed>,
)
    requires
        total(list, size_x(particles, table, i, config)) <= i64::MAX,
        total(list, size_y(particles, table, i, config)) <= i64::MAX,
    ensures
        crate::physics::force_from(particles, table, i, list, config).x.raw == total(
            list,
            share_x(particles, table, i, config),
        ),
        crate::physics::force_from(particles, table, i, list, config).y.raw == total(
            list,
            share_y(particles, table, i, config),
        ),
        crate::fixed::magnitude(total(list, share_x(particles, table, i, config))) <= total(
            list,
            size_x(particles, table, i, config),
        ),
        crate::fixed::magnitude(total(list, share_y(particles, table, i, config))) <= total(
            list,
            size_y(particles, table, i, config),
        ),
    decreases list.len(),
{
    if list.len() > 0 {
        let before = list.drop_last();
        let j = list.last();
        lemma_sizes_are_not_negative(before, size_x(particles, table, i, config));
        lemma_sizes_are_not_negative(before, size_y(particles, table, i, config));
        assert(size_x(particles, table, i, config)(j) >= 0);
        assert(size_y(particles, table, i, config)(j) >= 0);
        lemma_force_is_the_sum(particles, table, i, before, config);
        if j as int != i {
            lemma_pull_is_addition(
                crate::physics::force_from(particles, table, i, before, config),
                particles[i].position,
                particles[j as int].position,
                table[particles[i].variety.index() as int][particles[j as int].variety.index() as int],
                config,
            );
        }
        assert(share_x(particles, table, i, config)(j) == share(
            particles,
            table,
            i,
            j as int,
            config,
        ).x.raw);
        assert(share_y(particles, table, i, config)(j) == share(
            particles,
            table,
            i,
            j as int,
            config,
        ).y.raw);
    }
}

/// A sum of sizes is not negative.
pub proof fn lemma_sizes_are_not_negative(list: Seq<usize>, f: spec_fn(usize) -> int)
    requires
        forall|j: usize| #[trigger] f(j) >= 0,
    ensures
        total(list, f) >= 0,
    decreases list.len(),
{
    if list.len() > 0 {
        lemma_sizes_are_not_negative(list.drop_last(), f);
    }
}

/// Putting one more particle into the set adds what `f` gives for it.
pub proof fn lemma_total_below_grows(n: nat, set: Set<usize>, x: usize, f: spec_fn(usize) -> int)
    requires
        !set.contains(x),
        n <= usize::MAX,
    ensures
        total_below(n, set.insert(x), f) == total_below(n, set, f) + if x < n {
            f(x)
        } else {
            0
        },
    decreases n,
{
    if n > 0 {
        lemma_total_below_grows((n - 1) as nat, set, x, f);
    }
}

/// The sum over nobody is nothing.
pub proof fn lemma_total_below_of_nobody(n: nat, f: spec_fn(usize) -> int)
    ensures
        total_below(n, Set::<usize>::empty(), f) == 0,
    decreases n,
{
    if n > 0 {
        lemma_total_below_of_nobody((n - 1) as nat, f);
    }
}

/// The sum over a list in which no particle comes twice is the sum over the set
/// of its particles: the order of the list does not matter.
pub proof fn lemma_total_forgets_the_order(list: Seq<usize>, n: nat, f: spec_fn(usize) -> int)
    requires
        list.no_duplicates(),
        forall|k: int| 0 <= k < list.len() ==> (#[trigger] list[k]) < n,
        n <= usize::MAX,
    ensures
        total(list, f) == total_below(n, list.to_set(), f),
    decreases list.len(),
{
    if list.len() == 0 {
        assert(list.to_set() =~= Set::<usize>::empty());
        lemma_total_below_of_nobody(n, f);
    } else {
        let before = list.drop_last();
        let x = list.last();
        lemma_total_forgets_the_order(before, n, f);
        assert(!before.to_set().contains(x)) by {
            if before.contains(x) {
                let at = choose|at: int| 0 <= at < before.len() && before[at] == x;
                assert(list[at] == list[list.len() - 1]);
            }
        }
        assert(list.to_set() =~= before.to_set().insert(x)) by {
            assert forall|v: usize| list.to_set().contains(v) <==> before.to_set().insert(
                x,
            ).contains(v) by {
                if list.contains(v) {
                    let at = choose|at: int| 0 <= at < list.len() && list[at] == v;
                    if at < before.len() {
                        assert(before[at] == v);
                    }
                }
                if before.contains(v) {
                    let at = choose|at: int| 0 <= at < before.len() && before[at] == v;
                    assert(list[at] == v);
                }
                assert(list[list.len() - 1] == x);
            }
        }
        assert(list[list.len() - 1] < n);
        lemma_total_below_grows(n, before.to_set(), x, f);
    }
}

/// Two sets that differ only in particles for which `f` gives nothing have the
/// same sum.
pub proof fn lemma_total_below_agrees(
    n: nat,
    one: Set<usize>,
    other: Set<usize>,
    f: spec_fn(usize) -> int,
)
    requires
        forall|j: usize| j < n && one.contains(j) != other.contains(j) ==> #[trigger] f(j) == 0,
        n <= usize::MAX,
    ensures
        total_below(n, one, f) == total_below(n, other, f),
    decreases n,
{
    if n > 0 {
        lemma_total_below_agrees((n - 1) as nat, one, other, f);
    }
}

/// A particle that does not pull adds nothing.
pub proof fn lemma_no_pull_no_share(
    particles: Seq<Particle<Fixed>>,
    table: Seq<Seq<Fixed>>,
    i: int,
    j: int,
    config: Configuration<Fixed>,
)
    requires
        !crate::physics::pulls(particles, config, i, j),
    ensures
        share(particles, table, i, j, config).x.raw == 0,
        share(particles, table, i, j, config).y.raw == 0,
{
}

/// The force that a grid gives which holds the particles as they lie is the
/// force over all pairs. This holds where the cells cover the reach, all
/// particles lie on the torus, and the pulls on the particle can be added up in
/// any order without a sum running into the ends of the numbers.
pub proof fn lemma_grid_force_is_the_force_over_all(
    particles: Seq<Particle<Fixed>>,
    table: Seq<Seq<Fixed>>,
    config: Configuration<Fixed>,
    i: int,
)
    requires
        0 <= i < particles.len() <= usize::MAX,
        crate::reach::cells_cover_reach(config),
        forall|k: int|
            0 <= k < particles.len() ==> crate::reach::on_torus((#[trigger] particles[k]).position),
        pulls_fit(particles, table, i, config),
    ensures
        crate::physics::force_on(particles, table, i, config) == crate::physics::force_over_all(
            particles,
            table,
            i,
            config,
        ),
{
    let n = particles.len();
    let found = crate::physics::candidates(particles, config, i);
    let every = crate::physics::everyone(n);
    let cell = crate::physics::cell_of(particles[i].position, config.cell_size);
    let side = config.cell_size;
    crate::reach::lemma_cell_is_quotient(crate::config::width_spec::<Fixed>(), side);
    crate::reach::lemma_cell_is_quotient(crate::config::height_spec::<Fixed>(), side);
    crate::laws::lemma_candidates_once(particles, config, i);
    crate::physics::lemma_nearby_below(particles, config, cell.0, cell.1, 9);
    let fx = share_x(particles, table, i, config);
    let fy = share_y(particles, table, i, config);
    let ax = size_x(particles, table, i, config);
    let ay = size_y(particles, table, i, config);
    assert forall|j: usize| j < n && found.to_set().contains(j) != every.to_set().contains(
        j,
    ) implies fx(j) == 0 && fy(j) == 0 && ax(j) == 0 && ay(j) == 0 by {
        assert(every[j as int] == j);
        assert(every.contains(j));
        assert(!found.contains(j));
        if crate::physics::pulls(particles, config, i, j as int) {
            crate::reach::lemma_grid_misses_nobody(particles, config, i, j as int);
        }
        lemma_no_pull_no_share(particles, table, i, j as int, config);
    }
    lemma_total_forgets_the_order(found, n, fx);
    lemma_total_forgets_the_order(found, n, fy);
    lemma_total_forgets_the_order(found, n, ax);
    lemma_total_forgets_the_order(found, n, ay);
    lemma_total_forgets_the_order(every, n, fx);
    lemma_total_forgets_the_order(every, n, fy);
    lemma_total_forgets_the_order(every, n, ax);
    lemma_total_forgets_the_order(every, n, ay);
    lemma_total_below_agrees(n, found.to_set(), every.to_set(), fx);
    lemma_total_below_agrees(n, found.to_set(), every.to_set(), fy);
    lemma_total_below_agrees(n, found.to_set(), every.to_set(), ax);
    lemma_total_below_agrees(n, found.to_set(), every.to_set(), ay);
    lemma_force_is_the_sum(particles, table, i, found, config);
    lemma_force_is_the_sum(particles, table, i, every, config);
}

/// In a universe whose grid holds the particles as they lie, the force that a
/// step takes for a particle is the force over all pairs, under the same
/// conditions.
pub proof fn lemma_step_takes_the_force_over_all(
    universe: Universe<Fixed>,
    config: Configuration<Fixed>,
    i: int,
)
    requires
        universe.grid_matches(config.cell_size),
        0 <= i < universe.particles@.len(),
        crate::reach::cells_cover_reach(config),
        forall|k: int|
            0 <= k < universe.particles@.len() ==> crate::reach::on_torus(
                (#[trigger] universe.particles@[k]).position,
            ),
        pulls_fit(universe.particles@, universe.table(), i, config),
    ensures
        universe.force_on(i, config) == crate::physics::force_over_all(
            universe.particles@,
            universe.table(),
            i,
            config,
        ),
{
    assert(universe.particles@.len() == universe.particles.len());
    universe.lemma_fresh_grid_force(i, config);
    lemma_grid_force_is_the_force_over_all(universe.particles@, universe.table(), config, i);
}

} // verus!
