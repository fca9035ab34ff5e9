//! The force between two particles, the movement of one, and the lists of
//! particles that the grid gives.

use crate::config::{Configuration, HEIGHT, WIDTH};
use crate::particle::Particle;
use crate::scalar::Scalar;
use crate::vector::Vector;
use vstd::prelude::*;

verus! {

/// The difference `d` between two coordinates, taken the short way round a
/// torus of the given extent: a difference of more than half the extent is
/// shortened by the extent, one of less than minus half the extent is
/// lengthened by it.
pub open spec fn wrap_delta<T: Scalar>(d: T, extent: T) -> T {
    if extent.div_spec(T::ratio_spec(2, 1)).lt_spec(d) {
        d.sub_spec(extent)
    } else if d.lt_spec(extent.neg_spec().div_spec(T::ratio_spec(2, 1))) {
        d.add_spec(extent)
    } else {
        d
    }
}

/// The length of the displacement `(dx, dy)`.
pub open spec fn length_spec<T: Scalar>(dx: T, dy: T) -> T {
    dx.mul_spec(dx).add_spec(dy.mul_spec(dy)).sqrt_spec()
}

/// The distance between two points, measured the short way round the torus.
pub open spec fn separation<T: Scalar>(here: Vector<T>, there: Vector<T>) -> T {
    length_spec(
        wrap_delta(there.x.sub_spec(here.x), crate::config::width_spec::<T>()),
        wrap_delta(there.y.sub_spec(here.y), crate::config::height_spec::<T>()),
    )
}

/// The signed strength of the force between two particles at the given
/// distance, of two kinds with the given attraction coefficient. Below the
/// minimum distance it is a repulsion that does not depend on the coefficient
/// and stays bounded near distance zero; from there on it is the coefficient
/// over the squared distance.
pub open spec fn force_spec<T: Scalar>(distance: T, attraction: T, config: Configuration<T>) -> T {
    if distance.lt_spec(config.distance_min) {
        config.standard_repulsion.neg_spec().div_spec(
            distance.mul_spec(distance).add_spec(config.buffer_distance),
        )
    } else {
        attraction.div_spec(distance.mul_spec(distance))
    }
}

/// The force `acc` with the pull of a particle at `there` on one at `here`
/// added to it. The displacement between the two is taken the short way round
/// the torus. At the maximum distance and beyond there is no pull, and `acc`
/// is returned as it is; otherwise the pull has the strength that `force_spec`
/// gives and points along the displacement.
pub open spec fn pull_spec<T: Scalar>(
    acc: Vector<T>,
    here: Vector<T>,
    there: Vector<T>,
    attraction: T,
    config: Configuration<T>,
) -> Vector<T> {
    let dx = wrap_delta(there.x.sub_spec(here.x), crate::config::width_spec::<T>());
    let dy = wrap_delta(there.y.sub_spec(here.y), crate::config::height_spec::<T>());
    let distance = length_spec(dx, dy);
    if distance.lt_spec(config.distance_max) {
        let force = force_spec(distance, attraction, config);
        Vector {
            x: acc.x.add_spec(force.mul_spec(dx).div_spec(distance)),
            y: acc.y.add_spec(force.mul_spec(dy).div_spec(distance)),
        }
    } else {
        acc
    }
}

/// The coordinate `x` brought back onto a torus of the given extent after one
/// step: a negative coordinate has the extent added, one beyond the extent has
/// it taken off.
pub open spec fn wrap_position<T: Scalar>(x: T, extent: T) -> T {
    if x.lt_spec(crate::scalar::zero::<T>()) {
        x.add_spec(extent)
    } else if extent.lt_spec(x) {
        x.sub_spec(extent)
    } else {
        x
    }
}

/// The particle `p` after one tick of movement: it has moved by its velocity
/// times the tick, wrapped round the torus, and its velocity has been damped by
/// the friction.
pub open spec fn moved<T: Scalar>(p: Particle<T>, config: Configuration<T>) -> Particle<T> {
    let target = p.position.add_spec(p.velocity.mul_spec(config.tick));
    Particle {
        velocity: p.velocity.mul_spec(config.friction),
        position: Vector {
            x: wrap_position(target.x, crate::config::width_spec::<T>()),
            y: wrap_position(target.y, crate::config::height_spec::<T>()),
        },
        variety: p.variety,
    }
}

/// The particle `p` after the force `force` has acted on it for one tick.
pub open spec fn pushed<T: Scalar>(p: Particle<T>, force: Vector<T>, config: Configuration<T>) -> Particle<T> {
    Particle {
        velocity: p.velocity.add_spec(force.mul_spec(config.tick)),
        position: p.position,
        variety: p.variety,
    }
}

/// The cell in which a point lies, for square cells of the given side: each
/// coordinate over the side, rounded down. Cells left of or below the origin
/// have negative coordinates.
pub open spec fn cell_of<T: Scalar>(position: Vector<T>, cell_size: T) -> (isize, isize) {
    (position.x.floor_div_spec(cell_size), position.y.floor_div_spec(cell_size))
}

/// The indices of those among the first `n` particles that lie in the cell
/// `(cx, cy)`, in rising order.
pub open spec fn members<T: Scalar>(
    particles: Seq<Particle<T>>,
    cell_size: T,
    cx: isize,
    cy: isize,
    n: int,
) -> Seq<usize>
    decreases n,
{
    if n <= 0 {
        Seq::empty()
    } else {
        let before = members(particles, cell_size, cx, cy, n - 1);
        if cell_of(particles[n - 1].position, cell_size) == (cx, cy) {
            before.push((n - 1) as usize)
        } else {
            before
        }
    }
}

/// The indices of the particles in the first `n` cells of the three-by-three
/// block of cells around `(cx, cy)`, on the torus of cells that the
/// configuration gives. The cells come in the order in which the block is
/// counted, and each cell's particles in rising order.
pub open spec fn nearby<T: Scalar>(
    particles: Seq<Particle<T>>,
    config: Configuration<T>,
    cx: isize,
    cy: isize,
    n: int,
) -> Seq<usize>
    decreases n,
{
    if n <= 0 {
        Seq::empty()
    } else {
        let cell = crate::grid::block_cell(
            cx,
            cy,
            config.columns() as isize,
            config.rows() as isize,
            n - 1,
        );
        nearby(particles, config, cx, cy, n - 1) + members(
            particles,
            config.cell_size,
            cell.0,
            cell.1,
            particles.len() as int,
        )
    }
}

/// The indices of the particles that are looked at for their pull on particle
/// `i`: those in its own cell and in the eight cells around it.
pub open spec fn candidates<T: Scalar>(
    particles: Seq<Particle<T>>,
    config: Configuration<T>,
    i: int,
) -> Seq<usize> {
    let cell = cell_of(particles[i].position, config.cell_size);
    nearby(particles, config, cell.0, cell.1, 9)
}

/// The force on particle `i` from the particles in `others`, added up in the
/// order of `others`, starting from zero. The particle itself is passed over.
pub open spec fn force_from<T: Scalar>(
    particles: Seq<Particle<T>>,
    table: Seq<Seq<T>>,
    i: int,
    others: Seq<usize>,
    config: Configuration<T>,
) -> Vector<T>
    decreases others.len(),
{
    if others.len() == 0 {
        Vector::<T>::zero_spec()
    } else {
        let acc = force_from(particles, table, i, others.drop_last(), config);
        let j = others.last() as int;
        if j == i {
            acc
        } else {
            pull_spec(
                acc,
                particles[i].position,
                particles[j].position,
                table[particles[i].variety.index() as int][particles[j].variety.index() as int],
                config,
            )
        }
    }
}

/// The force on particle `i` from the particles in its own cell and in the
/// eight cells around it.
pub open spec fn force_on<T: Scalar>(
    particles: Seq<Particle<T>>,
    table: Seq<Seq<T>>,
    i: int,
    config: Configuration<T>,
) -> Vector<T> {
    force_from(particles, table, i, candidates(particles, config, i), config)
}

/// Whether particle `j` pulls on particle `i`: it is another particle, less
/// than the maximum distance away.
pub open spec fn pulls<T: Scalar>(
    particles: Seq<Particle<T>>,
    config: Configuration<T>,
    i: int,
    j: int,
) -> bool {
    j != i && separation(particles[i].position, particles[j].position).lt_spec(
        config.distance_max,
    )
}

/// Those of `others` that pull on particle `i`, in the order of `others`.
pub open spec fn pulling<T: Scalar>(
    particles: Seq<Particle<T>>,
    config: Configuration<T>,
    i: int,
    others: Seq<usize>,
) -> Seq<usize>
    decreases others.len(),
{
    if others.len() == 0 {
        Seq::empty()
    } else {
        let before = pulling(particles, config, i, others.drop_last());
        if pulls(particles, config, i, others.last() as int) {
            before.push(others.last())
        } else {
            before
        }
    }
}

/// The indices of all `n` particles, in rising order.
pub open spec fn everyone(n: nat) -> Seq<usize> {
    Seq::new(n, |k: int| k as usize)
}

/// The force on particle `i` from all other particles, added up in the order
/// of their indices, without the help of the grid.
pub open spec fn force_over_all<T: Scalar>(
    particles: Seq<Particle<T>>,
    table: Seq<Seq<T>>,
    i: int,
    config: Configuration<T>,
) -> Vector<T> {
    force_from(particles, table, i, everyone(particles.len()), config)
}

/// Each particle is in the list of exactly one cell, the one in which it lies,
/// and there once: the list of a cell holds, in rising order, the indices of
/// the particles in that cell and no others.
pub proof fn lemma_members<T: Scalar>(
    particles: Seq<Particle<T>>,
    cell_size: T,
    cx: isize,
    cy: isize,
    n: int,
)
    requires
        0 <= n <= particles.len() <= usize::MAX,
    ensures
        forall|k: int|
            0 <= k < members(particles, cell_size, cx, cy, n).len() ==> {
                let i = #[trigger] members(particles, cell_size, cx, cy, n)[k];
                i < n && cell_of(particles[i as int].position, cell_size) == (cx, cy)
            },
        forall|k: int, l: int|
            0 <= k < l < members(particles, cell_size, cx, cy, n).len() ==> members(
                particles,
                cell_size,
                cx,
                cy,
                n,
            )[k] < members(particles, cell_size, cx, cy, n)[l],
        forall|i: int|
            0 <= i < n && cell_of(#[trigger] particles[i].position, cell_size) == (cx, cy)
                ==> members(particles, cell_size, cx, cy, n).contains(i as usize),
    decreases n,
{
    if n > 0 {
        lemma_members(particles, cell_size, cx, cy, n - 1);
        let before = members(particles, cell_size, cx, cy, n - 1);
        let all = members(particles, cell_size, cx, cy, n);
        assert forall|i: int|
            0 <= i < n && cell_of(#[trigger] particles[i].position, cell_size) == (
                cx,
                cy,
            ) implies all.contains(i as usize) by {
            if i < n - 1 {
                assert(before.contains(i as usize));
                let k = choose|k: int| 0 <= k < before.len() && before[k] == i as usize;
                assert(all[k] == i as usize);
            } else {
                assert(all[all.len() - 1] == i as usize);
            }
        }
    }
}

/// Every particle in the three-by-three block of cells is one of the
/// particles: its index is below their number.
pub proof fn lemma_nearby_below<T: Scalar>(
    particles: Seq<Particle<T>>,
    config: Configuration<T>,
    cx: isize,
    cy: isize,
    n: int,
)
    requires
        particles.len() <= usize::MAX,
    ensures
        forall|k: int|
            0 <= k < nearby(particles, config, cx, cy, n).len() ==> (#[trigger] nearby(
                particles,
                config,
                cx,
                cy,
                n,
            )[k]) < particles.len(),
    decreases n,
{
    if n > 0 {
        let cell = crate::grid::block_cell(
            cx,
            cy,
            config.columns() as isize,
            config.rows() as isize,
            n - 1,
        );
        let head = nearby(particles, config, cx, cy, n - 1);
        let tail = members(particles, config.cell_size, cell.0, cell.1, particles.len() as int);
        lemma_nearby_below(particles, config, cx, cy, n - 1);
        lemma_members(particles, config.cell_size, cell.0, cell.1, particles.len() as int);
        assert forall|k: int| 0 <= k < (head + tail).len() implies (#[trigger] (head + tail)[k])
            < particles.len() by {
            if k < head.len() {
                assert((head + tail)[k] == head[k]);
            } else {
                assert((head + tail)[k] == tail[k - head.len()]);
            }
        }
    }
}

/// The difference `d` between two coordinates, taken the short way round a
/// torus of the given extent.
pub fn shortest_delta<T: Scalar>(d: T, extent: T) -> (r: T)
    ensures
        r == wrap_delta(d, extent),
{
    let two: T = T::from_ratio(2, 1);
    if extent.div(two).lt(d) {
        d.sub(extent)
    } else if d.lt(extent.neg().div(two)) {
        d.add(extent)
    } else {
        d
    }
}

/// The signed strength of the force between two particles at the given
/// distance, of two kinds with the given attraction coefficient.
pub fn get_force<T: Scalar>(distance: T, attraction: T, config: &Configuration<T>) -> (force: T)
    ensures
        force == force_spec(distance, attraction, *config),
{
    if distance.lt(config.distance_min) {
        config.standard_repulsion.neg().div(distance.mul(distance).add(config.buffer_distance))
    } else {
        attraction.div(distance.mul(distance))
    }
}

/// Adds to the force `acc` the pull of a particle at `there` on one at `here`.
pub fn pull<T: Scalar>(
    acc: Vector<T>,
    here: Vector<T>,
    there: Vector<T>,
    attraction: T,
    config: &Configuration<T>,
) -> (force: Vector<T>)
    ensures
        force == pull_spec(acc, here, there, attraction, *config),
{
    let dx: T = shortest_delta(there.x.sub(here.x), T::from_ratio(WIDTH, 1));
    let dy: T = shortest_delta(there.y.sub(here.y), T::from_ratio(HEIGHT, 1));
    let distance: T = dx.mul(dx).add(dy.mul(dy)).sqrt();
    if distance.lt(config.distance_max) {
        let force: T = get_force(distance, attraction, config);
        Vector {
            x: acc.x.add(force.mul(dx).div(distance)),
            y: acc.y.add(force.mul(dy).div(distance)),
        }
    } else {
        acc
    }
}

/// The coordinate `x` brought back onto a torus of the given extent.
pub fn wrap_coordinate<T: Scalar>(x: T, extent: T) -> (r: T)
    ensures
        r == wrap_position(x, extent),
{
    if x.lt(T::from_ratio(0, 1)) {
        x.add(extent)
    } else if extent.lt(x) {
        x.sub(extent)
    } else {
        x
    }
}

/// Moves the particle by one tick: along its velocity, round the torus, and
/// with its velocity damped.
pub fn step_particle<T: Scalar>(particle: &mut Particle<T>, config: &Configuration<T>)
    ensures
        *final(particle) == moved(*old(particle), *config),
{
    particle.position.add_assign(particle.velocity.mul(config.tick));
    particle.position.x = wrap_coordinate(particle.position.x, T::from_ratio(WIDTH, 1));
    particle.position.y = wrap_coordinate(particle.position.y, T::from_ratio(HEIGHT, 1));
    particle.velocity.x = particle.velocity.x.mul(config.friction);
    particle.velocity.y = particle.velocity.y.mul(config.friction);
}

} // verus!
