//! What holds of the engine when its numbers are exact: the short way round,
//! the wrap at the edges, repulsion at short range, and damping.

use crate::config::Configuration;
use crate::fixed::Fixed;
use crate::particle::Particle;
use crate::scalar::Scalar;
use crate::universe::Universe;
use crate::vector::Vector;
use vstd::prelude::*;

verus! {

/// The largest extent of a torus for which the laws below are stated: 2^46
/// raw units, a little over a thousand million whole units.
pub open spec fn extent_limit() -> int {
    0x4000_0000_0000
}

/// The square of the speed of a velocity, in raw units.
pub open spec fn speed_squared(v: Vector<Fixed>) -> int {
    v.x.raw * v.x.raw + v.y.raw * v.y.raw
}

/// The cell coordinate is the quotient rounded down, also left of the origin:
/// for cells of positive side it is the one whole number `q` with the
/// coordinate from `q` sides up to, but not at, `q + 1` sides.
pub proof fn lemma_cell_is_floor(x: Fixed, side: Fixed)
    requires
        side.raw > 0,
    ensures
        ({
            let q = crate::fixed::floor_quotient(x.raw as int, side.raw as int);
            &&& q * side.raw <= x.raw < (q + 1) * side.raw
            &&& isize::MIN <= q <= isize::MAX ==> x.floor_div_spec(side) == q
            &&& x.raw < 0 ==> q < 0
        }),
{
    let a = x.raw as int;
    let s = side.raw as int;
    let q = a / s;
    let m = a % s;
    vstd::arithmetic::div_mod::lemma_fundamental_div_mod(a, s);
    vstd::arithmetic::div_mod::lemma_mod_bound(a, s);
    assert(q * s <= a < (q + 1) * s && (a < 0 ==> q < 0)) by (nonlinear_arith)
        requires
            a == s * q + m,
            0 <= m < s,
    ;
}

/// The default configuration is sound: the tick, the repulsion and the buffer
/// are positive, the friction lies between zero and one, the minimum distance
/// is positive and below the maximum distance, and a cell is at least as large
/// as the maximum distance.
pub proof fn lemma_default_is_sound()
    ensures
        ({
            let config = Configuration::<Fixed>::default_spec();
            &&& config.tick.raw > 0
            &&& config.standard_repulsion.raw > 0
            &&& config.buffer_distance.raw > 0
            &&& 0 < config.friction.raw < crate::fixed::SCALE
            &&& 0 < config.distance_min.raw < config.distance_max.raw
            &&& config.distance_max.raw <= config.cell_size.raw
        }),
{
}

/// The separation of two coordinates on a torus is measured the short way
/// round: the wrapped difference differs from the plain one by nothing or by
/// one extent, and is at most half the extent in size.
pub proof fn lemma_shortest_way(from: Fixed, to: Fixed, extent: Fixed)
    requires
        0 < extent.raw <= extent_limit(),
        0 <= from.raw <= extent.raw,
        0 <= to.raw <= extent.raw,
    ensures
        ({
            let plain = to.raw - from.raw;
            let short = crate::physics::wrap_delta(to.sub_spec(from), extent).raw;
            &&& short == plain || short == plain - extent.raw || short == plain + extent.raw
            &&& crate::fixed::magnitude(short as int) <= extent.raw / 2
            &&& crate::fixed::magnitude(short as int) <= crate::fixed::magnitude(plain)
        }),
{
}

/// A coordinate that has left the torus by at most one extent comes back in
/// on the other side, as far in as it was out: the wrapped coordinate lies on
/// the torus and differs from the plain one by exactly one extent.
pub proof fn lemma_wrap_returns(x: Fixed, extent: Fixed)
    requires
        0 < extent.raw <= extent_limit(),
        -extent.raw <= x.raw <= 2 * extent.raw,
    ensures
        ({
            let wrapped = crate::physics::wrap_position(x, extent).raw;
            &&& 0 <= wrapped <= extent.raw
            &&& x.raw < 0 ==> wrapped == x.raw + extent.raw
            &&& x.raw > extent.raw ==> wrapped == x.raw - extent.raw
            &&& 0 <= x.raw <= extent.raw ==> wrapped == x.raw
        }),
{
}

/// A friction below one makes every velocity component smaller, and a
/// component that is not zero strictly so; a friction of one leaves it as it
/// is.
pub proof fn lemma_friction_damps(v: Fixed, friction: Fixed)
    requires
        0 <= friction.raw <= crate::fixed::SCALE,
    ensures
        crate::fixed::magnitude(v.mul_spec(friction).raw as int) <= crate::fixed::magnitude(
            v.raw as int,
        ),
        friction.raw < crate::fixed::SCALE && v.raw != 0 ==> crate::fixed::magnitude(
            v.mul_spec(friction).raw as int,
        ) < crate::fixed::magnitude(v.raw as int),
        friction.raw == crate::fixed::SCALE ==> v.mul_spec(friction) == v,
{
    let size = crate::fixed::magnitude(v.raw as int);
    let f = friction.raw as int;
    let product = v.raw * friction.raw;
    assert(crate::fixed::magnitude(product) == size * f) by (nonlinear_arith)
        requires
            product == v.raw * friction.raw,
            size == crate::fixed::magnitude(v.raw as int),
            f == friction.raw,
            f >= 0,
    ;
    let cut = (size * f) / 65536;
    assert(cut <= size && (f < 65536 && size > 0 ==> cut < size) && (f == 65536 ==> cut == size))
        by (nonlinear_arith)
        requires
            cut == (size * f) / 65536,
            0 <= f <= 65536,
            size >= 0,
    ;
    assert((product >= 0) == (v.raw >= 0) || product == 0) by (nonlinear_arith)
        requires
            product == v.raw * friction.raw,
            friction.raw >= 0,
    ;
    if product == 0 && f == 65536 {
        assert(v.raw == 0) by (nonlinear_arith)
            requires
                v.raw * 65536 == 0,
        ;
    }
}

/// A root is never negative.
pub proof fn lemma_sqrt_not_negative(v: Fixed)
    ensures
        v.sqrt_spec().raw >= 0,
{
    let square = v.raw * crate::fixed::SCALE;
    if square >= 0 {
        crate::fixed::lemma_root_exists(square);
        let r = crate::fixed::root(square);
        if r >= 0x100_0000_0000 {
            assert(r * r >= 0x1_0000_0000_0000_0000_0000) by (nonlinear_arith)
                requires
                    r >= 0x100_0000_0000,
            ;
        }
    }
}

/// Dividing keeps the sign of the dividend where the divisor is not negative:
/// the quotient of a number that is not positive is not positive, and that of
/// one that is not negative is not negative.
pub proof fn lemma_div_keeps_sign(a: Fixed, b: Fixed)
    requires
        b.raw >= 0,
    ensures
        a.raw >= 0 ==> a.div_spec(b).raw >= 0,
        a.raw <= 0 ==> a.div_spec(b).raw <= 0,
{
    if b.raw > 0 {
        crate::fixed::lemma_quotient_sign(a.raw * crate::fixed::SCALE, b.raw as int);
    }
}

/// A product has the sign that its factors give it, or is zero.
pub proof fn lemma_mul_sign(a: Fixed, b: Fixed)
    ensures
        (a.raw >= 0 && b.raw >= 0) || (a.raw <= 0 && b.raw <= 0) ==> a.mul_spec(b).raw >= 0,
        (a.raw >= 0 && b.raw <= 0) || (a.raw <= 0 && b.raw >= 0) ==> a.mul_spec(b).raw <= 0,
{
    let product = a.raw * b.raw;
    assert(((a.raw >= 0 && b.raw >= 0) || (a.raw <= 0 && b.raw <= 0) ==> product >= 0) && ((a.raw
        >= 0 && b.raw <= 0) || (a.raw <= 0 && b.raw >= 0) ==> product <= 0)) by (nonlinear_arith)
        requires
            product == a.raw * b.raw,
    ;
    crate::fixed::lemma_quotient_sign(product, crate::fixed::SCALE as int);
}

/// Two particles closer than the minimum distance push each other apart,
/// whatever the attraction coefficient of their kinds: where the repulsion
/// strength is not negative and the buffer is positive, the force between
/// them is not positive, and the pull that it adds to a particle at rest never
/// points towards the other particle.
pub proof fn lemma_short_range_repels(
    here: Vector<Fixed>,
    there: Vector<Fixed>,
    attraction: Fixed,
    config: Configuration<Fixed>,
)
    requires
        config.standard_repulsion.raw >= 0,
        config.buffer_distance.raw > 0,
        crate::physics::separation(here, there).lt_spec(config.distance_min),
        crate::physics::separation(here, there).lt_spec(config.distance_max),
    ensures
        crate::physics::force_spec(
            crate::physics::separation(here, there),
            attraction,
            config,
        ).raw <= 0,
        ({
            let dx = crate::physics::wrap_delta(
                there.x.sub_spec(here.x),
                crate::config::width_spec::<Fixed>(),
            );
            let dy = crate::physics::wrap_delta(
                there.y.sub_spec(here.y),
                crate::config::height_spec::<Fixed>(),
            );
            let pull = crate::physics::pull_spec(
                Vector::<Fixed>::zero_spec(),
                here,
                there,
                attraction,
                config,
            );
            &&& dx.raw >= 0 ==> pull.x.raw <= 0
            &&& dx.raw <= 0 ==> pull.x.raw >= 0
            &&& dy.raw >= 0 ==> pull.y.raw <= 0
            &&& dy.raw <= 0 ==> pull.y.raw >= 0
        }),
{
    let dx = crate::physics::wrap_delta(
        there.x.sub_spec(here.x),
        crate::config::width_spec::<Fixed>(),
    );
    let dy = crate::physics::wrap_delta(
        there.y.sub_spec(here.y),
        crate::config::height_spec::<Fixed>(),
    );
    let distance = crate::physics::separation(here, there);
    lemma_sqrt_not_negative(dx.mul_spec(dx).add_spec(dy.mul_spec(dy)));
    lemma_mul_sign(distance, distance);
    let denominator = distance.mul_spec(distance).add_spec(config.buffer_distance);
    assert(denominator.raw > 0);
    let force = crate::physics::force_spec(distance, attraction, config);
    lemma_div_keeps_sign(config.standard_repulsion.neg_spec(), denominator);
    assert(force.raw <= 0);
    lemma_mul_sign(force, dx);
    lemma_mul_sign(force, dy);
    lemma_div_keeps_sign(force.mul_spec(dx), distance);
    lemma_div_keeps_sign(force.mul_spec(dy), distance);
}

/// Where the kinds of two particles neither attract nor repel each other and
/// the particles are not closer than the minimum distance, neither pulls the
/// other.
pub proof fn lemma_no_pull(
    acc: Vector<Fixed>,
    here: Vector<Fixed>,
    there: Vector<Fixed>,
    attraction: Fixed,
    config: Configuration<Fixed>,
)
    requires
        attraction.raw == 0,
        !crate::physics::separation(here, there).lt_spec(config.distance_min),
    ensures
        crate::physics::pull_spec(acc, here, there, attraction, config) == acc,
{
    let dx = crate::physics::wrap_delta(
        there.x.sub_spec(here.x),
        crate::config::width_spec::<Fixed>(),
    );
    let dy = crate::physics::wrap_delta(
        there.y.sub_spec(here.y),
        crate::config::height_spec::<Fixed>(),
    );
    let distance = crate::physics::separation(here, there);
    let force = crate::physics::force_spec(distance, attraction, config);
    let square = distance.mul_spec(distance);
    assert(force.raw == 0) by {
        if square.raw > 0 {
            crate::fixed::lemma_quotient_sign(0, square.raw as int);
        } else if square.raw < 0 {
            crate::fixed::lemma_quotient_sign(0, -square.raw);
        }
    }
    assert(force.raw * dx.raw == 0 && force.raw * dy.raw == 0) by (nonlinear_arith)
        requires
            force.raw == 0,
    ;
    assert(force.mul_spec(dx).raw == 0 && force.mul_spec(dy).raw == 0);
    assert(force.mul_spec(dx).div_spec(distance).raw == 0 && force.mul_spec(dy).div_spec(
        distance,
    ).raw == 0) by {
        if distance.raw > 0 {
            crate::fixed::lemma_quotient_sign(0, distance.raw as int);
        } else if distance.raw < 0 {
            crate::fixed::lemma_quotient_sign(0, -distance.raw);
        }
    }
}

/// Whether no two of the particles are closer than the minimum distance.
pub open spec fn no_collisions(particles: Seq<Particle<Fixed>>, config: Configuration<Fixed>) -> bool {
    forall|i: int, j: int|
        0 <= i < particles.len() && 0 <= j < particles.len() && i != j
            ==> !(#[trigger] crate::physics::separation(
            particles[i].position,
            particles[j].position,
        )).lt_spec(config.distance_min)
}

/// Whether every coefficient of the table is zero.
pub open spec fn no_attraction(table: Seq<Seq<Fixed>>) -> bool {
    forall|r: int, c: int|
        0 <= r < table.len() && 0 <= c < table[r].len() ==> (#[trigger] table[r][c]).raw == 0
}

/// With a table of zeros and no two particles closer than the minimum
/// distance, the particles in `others` exert no force on particle `i`.
pub proof fn lemma_no_force(
    particles: Seq<Particle<Fixed>>,
    table: Seq<Seq<Fixed>>,
    i: int,
    others: Seq<usize>,
    config: Configuration<Fixed>,
)
    requires
        0 <= i < particles.len(),
        forall|k: int| 0 <= k < others.len() ==> (#[trigger] others[k]) < particles.len(),
        table.len() == crate::particle::type_count(),
        forall|r: int| 0 <= r < table.len() ==> (#[trigger] table[r]).len()
            == crate::particle::type_count(),
        no_attraction(table),
        no_collisions(particles, config),
    ensures
        crate::physics::force_from(particles, table, i, others, config) == Vector::<
            Fixed,
        >::zero_spec(),
    decreases others.len(),
{
    if others.len() > 0 {
        let before = others.drop_last();
        assert forall|k: int| 0 <= k < before.len() implies (#[trigger] before[k])
            < particles.len() by {
            assert(before[k] == others[k]);
        }
        lemma_no_force(particles, table, i, before, config);
        let j = others.last() as int;
        assert(others[others.len() - 1] < particles.len());
        if j != i {
            let row = particles[i].variety.index() as int;
            let col = particles[j].variety.index() as int;
            assert(table[row][col].raw == 0);
            assert(!crate::physics::separation(
                particles[i].position,
                particles[j].position,
            ).lt_spec(config.distance_min));
            lemma_no_pull(
                Vector::<Fixed>::zero_spec(),
                particles[i].position,
                particles[j].position,
                table[row][col],
                config,
            );
        }
    }
}

/// With a table of zeros and no two particles closer than the minimum
/// distance, taking the forces and moving only damps, whichever particles are
/// looked at: the velocity of a particle afterwards is its velocity before,
/// times the friction. With a friction from zero to below one the particle is
/// then slower than before unless it was at rest, and with a friction of one
/// it is exactly as fast.
pub proof fn lemma_free_particles_slow_down(
    particles: Seq<Particle<Fixed>>,
    table: Seq<Seq<Fixed>>,
    i: int,
    others: Seq<usize>,
    config: Configuration<Fixed>,
)
    requires
        0 <= i < particles.len(),
        forall|k: int| 0 <= k < others.len() ==> (#[trigger] others[k]) < particles.len(),
        table.len() == crate::particle::type_count(),
        forall|r: int| 0 <= r < table.len() ==> (#[trigger] table[r]).len()
            == crate::particle::type_count(),
        no_attraction(table),
        no_collisions(particles, config),
        0 <= config.friction.raw <= crate::fixed::SCALE,
    ensures
        ({
            let before = particles[i].velocity;
            let after = crate::physics::moved(
                crate::physics::pushed(
                    particles[i],
                    crate::physics::force_from(particles, table, i, others, config),
                    config,
                ),
                config,
            ).velocity;
            &&& after == before.mul_spec(config.friction)
            &&& speed_squared(after) <= speed_squared(before)
            &&& config.friction.raw < crate::fixed::SCALE && speed_squared(before) != 0
                ==> speed_squared(after) < speed_squared(before)
            &&& config.friction.raw == crate::fixed::SCALE ==> after == before
        }),
{
    lemma_no_force(particles, table, i, others, config);
    let force = crate::physics::force_from(particles, table, i, others, config);
    assert(force.x.raw == 0 && force.y.raw == 0);
    assert(force.x.raw * config.tick.raw == 0 && force.y.raw * config.tick.raw == 0)
        by (nonlinear_arith)
        requires
            force.x.raw == 0,
            force.y.raw == 0,
    ;
    let before = particles[i].velocity;
    let pushed = crate::physics::pushed(particles[i], force, config);
    assert(pushed.velocity == before);
    let after = crate::physics::moved(pushed, config).velocity;
    lemma_friction_damps(before.x, config.friction);
    lemma_friction_damps(before.y, config.friction);
    lemma_squares_follow_sizes(before.x.raw as int, after.x.raw as int);
    lemma_squares_follow_sizes(before.y.raw as int, after.y.raw as int);
    if speed_squared(before) != 0 && before.x.raw == 0 && before.y.raw == 0 {
        assert(before.x.raw * before.x.raw == 0 && before.y.raw * before.y.raw == 0)
            by (nonlinear_arith)
            requires
                before.x.raw == 0,
                before.y.raw == 0,
        ;
    }
}

/// A step of a universe with a table of zeros and no two particles closer than
/// the minimum distance only damps, whatever its grid holds: every particle
/// comes out of the step with its velocity times the friction, slower than
/// before unless it was at rest or the friction is one.
pub proof fn lemma_step_only_damps(
    universe: Universe<Fixed>,
    i: int,
    config: Configuration<Fixed>,
)
    requires
        universe.wf(),
        0 <= i < universe.particles@.len(),
        no_attraction(universe.table()),
        no_collisions(universe.particles@, config),
        0 <= config.friction.raw <= crate::fixed::SCALE,
    ensures
        ({
            let before = universe.particles@[i].velocity;
            let after = crate::physics::moved(
                crate::physics::pushed(
                    universe.particles@[i],
                    universe.force_on(i, config),
                    config,
                ),
                config,
            ).velocity;
            &&& after == before.mul_spec(config.friction)
            &&& speed_squared(after) <= speed_squared(before)
            &&& config.friction.raw < crate::fixed::SCALE && speed_squared(before) != 0
                ==> speed_squared(after) < speed_squared(before)
            &&& config.friction.raw == crate::fixed::SCALE ==> after == before
        }),
{
    let cell = crate::physics::cell_of(universe.particles@[i].position, config.cell_size);
    let cols = config.columns() as isize;
    let rows = config.rows() as isize;
    universe.grid.lemma_block_below(cell.0, cell.1, cols, rows, 9, universe.particles@.len());
    lemma_free_particles_slow_down(
        universe.particles@,
        universe.table(),
        i,
        universe.grid.neighborhood(cell.0, cell.1, cols, rows),
        config,
    );
}

/// Below the minimum distance the force is a push of at least one raw unit,
/// not merely no pull, where the repulsion is at least as large as the squared
/// distance plus the buffer.
pub proof fn lemma_short_range_force_is_negative(
    distance: Fixed,
    attraction: Fixed,
    config: Configuration<Fixed>,
)
    requires
        distance.lt_spec(config.distance_min),
        config.buffer_distance.raw > 0,
        config.standard_repulsion.raw >= distance.mul_spec(distance).add_spec(
            config.buffer_distance,
        ).raw,
    ensures
        crate::physics::force_spec(distance, attraction, config).raw < 0,
{
    lemma_mul_sign(distance, distance);
    let bottom = distance.mul_spec(distance).add_spec(config.buffer_distance).raw as int;
    let top = config.standard_repulsion.raw * crate::fixed::SCALE;
    assert(bottom > 0);
    assert(top / bottom >= 1) by (nonlinear_arith)
        requires
            bottom > 0,
            top >= bottom,
    ;
}

/// A number that is not larger in size has a square that is not larger, and
/// one that is smaller in size has a smaller square.
pub proof fn lemma_squares_follow_sizes(a: int, b: int)
    ensures
        crate::fixed::magnitude(b) <= crate::fixed::magnitude(a) ==> b * b <= a * a,
        crate::fixed::magnitude(b) < crate::fixed::magnitude(a) ==> b * b < a * a,
{
    let x = crate::fixed::magnitude(a);
    let y = crate::fixed::magnitude(b);
    assert(x * x == a * a && y * y == b * b) by (nonlinear_arith)
        requires
            x == a || x == -a,
            y == b || y == -b,
    ;
    assert((y <= x ==> y * y <= x * x) && (y < x ==> y * y < x * x)) by (nonlinear_arith)
        requires
            0 <= x,
            0 <= y,
    ;
}

} // verus!
