//! Why the grid loses nothing: with cells at least as large as the reach,
//! every particle within reach is found, once.

use crate::config::Configuration;
use crate::fixed::Fixed;
use crate::particle::Particle;
use crate::scalar::Scalar;
use crate::vector::Vector;
use vstd::prelude::*;

verus! {

/// A number that lies between `q` times `d` and the next multiple of `d` has
/// the quotient `q`.
pub proof fn lemma_quotient_between(x: int, d: int, q: int)
    requires
        d > 0,
        q * d <= x < q * d + d,
    ensures
        x / d == q,
{
    vstd::arithmetic::div_mod::lemma_fundamental_div_mod_converse_div(x, d, q, x - q * d);
}

/// For a coordinate that is not negative and cells of positive side, the cell
/// coordinate is the whole part of coordinate over side.
pub proof fn lemma_cell_is_quotient(x: Fixed, side: Fixed)
    requires
        0 <= x.raw <= 0x100_0000_0000,
        side.raw >= crate::fixed::SCALE / 2,
    ensures
        x.div_spec(side).truncate_spec() == x.raw / side.raw,
        0 <= x.raw / side.raw <= 0x200_0000,
{
    let s = side.raw as int;
    let xr = x.raw as int;
    let q = xr / s;
    let scaled = xr * 65536;
    let t = scaled / s;
    vstd::arithmetic::div_mod::lemma_fundamental_div_mod(xr, s);
    vstd::arithmetic::div_mod::lemma_fundamental_div_mod(scaled, s);
    vstd::arithmetic::div_mod::lemma_mod_bound(xr, s);
    vstd::arithmetic::div_mod::lemma_mod_bound(scaled, s);
    let xm = xr % s;
    let sm = scaled % s;
    assert(q * 65536 <= t < q * 65536 + 65536) by (nonlinear_arith)
        requires
            s > 0,
            xr == s * q + xm,
            0 <= xm < s,
            scaled == xr * 65536,
            scaled == s * t + sm,
            0 <= sm < s,
    ;
    lemma_quotient_between(t, 65536, q);
    assert(0 <= q && q * 32768 <= xr) by (nonlinear_arith)
        requires
            s >= 32768,
            0 <= xr,
            xr == s * q + xm,
            0 <= xm < s,
    ;
    assert(0 <= t <= scaled) by (nonlinear_arith)
        requires
            s >= 1,
            0 <= scaled,
            scaled == s * t + sm,
            0 <= sm < s,
    ;
    assert(x.div_spec(side).raw == t);
}

/// Two particles that are less than the maximum distance apart are at most one
/// cell side apart along each axis, where a cell is at least as large as the
/// maximum distance and at least half a unit.
pub proof fn lemma_reach_is_within_a_side(dx: Fixed, dy: Fixed, reach: Fixed, side: Fixed)
    requires
        -0x8000_0000 <= dx.raw <= 0x8000_0000,
        -0x8000_0000 <= dy.raw <= 0x8000_0000,
        crate::physics::length_spec(dx, dy).lt_spec(reach),
        reach.raw <= side.raw,
        side.raw >= crate::fixed::SCALE / 2,
    ensures
        -side.raw <= dx.raw <= side.raw,
        -side.raw <= dy.raw <= side.raw,
{
    let s = side.raw as int;
    let m = reach.raw as int;
    let x2 = dx.raw * dx.raw;
    let y2 = dy.raw * dy.raw;
    assert(0 <= x2 <= 0x4000_0000_0000_0000 && 0 <= y2 <= 0x4000_0000_0000_0000)
        by (nonlinear_arith)
        requires
            x2 == dx.raw * dx.raw,
            y2 == dy.raw * dy.raw,
            -0x8000_0000 <= dx.raw <= 0x8000_0000,
            -0x8000_0000 <= dy.raw <= 0x8000_0000,
    ;
    let a = x2 / 65536;
    let b = y2 / 65536;
    assert(dx.mul_spec(dx).raw == a);
    assert(dy.mul_spec(dy).raw == b);
    let sum = dx.mul_spec(dx).add_spec(dy.mul_spec(dy));
    assert(sum.raw == a + b);
    let v = (a + b) * 65536;
    crate::fixed::lemma_root_exists(v);
    let r = crate::fixed::root(v);
    if r >= 0x100_0000_0000 {
        assert(r * r >= 0x1_0000_0000_0000_0000_0000) by (nonlinear_arith)
            requires
                r >= 0x100_0000_0000,
        ;
    }
    assert(crate::physics::length_spec(dx, dy).raw == r);
    assert(r < m);
    assert((r + 1) * (r + 1) <= s * s) by (nonlinear_arith)
        requires
            0 <= r,
            r + 1 <= m,
            m <= s,
    ;
    assert(x2 - 65535 <= a * 65536 && y2 - 65535 <= b * 65536);
    if dx.raw > s || dx.raw < -s {
        assert(x2 >= s * s + 2 * s + 1) by (nonlinear_arith)
            requires
                x2 == dx.raw * dx.raw,
                dx.raw >= s + 1 || dx.raw <= -s - 1,
                s >= 0,
        ;
    }
    if dy.raw > s || dy.raw < -s {
        assert(y2 >= s * s + 2 * s + 1) by (nonlinear_arith)
            requires
                y2 == dy.raw * dy.raw,
                dy.raw >= s + 1 || dy.raw <= -s - 1,
                s >= 0,
        ;
    }
}

/// Along one axis of a torus that is a whole number of cells round, at least
/// three: two coordinates whose separation the short way round is at most one
/// cell side lie in the same cell or in neighbouring cells of the ring.
pub proof fn lemma_neighbouring_cells(from: int, to: int, side: int, count: int, short: int)
    requires
        side > 0,
        count >= 3,
        0 <= from < count * side,
        0 <= to < count * side,
        short == to - from || short == to - from - count * side || short == to - from + count
            * side,
        short == to - from - count * side ==> to - from > 0,
        short == to - from + count * side ==> to - from < 0,
        -side <= short <= side,
    ensures
        to / side == (from / side - 1) % count || to / side == (from / side) % count || to / side
            == (from / side + 1) % count,
{
    let a = from / side;
    let b = to / side;
    let fm = from % side;
    let tm = to % side;
    vstd::arithmetic::div_mod::lemma_fundamental_div_mod(from, side);
    vstd::arithmetic::div_mod::lemma_fundamental_div_mod(to, side);
    vstd::arithmetic::div_mod::lemma_mod_bound(from, side);
    vstd::arithmetic::div_mod::lemma_mod_bound(to, side);
    assert(0 <= a < count && 0 <= b < count) by (nonlinear_arith)
        requires
            side > 0,
            0 <= from < count * side,
            0 <= to < count * side,
            from == side * a + fm,
            to == side * b + tm,
            0 <= fm < side,
            0 <= tm < side,
    ;
    if short == to - from {
        assert(-1 <= b - a <= 1) by (nonlinear_arith)
            requires
                side > 0,
                -side <= to - from <= side,
                from == side * a + fm,
                to == side * b + tm,
                0 <= fm < side,
                0 <= tm < side,
        ;
        vstd::arithmetic::div_mod::lemma_small_mod(b as nat, count as nat);
    } else if short == to - from - count * side {
        assert(a == 0 && b == count - 1) by (nonlinear_arith)
            requires
                side > 0,
                count >= 3,
                0 <= a < count,
                0 <= b < count,
                to - from - count * side >= -side,
                from == side * a + fm,
                to == side * b + tm,
                0 <= fm < side,
                0 <= tm < side,
        ;
        lemma_quotient_between(-1, count, -1);
        assert((-1int) % count == count - 1) by {
            vstd::arithmetic::div_mod::lemma_fundamental_div_mod(-1, count);
        }
    } else {
        assert(b == 0 && a == count - 1) by (nonlinear_arith)
            requires
                side > 0,
                count >= 3,
                0 <= a < count,
                0 <= b < count,
                to - from + count * side <= side,
                from == side * a + fm,
                to == side * b + tm,
                0 <= fm < side,
                0 <= tm < side,
        ;
        vstd::arithmetic::div_mod::lemma_mod_self_0(count);
    }
}

/// Whether the grid of this configuration misses no particle within reach: the
/// torus is a whole number of cells wide and high, at least three each way, and
/// a cell is at least as large as the maximum distance and at least half a
/// unit.
pub open spec fn cells_cover_reach(config: Configuration<Fixed>) -> bool {
    let side = config.cell_size.raw as int;
    let width = crate::config::WIDTH * crate::fixed::SCALE;
    let height = crate::config::HEIGHT * crate::fixed::SCALE;
    &&& side >= crate::fixed::SCALE / 2
    &&& width % side == 0
    &&& height % side == 0
    &&& width / side >= 3
    &&& height / side >= 3
    &&& config.distance_max.raw <= side
}

/// The cells of the default configuration cover its reach.
pub proof fn lemma_default_covers_reach()
    ensures
        cells_cover_reach(Configuration::<Fixed>::default_spec()),
{
}

/// Whether a point lies on the torus.
pub open spec fn on_torus(point: Vector<Fixed>) -> bool {
    &&& 0 <= point.x.raw < crate::config::WIDTH * crate::fixed::SCALE
    &&& 0 <= point.y.raw < crate::config::HEIGHT * crate::fixed::SCALE
}

/// Along one axis, the cells of two coordinates that are at most one cell side
/// apart the short way round are the same or neighbours on the ring of cells.
proof fn lemma_axis(from: Fixed, to: Fixed, extent: Fixed, side: Fixed, short: Fixed) -> (e: int)
    requires
        0 < extent.raw <= 0x100_0000_0000,
        side.raw >= crate::fixed::SCALE / 2,
        extent.raw % side.raw == 0,
        extent.raw / side.raw >= 3,
        0 <= from.raw < extent.raw,
        0 <= to.raw < extent.raw,
        short == crate::physics::wrap_delta(to.sub_spec(from), extent),
        -side.raw <= short.raw <= side.raw,
    ensures
        -1 <= e <= 1,
        to.floor_div_spec(side) == crate::grid::wrap_cell(
            from.floor_div_spec(side) + e,
            extent.div_spec(side).truncate_spec(),
        ),
{
    let s = side.raw as int;
    let w = extent.raw as int;
    let count = w / s;
    vstd::arithmetic::div_mod::lemma_fundamental_div_mod(w, s);
    assert(count * s == w) by (nonlinear_arith)
        requires
            w == s * count + w % s,
            w % s == 0,
    ;
    crate::exact::lemma_shortest_way(from, to, extent);
    lemma_cell_is_quotient(from, side);
    lemma_cell_is_quotient(to, side);
    lemma_cell_is_quotient(extent, side);
    lemma_neighbouring_cells(from.raw as int, to.raw as int, s, count, short.raw as int);
    let a = from.raw as int / s;
    let b = to.raw as int / s;
    assert(extent.div_spec(side).truncate_spec() == count);
    assert(from.floor_div_spec(side) == a);
    assert(to.floor_div_spec(side) == b);
    vstd::arithmetic::div_mod::lemma_mod_bound(a - 1, count);
    vstd::arithmetic::div_mod::lemma_mod_bound(a, count);
    vstd::arithmetic::div_mod::lemma_mod_bound(a + 1, count);
    if b == (a - 1) % count {
        -1
    } else if b == a % count {
        0
    } else {
        1
    }
}

/// The grid misses no particle within reach. Where the cells cover the reach
/// and two particles lie on the torus less than the maximum distance apart,
/// each is among the particles that are looked at for their pull on the other.
pub proof fn lemma_grid_misses_nobody(
    particles: Seq<Particle<Fixed>>,
    config: Configuration<Fixed>,
    i: int,
    j: int,
)
    requires
        0 <= i < particles.len() <= usize::MAX,
        0 <= j < particles.len(),
        cells_cover_reach(config),
        on_torus(particles[i].position),
        on_torus(particles[j].position),
        crate::physics::separation(particles[i].position, particles[j].position).lt_spec(
            config.distance_max,
        ),
    ensures
        crate::physics::candidates(particles, config, i).contains(j as usize),
{
    let here = particles[i].position;
    let there = particles[j].position;
    let width = crate::config::width_spec::<Fixed>();
    let height = crate::config::height_spec::<Fixed>();
    let side = config.cell_size;
    assert(width.raw == 2100 * 65536);
    assert(height.raw == 1200 * 65536);
    let dx = crate::physics::wrap_delta(there.x.sub_spec(here.x), width);
    let dy = crate::physics::wrap_delta(there.y.sub_spec(here.y), height);
    crate::exact::lemma_shortest_way(here.x, there.x, width);
    crate::exact::lemma_shortest_way(here.y, there.y, height);
    lemma_reach_is_within_a_side(dx, dy, config.distance_max, side);
    let ex = lemma_axis(here.x, there.x, width, side, dx);
    let ey = lemma_axis(here.y, there.y, height, side, dy);
    let k = 3 * (ex + 1) + (ey + 1);
    assert(k / 3 - 1 == ex && k % 3 - 1 == ey);
    assert(crate::laws::lies_in_block(particles, config, i, j, k));
    crate::laws::lemma_candidates_are_the_block(particles, config, i, j);
}

/// The grid changes only the order in which the pulls are added up. Where the
/// cells cover the reach and all particles lie on the torus, the force on a
/// particle that the grid gives and the force over all pairs are both sums of
/// pulls, the one over the particles that pull among those round the cell, the
/// other over the particles that pull among all; and these two lists hold the
/// same particles, each once.
pub proof fn lemma_grid_adds_the_same_pulls(
    particles: Seq<Particle<Fixed>>,
    table: Seq<Seq<Fixed>>,
    config: Configuration<Fixed>,
    i: int,
)
    requires
        0 <= i < particles.len() <= usize::MAX,
        cells_cover_reach(config),
        forall|k: int| 0 <= k < particles.len() ==> on_torus((#[trigger] particles[k]).position),
    ensures
        ({
            let near = crate::physics::pulling(
                particles,
                config,
                i,
                crate::physics::candidates(particles, config, i),
            );
            let all = crate::physics::pulling(
                particles,
                config,
                i,
                crate::physics::everyone(particles.len()),
            );
            &&& crate::physics::force_on(particles, table, i, config) == crate::physics::force_from(
                particles,
                table,
                i,
                near,
                config,
            )
            &&& crate::physics::force_over_all(particles, table, i, config)
                == crate::physics::force_from(particles, table, i, all, config)
            &&& near.no_duplicates()
            &&& all.no_duplicates()
            &&& forall|j: usize| near.contains(j) <==> all.contains(j)
            &&& near.to_multiset() == all.to_multiset()
        }),
{
    let found = crate::physics::candidates(particles, config, i);
    let every = crate::physics::everyone(particles.len());
    let near = crate::physics::pulling(particles, config, i, found);
    let all = crate::physics::pulling(particles, config, i, every);
    let cell = crate::physics::cell_of(particles[i].position, config.cell_size);
    crate::laws::lemma_only_the_pulling_count(particles, table, i, found, config);
    crate::laws::lemma_only_the_pulling_count(particles, table, i, every, config);
    let side = config.cell_size;
    let width = crate::config::width_spec::<Fixed>();
    let height = crate::config::height_spec::<Fixed>();
    lemma_cell_is_quotient(width, side);
    lemma_cell_is_quotient(height, side);
    crate::laws::lemma_candidates_once(particles, config, i);
    crate::physics::lemma_nearby_below(particles, config, cell.0, cell.1, 9);
    crate::laws::lemma_pulling_holds(particles, config, i, found);
    crate::laws::lemma_pulling_holds(particles, config, i, every);
    assert forall|j: usize| near.contains(j) implies all.contains(j) by {
        assert(found.contains(j));
        let at = choose|at: int| 0 <= at < found.len() && found[at] == j;
        assert(found[at] < particles.len());
        assert(every[j as int] == j);
        assert(every.contains(j));
    }
    assert forall|j: usize| all.contains(j) implies near.contains(j) by {
        assert(every.contains(j));
        let at = choose|at: int| 0 <= at < every.len() && every[at] == j;
        assert(j < particles.len());
        lemma_grid_misses_nobody(particles, config, i, j as int);
    }
    near.lemma_multiset_has_no_duplicates();
    all.lemma_multiset_has_no_duplicates();
    assert forall|j: usize| near.to_multiset().count(j) == all.to_multiset().count(j) by {
        vstd::seq_lib::to_multiset_contains(near, j);
        vstd::seq_lib::to_multiset_contains(all, j);
    }
    assert(near.to_multiset() =~= all.to_multiset());
}

} // verus!
