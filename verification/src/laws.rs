//! What holds of the engine whatever its numbers are.

use crate::config::Configuration;
use crate::particle::Particle;
use crate::scalar::Scalar;
use crate::universe::Universe;
use crate::vector::Vector;
use vstd::prelude::*;

verus! {

/// The table of coefficients need not be symmetric: setting the coefficient
/// at `(row, col)` leaves the one at `(col, row)`, and every other one, as it
/// was.
pub proof fn lemma_attraction_is_directed<T: Scalar>(
    table: Seq<Seq<T>>,
    row: int,
    col: int,
    value: T,
    r: int,
    c: int,
)
    requires
        0 <= row < table.len(),
        0 <= col < table[row].len(),
        0 <= r < table.len(),
        0 <= c < table[r].len(),
    ensures
        table.update(row, table[row].update(col, value))[row][col] == value,
        r != row || c != col ==> table.update(row, table[row].update(col, value))[r][c]
            == table[r][c],
{
}

/// Spawning into a universe without particles gives exactly as many particles
/// as were asked for, each at rest and of one of the first `types` kinds.
pub proof fn lemma_clear_then_spawn<T: Scalar>(
    cleared: Seq<Particle<T>>,
    after: Seq<Particle<T>>,
    num: usize,
    types: i32,
)
    requires
        cleared.len() == 0,
        Universe::<T>::spawns(cleared, after, num, types),
        types >= 1,
    ensures
        after.len() == num,
        forall|i: int|
            0 <= i < num ==> (#[trigger] after[i]).velocity == Vector::<T>::zero_spec()
                && after[i].variety.index() < types,
{
}

/// Every one of the first kinds can be drawn, and no other: when at least one
/// kind is asked for, each index below the limit is the index of the kind that
/// it stands for as a drawn number, and whatever number is drawn stands for a
/// kind below the limit.
pub proof fn lemma_every_kind_can_be_drawn(types: i32, drawn: i64)
    requires
        types >= 1,
    ensures
        0 <= drawn < crate::universe::spawn_limit(types) ==> crate::universe::drawn_kind_spec(
            drawn,
            crate::universe::spawn_bound_spec(types),
        ).index() == drawn,
        crate::universe::drawn_kind_spec(
            drawn,
            crate::universe::spawn_bound_spec(types),
        ).index() < crate::universe::spawn_limit(types),
        crate::universe::spawn_bound_spec(types) == crate::universe::spawn_limit(types),
{
}

/// Below the minimum distance the force between two particles does not depend
/// on the attraction coefficient of their kinds: it is the same repulsion
/// whether the kinds attract or repel each other.
pub proof fn lemma_short_range_ignores_attraction<T: Scalar>(
    distance: T,
    attraction: T,
    other_attraction: T,
    config: Configuration<T>,
)
    requires
        distance.lt_spec(config.distance_min),
    ensures
        crate::physics::force_spec(distance, attraction, config) == crate::physics::force_spec(
            distance,
            other_attraction,
            config,
        ),
        crate::physics::force_spec(distance, attraction, config)
            == config.standard_repulsion.neg_spec().div_spec(
            distance.mul_spec(distance).add_spec(config.buffer_distance),
        ),
{
}

/// Whether particle `j` lies in the `k`-th cell of the block of cells round
/// the cell of particle `i`.
pub open spec fn lies_in_block<T: Scalar>(
    particles: Seq<Particle<T>>,
    config: Configuration<T>,
    i: int,
    j: int,
    k: int,
) -> bool {
    let cell = crate::physics::cell_of(particles[i].position, config.cell_size);
    crate::physics::cell_of(particles[j].position, config.cell_size) == crate::grid::block_cell(
        cell.0,
        cell.1,
        config.columns() as isize,
        config.rows() as isize,
        k,
    )
}

/// The particles in the first `n` cells of a block are those whose cell is one
/// of these cells.
pub proof fn lemma_nearby_holds<T: Scalar>(
    particles: Seq<Particle<T>>,
    config: Configuration<T>,
    cx: isize,
    cy: isize,
    n: int,
    j: int,
)
    requires
        0 <= j < particles.len() <= usize::MAX,
    ensures
        crate::physics::nearby(particles, config, cx, cy, n).contains(j as usize) <==> exists|
            k: int,
        |
            0 <= k < n && crate::physics::cell_of(particles[j].position, config.cell_size)
                == #[trigger] crate::grid::block_cell(
                cx,
                cy,
                config.columns() as isize,
                config.rows() as isize,
                k,
            ),
    decreases n,
{
    if n > 0 {
        let cols = config.columns() as isize;
        let rows = config.rows() as isize;
        let cell = crate::grid::block_cell(cx, cy, cols, rows, n - 1);
        let head = crate::physics::nearby(particles, config, cx, cy, n - 1);
        let tail = crate::physics::members(
            particles,
            config.cell_size,
            cell.0,
            cell.1,
            particles.len() as int,
        );
        let here = crate::physics::cell_of(particles[j].position, config.cell_size);
        lemma_nearby_holds(particles, config, cx, cy, n - 1, j);
        crate::physics::lemma_members(
            particles,
            config.cell_size,
            cell.0,
            cell.1,
            particles.len() as int,
        );
        if (head + tail).contains(j as usize) {
            let at = choose|at: int| 0 <= at < (head + tail).len() && (head + tail)[at] == j as usize;
            if at < head.len() {
                assert(head[at] == j as usize);
                assert(head.contains(j as usize));
                let k = choose|k: int|
                    0 <= k < n - 1 && here == #[trigger] crate::grid::block_cell(
                        cx,
                        cy,
                        cols,
                        rows,
                        k,
                    );
                assert(0 <= k < n && here == crate::grid::block_cell(cx, cy, cols, rows, k));
            } else {
                assert(tail[at - head.len()] == j as usize);
                assert(here == crate::grid::block_cell(cx, cy, cols, rows, n - 1));
            }
        }
        if exists|k: int|
            0 <= k < n && here == #[trigger] crate::grid::block_cell(cx, cy, cols, rows, k) {
            let k = choose|k: int|
                0 <= k < n && here == #[trigger] crate::grid::block_cell(cx, cy, cols, rows, k);
            if k < n - 1 {
                assert(head.contains(j as usize));
                let at = choose|at: int| 0 <= at < head.len() && head[at] == j as usize;
                assert((head + tail)[at] == j as usize);
            } else {
                assert(tail.contains(j as usize));
                let at = choose|at: int| 0 <= at < tail.len() && tail[at] == j as usize;
                assert((head + tail)[head.len() + at] == j as usize);
            }
        }
    }
}

/// The grid misses no particle of the block and adds none: the particles that
/// are looked at for their pull on particle `i` are exactly those that lie in
/// one of the nine cells round the cell of `i`.
pub proof fn lemma_candidates_are_the_block<T: Scalar>(
    particles: Seq<Particle<T>>,
    config: Configuration<T>,
    i: int,
    j: int,
)
    requires
        0 <= i < particles.len() <= usize::MAX,
        0 <= j < particles.len(),
    ensures
        crate::physics::candidates(particles, config, i).contains(j as usize) <==> exists|k: int|
            0 <= k < 9 && #[trigger] lies_in_block(particles, config, i, j, k),
{
    let cell = crate::physics::cell_of(particles[i].position, config.cell_size);
    let cols = config.columns() as isize;
    let rows = config.rows() as isize;
    let here = crate::physics::cell_of(particles[j].position, config.cell_size);
    lemma_nearby_holds(particles, config, cell.0, cell.1, 9, j);
    if crate::physics::candidates(particles, config, i).contains(j as usize) {
        let k = choose|k: int|
            0 <= k < 9 && here == #[trigger] crate::grid::block_cell(cell.0, cell.1, cols, rows, k);
        assert(lies_in_block(particles, config, i, j, k));
    }
    if exists|k: int| 0 <= k < 9 && #[trigger] lies_in_block(particles, config, i, j, k) {
        let k = choose|k: int| 0 <= k < 9 && #[trigger] lies_in_block(particles, config, i, j, k);
        assert(here == crate::grid::block_cell(cell.0, cell.1, cols, rows, k));
    }
}

/// On a ring of at least three cells, a cell and its two neighbours are three
/// different cells.
pub proof fn lemma_wrapped_cells_differ(c: isize, a: int, b: int, n: isize)
    requires
        n >= 3 || n <= -3,
        -1 <= a <= 1,
        -1 <= b <= 1,
        crate::grid::wrap_cell(c + a, n) == crate::grid::wrap_cell(c + b, n),
    ensures
        a == b,
{
    let m = n as int;
    let x = c + a;
    let y = c + b;
    assert(0 <= x % m < m || 0 <= x % m < -m);
    assert(0 <= y % m < m || 0 <= y % m < -m);
    assert(x % m == y % m);
    assert(x == m * (x / m) + x % m) by (nonlinear_arith)
        requires
            m != 0,
    ;
    assert(y == m * (y / m) + y % m) by (nonlinear_arith)
        requires
            m != 0,
    ;
    let q = x / m - y / m;
    assert(a - b == m * q) by (nonlinear_arith)
        requires
            x == m * (x / m) + x % m,
            y == m * (y / m) + y % m,
            x % m == y % m,
            x - y == a - b,
            q == x / m - y / m,
    ;
    if q != 0 {
        assert(m * q >= 3 || m * q <= -3) by (nonlinear_arith)
            requires
                m >= 3 || m <= -3,
                q != 0,
        ;
    }
}

/// On a torus of at least three columns and three rows, the nine cells of a
/// block are nine different cells.
pub proof fn lemma_block_cells_differ(
    cx: isize,
    cy: isize,
    cols: isize,
    rows: isize,
    k: int,
    l: int,
)
    requires
        cols >= 3 || cols <= -3,
        rows >= 3 || rows <= -3,
        0 <= k < 9,
        0 <= l < 9,
        crate::grid::block_cell(cx, cy, cols, rows, k) == crate::grid::block_cell(
            cx,
            cy,
            cols,
            rows,
            l,
        ),
    ensures
        k == l,
{
    lemma_wrapped_cells_differ(cx, k / 3 - 1, l / 3 - 1, cols);
    lemma_wrapped_cells_differ(cy, k % 3 - 1, l % 3 - 1, rows);
}

/// On a torus of at least three columns and three rows, no particle of a block
/// is listed twice.
pub proof fn lemma_nearby_lists_once<T: Scalar>(
    particles: Seq<Particle<T>>,
    config: Configuration<T>,
    cx: isize,
    cy: isize,
    n: int,
)
    requires
        particles.len() <= usize::MAX,
        config.columns() >= 3 || config.columns() <= -3,
        config.rows() >= 3 || config.rows() <= -3,
        n <= 9,
    ensures
        crate::physics::nearby(particles, config, cx, cy, n).no_duplicates(),
    decreases n,
{
    if n > 0 {
        let cols = config.columns() as isize;
        let rows = config.rows() as isize;
        let cell = crate::grid::block_cell(cx, cy, cols, rows, n - 1);
        let head = crate::physics::nearby(particles, config, cx, cy, n - 1);
        let tail = crate::physics::members(
            particles,
            config.cell_size,
            cell.0,
            cell.1,
            particles.len() as int,
        );
        lemma_nearby_lists_once(particles, config, cx, cy, n - 1);
        crate::physics::lemma_nearby_below(particles, config, cx, cy, n - 1);
        crate::physics::lemma_members(
            particles,
            config.cell_size,
            cell.0,
            cell.1,
            particles.len() as int,
        );
        assert forall|a: int, b: int|
            0 <= a < (head + tail).len() && 0 <= b < (head + tail).len() && a != b implies (head
            + tail)[a] != (head + tail)[b] by {
            if a < head.len() && b < head.len() {
                assert((head + tail)[a] == head[a] && (head + tail)[b] == head[b]);
            } else if a >= head.len() && b >= head.len() {
                assert((head + tail)[a] == tail[a - head.len()]);
                assert((head + tail)[b] == tail[b - head.len()]);
            } else {
                let (in_head, in_tail) = if a < head.len() {
                    (a, b - head.len())
                } else {
                    (b, a - head.len())
                };
                assert((head + tail)[in_head] == head[in_head]);
                assert((head + tail)[head.len() + in_tail] == tail[in_tail]);
                if head[in_head] == tail[in_tail] {
                    let j = head[in_head] as int;
                    assert(head.contains(j as usize));
                    lemma_nearby_holds(particles, config, cx, cy, n - 1, j);
                    let k = choose|k: int|
                        0 <= k < n - 1 && crate::physics::cell_of(
                            particles[j].position,
                            config.cell_size,
                        ) == #[trigger] crate::grid::block_cell(cx, cy, cols, rows, k);
                    lemma_block_cells_differ(cx, cy, cols, rows, k, n - 1);
                }
            }
        }
    }
}

/// On a torus of at least three columns and three rows, every particle in the
/// nine cells round the cell of particle `i` is looked at exactly once for its
/// pull on `i`.
pub proof fn lemma_candidates_once<T: Scalar>(
    particles: Seq<Particle<T>>,
    config: Configuration<T>,
    i: int,
)
    requires
        0 <= i < particles.len() <= usize::MAX,
        config.columns() >= 3 || config.columns() <= -3,
        config.rows() >= 3 || config.rows() <= -3,
    ensures
        crate::physics::candidates(particles, config, i).no_duplicates(),
{
    let cell = crate::physics::cell_of(particles[i].position, config.cell_size);
    lemma_nearby_lists_once(particles, config, cell.0, cell.1, 9);
}

/// Only the particles that pull count: the force from a list of particles is
/// the force from those of the list that pull, in the same order.
pub proof fn lemma_only_the_pulling_count<T: Scalar>(
    particles: Seq<Particle<T>>,
    table: Seq<Seq<T>>,
    i: int,
    others: Seq<usize>,
    config: Configuration<T>,
)
    ensures
        crate::physics::force_from(particles, table, i, others, config)
            == crate::physics::force_from(
            particles,
            table,
            i,
            crate::physics::pulling(particles, config, i, others),
            config,
        ),
    decreases others.len(),
{
    if others.len() > 0 {
        let before = others.drop_last();
        let j = others.last();
        lemma_only_the_pulling_count(particles, table, i, before, config);
        if crate::physics::pulls(particles, config, i, j as int) {
            let kept = crate::physics::pulling(particles, config, i, before);
            assert(kept.push(j).drop_last() == kept);
            assert(kept.push(j).last() == j);
        }
    }
}

/// The particles of a list that pull are those that are in the list and pull,
/// and none of them comes twice where none comes twice in the list.
pub proof fn lemma_pulling_holds<T: Scalar>(
    particles: Seq<Particle<T>>,
    config: Configuration<T>,
    i: int,
    others: Seq<usize>,
)
    ensures
        forall|j: usize|
            #![trigger crate::physics::pulling(particles, config, i, others).contains(j)]
            #![trigger others.contains(j)]
            crate::physics::pulling(particles, config, i, others).contains(j) <==> others.contains(
                j,
            ) && crate::physics::pulls(particles, config, i, j as int),
        others.no_duplicates() ==> crate::physics::pulling(
            particles,
            config,
            i,
            others,
        ).no_duplicates(),
    decreases others.len(),
{
    let all = crate::physics::pulling(particles, config, i, others);
    if others.len() > 0 {
        let before = others.drop_last();
        let last = others.last();
        let kept = crate::physics::pulling(particles, config, i, before);
        lemma_pulling_holds(particles, config, i, before);
        assert forall|j: usize| all.contains(j) implies others.contains(j)
            && crate::physics::pulls(particles, config, i, j as int) by {
            let at = choose|at: int| 0 <= at < all.len() && all[at] == j;
            if at < kept.len() {
                assert(kept[at] == j);
                assert(kept.contains(j));
                let from = choose|from: int| 0 <= from < before.len() && before[from] == j;
                assert(others[from] == j);
            } else {
                assert(others[others.len() - 1] == j);
            }
        }
        assert forall|j: usize|
            others.contains(j) && crate::physics::pulls(
                particles,
                config,
                i,
                j as int,
            ) implies all.contains(j) by {
            let from = choose|from: int| 0 <= from < others.len() && others[from] == j;
            if from < before.len() {
                assert(before[from] == j);
                assert(before.contains(j));
                let at = choose|at: int| 0 <= at < kept.len() && kept[at] == j;
                assert(all[at] == j);
            } else {
                assert(all[all.len() - 1] == j);
            }
        }
        if others.no_duplicates() {
            assert(before.no_duplicates());
            if crate::physics::pulls(particles, config, i, last as int) {
                assert forall|a: int, b: int| 0 <= a < all.len() && 0 <= b < all.len() && a
                    != b implies all[a] != all[b] by {
                    let (low, high) = if a < b {
                        (a, b)
                    } else {
                        (b, a)
                    };
                    if high == all.len() - 1 && all[low] == all[high] {
                        assert(kept[low] == last);
                        assert(kept.contains(last));
                        let from = choose|from: int| 0 <= from < before.len() && before[from] == last;
                        assert(others[from] == others[others.len() - 1]);
                    } else if high < all.len() - 1 {
                        assert(kept[low] == all[low] && kept[high] == all[high]);
                    }
                }
            }
        }
    }
}

} // verus!
