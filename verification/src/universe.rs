//! The simulation state and its operations.

use crate::config::Configuration;
use crate::grid::SpatialGrid;
use crate::particle::{Particle, ParticleType};
use crate::scalar::Scalar;
use crate::vector::Vector;
use vstd::prelude::*;

verus! {

/// The simulation state: the particles, the table of attraction coefficients
/// between kinds, and the spatial grid over the particles.
pub struct Universe<T> {
    pub particles: Vec<Particle<T>>,
    pub attraction: Vec<Vec<T>>,
    pub grid: SpatialGrid,
}

/// The table with `delta` added to the entry at `(row, col)`.
pub open spec fn table_add<T: Scalar>(table: Seq<Seq<T>>, row: int, col: int, delta: T) -> Seq<
    Seq<T>,
> {
    table.update(row, table[row].update(col, table[row][col].add_spec(delta)))
}

/// The table with `delta` added to every entry whose column is its row plus
/// `offset`: with offset 0 the diagonal, with -1 the entries just left of it,
/// with 1 those just right of it.
pub open spec fn band_add<T: Scalar>(table: Seq<Seq<T>>, offset: int, delta: T) -> Seq<Seq<T>> {
    band_add_rows(table, offset, delta, table.len() as int)
}

/// The table with `delta` added, in the first `rows` rows, to every entry
/// whose column is its row plus `offset`.
pub open spec fn band_add_rows<T: Scalar>(
    table: Seq<Seq<T>>,
    offset: int,
    delta: T,
    rows: int,
) -> Seq<Seq<T>> {
    Seq::new(
        table.len(),
        |r: int|
            Seq::new(
                table[r].len(),
                |c: int|
                    if r < rows && c == r + offset {
                        table[r][c].add_spec(delta)
                    } else {
                        table[r][c]
                    },
            ),
    )
}

/// Whether `value` is neither below `low` nor above `high`.
pub open spec fn within<T: Scalar>(value: T, low: T, high: T) -> bool {
    !value.lt_spec(low) && !high.lt_spec(value)
}

/// The number of kinds among which a particle's kind is drawn when at most
/// `types` kinds are asked for: `types` itself, but at least one and at most
/// the number of kinds.
pub open spec fn spawn_limit(types: i32) -> int {
    if types < 1 {
        1
    } else if types > crate::particle::type_count() {
        crate::particle::type_count() as int
    } else {
        types as int
    }
}

/// The number of leading rows and columns that a randomisation over `types`
/// kinds fills: `types` itself, but at least none and at most one less than
/// the number of kinds.
pub open spec fn random_limit(types: i32) -> int {
    if types < 0 {
        0
    } else if types > crate::particle::type_count() - 1 {
        crate::particle::type_count() - 1
    } else {
        types as int
    }
}

/// The upper bound that is handed to the generator when a kind is drawn among
/// at most `types` kinds: `types` itself, but at most the number of kinds.
pub open spec fn spawn_bound_spec(types: i32) -> i32 {
    if types > crate::particle::type_count() {
        12
    } else {
        types
    }
}

/// The kind that a drawn number stands for when kinds are drawn below `bound`:
/// the kind with that index where the number is an index below the bound, and
/// the first kind else.
pub open spec fn drawn_kind_spec(drawn: i64, bound: i32) -> ParticleType {
    if 0 <= drawn < bound {
        ParticleType::of_index(drawn as int)
    } else {
        ParticleType::White
    }
}

/// The upper bound that is handed to the generator when a kind is drawn among
/// at most `types` kinds.
pub fn spawn_bound(types: i32) -> (bound: i32)
    ensures
        bound == spawn_bound_spec(types),
        types >= 1 ==> bound == spawn_limit(types),
{
    let count: i32 = ParticleType::get_types() as i32;
    if types > count {
        count
    } else {
        types
    }
}

/// The number of leading rows and columns that a randomisation over `types`
/// kinds fills.
pub fn random_bound(types: i32) -> (bound: usize)
    ensures
        bound == random_limit(types),
{
    let last: i32 = ParticleType::get_types() as i32 - 1;
    if types < 0 {
        0
    } else if types > last {
        last as usize
    } else {
        types as usize
    }
}

/// The kind that a drawn number stands for when kinds are drawn below `bound`.
pub fn drawn_kind(drawn: i64, bound: i32) -> (kind: ParticleType)
    ensures
        kind == drawn_kind_spec(drawn, bound),
        kind.index() < spawn_limit(bound),
{
    if 0 <= drawn && drawn < bound as i64 {
        ParticleType::get_particle_from_index(drawn as i32)
    } else {
        ParticleType::White
    }
}

impl<T: Scalar> Universe<T> {
    /// The table of attraction coefficients, row by row. The entry at
    /// `(a, b)` scales the force that a particle of kind `b` exerts on one of
    /// kind `a`.
    pub open spec fn table(&self) -> Seq<Seq<T>> {
        self.attraction@.map_values(|row: Vec<T>| row@)
    }

    /// Whether the table has one row and one column for each particle kind,
    /// and every index in the grid is the index of a particle.
    pub open spec fn wf(&self) -> bool {
        &&& self.attraction@.len() == crate::particle::type_count()
        &&& forall|r: int|
            0 <= r < self.attraction@.len() ==> (#[trigger] self.attraction@[r])@.len()
                == crate::particle::type_count()
        &&& self.grid.below(self.particles@.len())
    }

    /// The force on particle `i` from the particles that the grid, as it
    /// stands, lists in the cell of `i` and in the eight cells around it.
    pub open spec fn force_on(&self, i: int, config: Configuration<T>) -> Vector<T> {
        let cell = crate::physics::cell_of(self.particles@[i].position, config.cell_size);
        crate::physics::force_from(
            self.particles@,
            self.table(),
            i,
            self.grid.neighborhood(
                cell.0,
                cell.1,
                config.columns() as isize,
                config.rows() as isize,
            ),
            config,
        )
    }

    /// A universe without particles, with an empty grid and a table of zeros.
    pub fn new() -> (universe: Self)
        ensures
            universe.wf(),
            universe.particles@.len() == 0,
            forall|r: int, c: int|
                0 <= r < crate::particle::type_count() && 0 <= c < crate::particle::type_count()
                    ==> (#[trigger] universe.table()[r][c]) == crate::scalar::zero::<T>(),
            forall|cx: isize, cy: isize| (#[trigger] universe.grid.bucket(cx, cy)).len() == 0,
    {
        let count: usize = ParticleType::get_types();
        let mut attraction: Vec<Vec<T>> = Vec::new();
        let mut r: usize = 0;
        while r < count
            invariant
                r <= count,
                count == crate::particle::type_count(),
                attraction@.len() == r,
                forall|i: int|
                    0 <= i < r ==> (#[trigger] attraction@[i])@.len() == crate::particle::type_count(),
                forall|i: int, j: int|
                    0 <= i < r && 0 <= j < crate::particle::type_count() ==> (
                    #[trigger] attraction@[i]@[j]) == crate::scalar::zero::<T>(),
            decreases count - r,
        {
            let mut row: Vec<T> = Vec::new();
            let mut c: usize = 0;
            while c < count
                invariant
                    c <= count,
                    row@.len() == c,
                    forall|j: int| 0 <= j < c ==> (#[trigger] row@[j]) == crate::scalar::zero::<T>(),
                decreases count - c,
            {
                row.push(T::from_ratio(0, 1));
                c += 1;
            }
            attraction.push(row);
            r += 1;
        }
        Universe { particles: Vec::new(), attraction, grid: SpatialGrid::new() }
    }

    /// Sets the coefficient at `(row, col)` to `value`.
    pub fn assert_attraction(&mut self, row: usize, col: usize, value: T)
        requires
            old(self).wf(),
            row < crate::particle::type_count(),
            col < crate::particle::type_count(),
        ensures
            final(self).wf(),
            final(self).table() == old(self).table().update(
                row as int,
                old(self).table()[row as int].update(col as int, value),
            ),
            final(self).particles == old(self).particles,
            final(self).grid == old(self).grid,
    {
        self.attraction[row][col] = value;
        assert(final(self).table() =~= old(self).table().update(
            row as int,
            old(self).table()[row as int].update(col as int, value),
        ));
    }

    /// Adds `modifier` to the coefficient at `(row, col)`.
    pub fn assert_attraction_modifier(&mut self, row: usize, col: usize, modifier: T)
        requires
            old(self).wf(),
            row < crate::particle::type_count(),
            col < crate::particle::type_count(),
        ensures
            final(self).wf(),
            final(self).table() == table_add(old(self).table(), row as int, col as int, modifier),
            final(self).particles == old(self).particles,
            final(self).grid == old(self).grid,
    {
        let current: T = self.attraction[row][col];
        self.assert_attraction(row, col, current.add(modifier));
    }

    /// Whether `p` is a particle as `spawn_random` makes them when asked for
    /// at most `types` kinds: at rest, of one of the first kinds, and inside
    /// the torus.
    pub open spec fn spawned(p: Particle<T>, types: i32) -> bool {
        &&& p.velocity == Vector::<T>::zero_spec()
        &&& p.variety.index() < spawn_limit(types)
        &&& !crate::config::width_spec::<T>().lt_spec(crate::scalar::zero::<T>()) ==> within(
            p.position.x,
            crate::scalar::zero::<T>(),
            crate::config::width_spec::<T>(),
        )
        &&& !crate::config::height_spec::<T>().lt_spec(crate::scalar::zero::<T>()) ==> within(
            p.position.y,
            crate::scalar::zero::<T>(),
            crate::config::height_spec::<T>(),
        )
    }

    /// Whether `after` is `before` with `num` more particles at its end, each
    /// as `spawn_random` makes them when asked for at most `types` kinds.
    pub open spec fn spawns(
        before: Seq<Particle<T>>,
        after: Seq<Particle<T>>,
        num: usize,
        types: i32,
    ) -> bool {
        &&& after.len() == before.len() + num
        &&& forall|i: int| 0 <= i < before.len() ==> (#[trigger] after[i]) == before[i]
        &&& forall|i: int|
            before.len() <= i < after.len() ==> Self::spawned(#[trigger] after[i], types)
    }

    /// Replaces every coefficient among the first kinds by a number drawn at
    /// random between `-max_attraction` and `max_attraction`. The first kinds
    /// are the first `types` ones, and never include the last kind. The other
    /// coefficients stay as they are.
    pub fn random_attraction(&mut self, max_attraction: T, types: i32)
        requires
            old(self).wf(),
        ensures
            final(self).wf(),
            forall|r: int, c: int|
                0 <= r < crate::particle::type_count() && 0 <= c < crate::particle::type_count()
                    ==> if r < random_limit(types) && c < random_limit(types) {
                    !max_attraction.lt_spec(max_attraction.neg_spec()) ==> within(
                        #[trigger] final(self).table()[r][c],
                        max_attraction.neg_spec(),
                        max_attraction,
                    )
                } else {
                    final(self).table()[r][c] == old(self).table()[r][c]
                },
            final(self).particles == old(self).particles,
            final(self).grid == old(self).grid,
    {
        let limit: usize = random_bound(types);
        let low: T = max_attraction.neg();
        let mut i: usize = 0;
        while i < limit
            invariant
                i <= limit,
                limit == random_limit(types),
                low == max_attraction.neg_spec(),
                self.wf(),
                forall|r: int, c: int|
                    0 <= r < crate::particle::type_count() && 0 <= c < crate::particle::type_count()
                        ==> if r < i && c < limit {
                        !max_attraction.lt_spec(low) ==> within(
                            #[trigger] self.table()[r][c],
                            low,
                            max_attraction,
                        )
                    } else {
                        self.table()[r][c] == old(self).table()[r][c]
                    },
                self.particles == old(self).particles,
                self.grid == old(self).grid,
            decreases limit - i,
        {
            let mut j: usize = 0;
            while j < limit
                invariant
                    i < limit,
                    j <= limit,
                    limit == random_limit(types),
                    low == max_attraction.neg_spec(),
                    self.wf(),
                    forall|r: int, c: int|
                        0 <= r < crate::particle::type_count() && 0 <= c
                            < crate::particle::type_count() ==> if (r < i && c < limit) || (r == i
                            && c < j) {
                            !max_attraction.lt_spec(low) ==> within(
                                #[trigger] self.table()[r][c],
                                low,
                                max_attraction,
                            )
                        } else {
                            self.table()[r][c] == old(self).table()[r][c]
                        },
                    self.particles == old(self).particles,
                    self.grid == old(self).grid,
                decreases limit - j,
            {
                let value: T = T::random_between(low, max_attraction);
                self.assert_attraction(i, j, value);
                j += 1;
            }
            i += 1;
        }
    }

    /// Appends `num` particles at rest, each at a place drawn at random inside
    /// the torus and of a kind drawn at random among the first `types` kinds:
    /// among all kinds where `types` is more than there are, and of the first
    /// kind where `types` is less than one.
    pub fn spawn_random(&mut self, num: usize, types: i32)
        ensures
            Self::spawns(old(self).particles@, final(self).particles@, num, types),
            final(self).attraction == old(self).attraction,
            final(self).grid == old(self).grid,
            old(self).wf() ==> final(self).wf(),
    {
        let limit: i32 = spawn_bound(types);
        let mut k: usize = 0;
        while k < num
            invariant
                k <= num,
                limit == spawn_bound_spec(types),
                self.particles@.len() == old(self).particles@.len() + k,
                forall|i: int|
                    0 <= i < old(self).particles@.len() ==> (#[trigger] self.particles@[i]) == old(
                        self,
                    ).particles@[i],
                forall|i: int|
                    old(self).particles@.len() <= i < self.particles@.len() ==> Self::spawned(
                        #[trigger] self.particles@[i],
                        types,
                    ),
                self.attraction == old(self).attraction,
                self.grid == old(self).grid,
            decreases num - k,
        {
            let drawn: i64 = crate::random::gen_range(0, limit as i64);
            let particle_type: ParticleType = drawn_kind(drawn, limit);
            let x: T = T::random_between(T::from_ratio(0, 1), T::from_ratio(crate::config::WIDTH, 1));
            let y: T = T::random_between(T::from_ratio(0, 1), T::from_ratio(crate::config::HEIGHT, 1));
            self.add_particle(x, y, particle_type);
            k += 1;
        }
    }

    fn add_to_band(&mut self, offset: isize, delta: T)
        requires
            old(self).wf(),
            -1 <= offset <= 1,
        ensures
            final(self).wf(),
            final(self).table() == band_add(old(self).table(), offset as int, delta),
            final(self).particles == old(self).particles,
            final(self).grid == old(self).grid,
    {
        let count: usize = ParticleType::get_types();
        let mut i: usize = 0;
        assert(self.table() =~~= band_add_rows(self.table(), offset as int, delta, 0));
        while i < count
            invariant
                i <= count,
                count == crate::particle::type_count(),
                -1 <= offset <= 1,
                self.wf(),
                self.table() == band_add_rows(old(self).table(), offset as int, delta, i as int),
                self.particles == old(self).particles,
                self.grid == old(self).grid,
            decreases count - i,
        {
            let j: isize = i as isize + offset;
            if 0 <= j && j < count as isize {
                self.assert_attraction_modifier(i, j as usize, delta);
            }
            i += 1;
            assert(self.table() =~~= band_add_rows(
                old(self).table(),
                offset as int,
                delta,
                i as int,
            ));
        }
    }

    /// Adds `self_attraction` to every coefficient on the diagonal: to how
    /// much each kind attracts itself.
    pub fn assert_attraction_self(&mut self, self_attraction: T)
        requires
            old(self).wf(),
        ensures
            final(self).wf(),
            final(self).table() == band_add(old(self).table(), 0, self_attraction),
            final(self).particles == old(self).particles,
            final(self).grid == old(self).grid,
    {
        self.add_to_band(0, self_attraction);
    }

    /// Adds `prev_neighbor_attraction` to the coefficient of every kind for
    /// the kind just before it.
    pub fn assert_attraction_self_prev_neighbor(&mut self, prev_neighbor_attraction: T)
        requires
            old(self).wf(),
        ensures
            final(self).wf(),
            final(self).table() == band_add(old(self).table(), -1, prev_neighbor_attraction),
            final(self).particles == old(self).particles,
            final(self).grid == old(self).grid,
    {
        self.add_to_band(-1, prev_neighbor_attraction);
    }

    /// Adds `self_neighbor_attraction` to the coefficient of every kind for
    /// the kind just after it.
    pub fn assert_attraction_self_next_neighbor(&mut self, self_neighbor_attraction: T)
        requires
            old(self).wf(),
        ensures
            final(self).wf(),
            final(self).table() == band_add(old(self).table(), 1, self_neighbor_attraction),
            final(self).particles == old(self).particles,
            final(self).grid == old(self).grid,
    {
        self.add_to_band(1, self_neighbor_attraction);
    }

    /// Adds `self_attraction` to the diagonal, then `prev_attraction` to the
    /// entries just left of it, then `next_attraction` to those just right of
    /// it.
    pub fn assert_common_attraction(
        &mut self,
        self_attraction: T,
        prev_attraction: T,
        next_attraction: T,
    )
        requires
            old(self).wf(),
        ensures
            final(self).wf(),
            final(self).table() == band_add(
                band_add(band_add(old(self).table(), 0, self_attraction), -1, prev_attraction),
                1,
                next_attraction,
            ),
            final(self).particles == old(self).particles,
            final(self).grid == old(self).grid,
    {
        self.assert_attraction_self(self_attraction);
        self.assert_attraction_self_prev_neighbor(prev_attraction);
        self.assert_attraction_self_next_neighbor(next_attraction);
    }

    /// The coefficient that scales the force which a particle of kind `source`
    /// exerts on one of kind `target`.
    pub fn get_attraction(&self, target: ParticleType, source: ParticleType) -> (value: T)
        requires
            self.wf(),
        ensures
            value == self.table()[target.index() as int][source.index() as int],
    {
        let row: usize = target.get_index();
        let col: usize = source.get_index();
        self.attraction[row][col]
    }

    /// Discards all particles, and with them what the grid lists. The table
    /// stays as it is.
    pub fn clear_universe(&mut self)
        ensures
            final(self).particles@.len() == 0,
            final(self).attraction == old(self).attraction,
            forall|cx: isize, cy: isize| (#[trigger] final(self).grid.bucket(cx, cy)).len() == 0,
            old(self).wf() ==> final(self).wf(),
    {
        self.particles = Vec::new();
        self.grid.clear();
    }

    /// Appends a particle of the given kind at `(x, y)`, at rest.
    pub fn add_particle(&mut self, x: T, y: T, particle_type: ParticleType)
        ensures
            final(self).particles@ == old(self).particles@.push(
                (Particle {
                    velocity: Vector::<T>::zero_spec(),
                    position: (Vector { x: x, y: y }),
                    variety: particle_type,
                }),
            ),
            final(self).attraction == old(self).attraction,
            final(self).grid == old(self).grid,
            old(self).wf() ==> final(self).wf(),
    {
        let new_particle: Particle<T> = Particle {
            velocity: Vector::zero(),
            position: Vector { x: x, y: y },
            variety: particle_type,
        };
        self.particles.push(new_particle);
    }

    /// Whether the grid holds the particles as they lie now: each cell lists,
    /// in rising order, the particles in it.
    pub open spec fn grid_matches(&self, cell_size: T) -> bool {
        forall|cx: isize, cy: isize| #[trigger]
            self.grid.bucket(cx, cy) == crate::physics::members(
                self.particles@,
                cell_size,
                cx,
                cy,
                self.particles@.len() as int,
            )
    }

    /// Where the grid holds the particles as they lie now, the particles that
    /// it finds round a cell are those that lie round it.
    pub proof fn lemma_grid_finds_nearby(
        &self,
        config: Configuration<T>,
        cx: isize,
        cy: isize,
        n: int,
    )
        requires
            self.grid_matches(config.cell_size),
        ensures
            self.grid.block(cx, cy, config.columns() as isize, config.rows() as isize, n)
                == crate::physics::nearby(self.particles@, config, cx, cy, n),
        decreases n,
    {
        if n > 0 {
            self.lemma_grid_finds_nearby(config, cx, cy, n - 1);
        }
    }

    /// Where the grid holds the particles as they lie now, the force that it
    /// gives on a particle is the force from the particles that lie in the
    /// cell of that particle and in the eight cells around it.
    pub proof fn lemma_fresh_grid_force(&self, i: int, config: Configuration<T>)
        requires
            self.grid_matches(config.cell_size),
        ensures
            self.force_on(i, config) == crate::physics::force_on(
                self.particles@,
                self.table(),
                i,
                config,
            ),
    {
        let cell = crate::physics::cell_of(self.particles@[i].position, config.cell_size);
        self.lemma_grid_finds_nearby(config, cell.0, cell.1, 9);
    }

    /// A grid that holds the particles as they lie holds no index but theirs.
    pub proof fn lemma_fresh_grid_is_in_range(&self, cell_size: T)
        requires
            self.grid_matches(cell_size),
        ensures
            self.grid.below(self.particles@.len()),
    {
        assert(self.particles@.len() == self.particles.len());
        assert forall|cx: isize, cy: isize, k: int|
            0 <= k < self.grid.bucket(cx, cy).len() implies (#[trigger] self.grid.bucket(cx, cy)[k])
            < self.particles@.len() by {
            crate::physics::lemma_members(
                self.particles@,
                cell_size,
                cx,
                cy,
                self.particles@.len() as int,
            );
        }
    }

    /// Builds the grid anew from where the particles lie now.
    pub fn update_grid(&mut self, config: &Configuration<T>)
        ensures
            final(self).grid_matches(config.cell_size),
            final(self).particles == old(self).particles,
            final(self).attraction == old(self).attraction,
            old(self).wf() ==> final(self).wf(),
    {
        self.grid.clear();
        let count: usize = self.particles.len();
        let mut idx: usize = 0;
        while idx < count
            invariant
                idx <= count,
                count == self.particles@.len(),
                self.particles == old(self).particles,
                self.attraction == old(self).attraction,
                forall|cx: isize, cy: isize| #[trigger]
                    self.grid.bucket(cx, cy) == crate::physics::members(
                        self.particles@,
                        config.cell_size,
                        cx,
                        cy,
                        idx as int,
                    ),
            decreases count - idx,
        {
            let position: Vector<T> = self.particles[idx].position;
            let cell_x: isize = position.x.floor_div(config.cell_size);
            let cell_y: isize = position.y.floor_div(config.cell_size);
            self.grid.insert(cell_x, cell_y, idx);
            idx += 1;
        }
        proof {
            self.lemma_fresh_grid_is_in_range(config.cell_size);
        }
    }

    /// Lets every particle be pulled for one tick by the particles that the
    /// grid, as it stands, lists in its cell and in the eight cells around it:
    /// its velocity grows by the force on it times the tick. Nothing else
    /// changes. All forces are taken from the particles as they were before
    /// the call.
    pub fn assert_forces(&mut self, config: &Configuration<T>)
        requires
            old(self).wf(),
        ensures
            final(self).wf(),
            final(self).particles@.len() == old(self).particles@.len(),
            forall|i: int|
                0 <= i < old(self).particles@.len() ==> (#[trigger] final(self).particles@[i])
                    == crate::physics::pushed(
                    old(self).particles@[i],
                    old(self).force_on(i, *config),
                    *config,
                ),
            final(self).attraction == old(self).attraction,
            final(self).grid == old(self).grid,
    {
        let count: usize = self.particles.len();
        let cols: isize = config.grid_columns();
        let rows: isize = config.grid_rows();
        let mut forces: Vec<Vector<T>> = Vec::new();
        let mut i: usize = 0;
        while i < count
            invariant
                i <= count,
                count == self.particles@.len(),
                cols == config.columns(),
                rows == config.rows(),
                self.wf(),
                forces@.len() == i,
                forall|k: int| 0 <= k < i ==> (#[trigger] forces@[k]) == self.force_on(k, *config),
            decreases count - i,
        {
            let particle: Particle<T> = self.particles[i];
            let cell_x: isize = particle.position.x.floor_div(config.cell_size);
            let cell_y: isize = particle.position.y.floor_div(config.cell_size);
            let found: Vec<usize> = self.grid.neighbors(cell_x, cell_y, cols, rows);
            proof {
                self.grid.lemma_block_below(cell_x, cell_y, cols, rows, 9, count as nat);
            }
            let mut acc: Vector<T> = Vector::zero();
            let mut c: usize = 0;
            while c < found.len()
                invariant
                    c <= found.len(),
                    i < count,
                    count == self.particles@.len(),
                    self.wf(),
                    particle == self.particles@[i as int],
                    forall|k: int| 0 <= k < found@.len() ==> (#[trigger] found@[k]) < count,
                    acc == crate::physics::force_from(
                        self.particles@,
                        self.table(),
                        i as int,
                        found@.subrange(0, c as int),
                        *config,
                    ),
                decreases found.len() - c,
            {
                let j: usize = found[c];
                assert(found@.subrange(0, c + 1).drop_last() == found@.subrange(0, c as int));
                if j != i {
                    let neighbor: Particle<T> = self.particles[j];
                    let attraction: T = self.get_attraction(particle.variety, neighbor.variety);
                    acc = crate::physics::pull(
                        acc,
                        particle.position,
                        neighbor.position,
                        attraction,
                        config,
                    );
                }
                c += 1;
            }
            assert(found@.subrange(0, c as int) == found@);
            forces.push(acc);
            i += 1;
        }
        let mut i: usize = 0;
        while i < count
            invariant
                i <= count,
                count == self.particles@.len(),
                count == old(self).particles@.len(),
                forces@.len() == count,
                self.attraction == old(self).attraction,
                self.grid == old(self).grid,
                forall|k: int|
                    0 <= k < count ==> (#[trigger] forces@[k]) == old(self).force_on(k, *config),
                forall|k: int|
                    0 <= k < i ==> (#[trigger] self.particles@[k]) == crate::physics::pushed(
                        old(self).particles@[k],
                        forces@[k],
                        *config,
                    ),
                forall|k: int|
                    i <= k < count ==> (#[trigger] self.particles@[k]) == old(self).particles@[k],
            decreases count - i,
        {
            let push: Vector<T> = forces[i].mul(config.tick);
            self.particles[i].velocity.add_assign(push);
            i += 1;
        }
    }

    /// Moves every particle by one tick: along its velocity, round the torus,
    /// and with its velocity damped by the friction.
    pub fn assert_movement(&mut self, config: &Configuration<T>)
        ensures
            final(self).particles@.len() == old(self).particles@.len(),
            forall|i: int|
                0 <= i < old(self).particles@.len() ==> (#[trigger] final(self).particles@[i])
                    == crate::physics::moved(old(self).particles@[i], *config),
            final(self).attraction == old(self).attraction,
            final(self).grid == old(self).grid,
            old(self).wf() ==> final(self).wf(),
    {
        let count: usize = self.particles.len();
        let mut i: usize = 0;
        while i < count
            invariant
                i <= count,
                count == self.particles@.len(),
                count == old(self).particles@.len(),
                self.attraction == old(self).attraction,
                self.grid == old(self).grid,
                forall|k: int|
                    0 <= k < i ==> (#[trigger] self.particles@[k]) == crate::physics::moved(
                        old(self).particles@[k],
                        *config,
                    ),
                forall|k: int|
                    i <= k < count ==> (#[trigger] self.particles@[k]) == old(self).particles@[k],
            decreases count - i,
        {
            crate::physics::step_particle(&mut self.particles[i], config);
            i += 1;
        }
    }

    /// Advances the simulation by one tick. Every particle is pulled by the
    /// particles that the grid lists round it, as the grid was left by the
    /// step before; then every particle moves; then the grid is built anew
    /// from where the particles lie. A particle added since the grid was built
    /// is not listed yet, and pulls on none before the next step.
    pub fn update_universe(&mut self, config: &Configuration<T>)
        requires
            old(self).wf(),
        ensures
            final(self).wf(),
            final(self).particles@.len() == old(self).particles@.len(),
            forall|i: int|
                0 <= i < old(self).particles@.len() ==> (#[trigger] final(self).particles@[i])
                    == crate::physics::moved(
                    crate::physics::pushed(
                        old(self).particles@[i],
                        old(self).force_on(i, *config),
                        *config,
                    ),
                    *config,
                ),
            final(self).attraction == old(self).attraction,
            final(self).grid_matches(config.cell_size),
    {
        self.assert_forces(config);
        self.assert_movement(config);
        self.update_grid(config);
    }
}

} // verus!
