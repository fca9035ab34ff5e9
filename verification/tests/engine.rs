use particle_life::config::{Configuration, HEIGHT, WIDTH};
use particle_life::particle::{Particle, ParticleType};
use particle_life::physics::{get_force, pull, shortest_delta, step_particle, wrap_coordinate};
use particle_life::scalar::Scalar;
use particle_life::universe::Universe;
use particle_life::vector::Vector;

#[derive(Clone, Copy, Debug, PartialEq)]
struct Real(f32);

impl Scalar for Real {
    fn from_ratio(num: i32, den: i32) -> Self {
        Real(num as f32 / den as f32)
    }
    fn add(self, rhs: Self) -> Self {
        Real(self.0 + rhs.0)
    }
    fn sub(self, rhs: Self) -> Self {
        Real(self.0 - rhs.0)
    }
    fn mul(self, rhs: Self) -> Self {
        Real(self.0 * rhs.0)
    }
    fn div(self, rhs: Self) -> Self {
        Real(self.0 / rhs.0)
    }
    fn neg(self) -> Self {
        Real(-self.0)
    }
    fn sqrt(self) -> Self {
        Real(self.0.sqrt())
    }
    fn lt(self, rhs: Self) -> bool {
        self.0 < rhs.0
    }
    fn truncate(self) -> isize {
        self.0 as isize
    }
    fn floor_div(self, rhs: Self) -> isize {
        (self.0 / rhs.0).floor() as isize
    }
    fn random_between(low: Self, high: Self) -> Self {
        Real(macroquad::rand::gen_range(low.0, high.0))
    }
}

fn point(x: f32, y: f32) -> Vector<Real> {
    Vector { x: Real(x), y: Real(y) }
}

fn pair(v: Vector<Real>) -> (f32, f32) {
    (v.x.0, v.y.0)
}

fn speed(p: &Particle<Real>) -> f32 {
    (p.velocity.x.0 * p.velocity.x.0 + p.velocity.y.0 * p.velocity.y.0).sqrt()
}

fn close(a: f32, b: f32) -> bool {
    (a - b).abs() <= 1e-4 * (1.0 + a.abs().max(b.abs()))
}

fn scattered(n: usize) -> Vec<(f32, f32, ParticleType)> {
    let mut seed: u32 = 12345;
    let mut out = Vec::new();
    for i in 0..n {
        seed = seed.wrapping_mul(1664525).wrapping_add(1013904223);
        let x = 900.0 + (seed >> 8) as f32 / 16777216.0 * 300.0;
        seed = seed.wrapping_mul(1664525).wrapping_add(1013904223);
        let y = 500.0 + (seed >> 8) as f32 / 16777216.0 * 200.0;
        out.push((x, y, ParticleType::get_particle_from_index((i % 5) as i32)));
    }
    out
}

fn uneven_table(universe: &mut Universe<Real>) {
    for r in 0..12 {
        for c in 0..12 {
            universe.assert_attraction(r, c, Real((r as f32 * 37.0) - (c as f32 * 91.0) + 400.0));
        }
    }
}

#[test]
fn default_configuration_has_the_documented_values() {
    let config: Configuration<Real> = Configuration::new();
    assert_eq!(config.tick, Real(0.12));
    assert_eq!(config.distance_min, Real(40.0));
    assert_eq!(config.distance_max, Real(70.0));
    assert_eq!(config.friction, Real(0.90));
    assert_eq!(config.standard_repulsion, Real(15.0));
    assert_eq!(config.buffer_distance, Real(4.0));
    assert_eq!(config.cell_size, Real(75.0));
    assert_eq!(config.draw_size, Real(1.2));
    assert_eq!(WIDTH, 2100);
    assert_eq!(HEIGHT, 1200);
}

#[test]
fn default_configuration_spans_twenty_eight_by_sixteen_cells() {
    let config: Configuration<Real> = Configuration::new();
    assert_eq!(config.grid_columns(), 28);
    assert_eq!(config.grid_rows(), 16);
}

#[test]
fn default_cells_are_at_least_as_large_as_the_reach() {
    let config: Configuration<Real> = Configuration::new();
    assert!(config.cell_size.0 >= config.distance_max.0);
    assert!(0.0 < config.distance_min.0 && config.distance_min.0 < config.distance_max.0);
    assert!(config.buffer_distance.0 > 0.0 && config.standard_repulsion.0 > 0.0);
    assert!(0.0 < config.friction.0 && config.friction.0 < 1.0);
    assert!(config.tick.0 > 0.0);
    assert_eq!(2100.0 % config.cell_size.0, 0.0);
    assert_eq!(1200.0 % config.cell_size.0, 0.0);
}

#[test]
fn the_number_of_cells_is_cut_off() {
    let mut config: Configuration<Real> = Configuration::new();
    config.cell_size = Real(50.0);
    assert_eq!(config.grid_columns(), 42);
    assert_eq!(config.grid_rows(), 24);
    config.cell_size = Real(1500.0);
    assert_eq!(config.grid_columns(), 1);
    assert_eq!(config.grid_rows(), 0);
    config.cell_size = Real(5000.0);
    assert_eq!(config.grid_columns(), 0);
    assert_eq!(config.grid_rows(), 0);
}

#[test]
fn a_step_runs_with_a_cell_larger_than_the_torus() {
    let mut config: Configuration<Real> = Configuration::new();
    config.cell_size = Real(1300.0);
    let mut universe: Universe<Real> = Universe::new();
    universe.add_particle(Real(10.0), Real(10.0), ParticleType::White);
    universe.update_universe(&config);
    universe.update_universe(&config);
    assert_eq!(pair(universe.particles[0].position), (10.0, 10.0));
    assert_eq!(pair(universe.particles[0].velocity), (0.0, 0.0));
    assert_eq!(universe.grid.get(0, 0), Some(&vec![0]));
}

#[test]
fn with_one_cell_for_the_whole_torus_every_pair_is_found_once() {
    let mut config: Configuration<Real> = Configuration::new();
    config.cell_size = Real(5000.0);
    let mut universe: Universe<Real> = Universe::new();
    universe.assert_attraction(0, 0, Real(2500.0));
    universe.add_particle(Real(1000.0), Real(600.0), ParticleType::White);
    universe.add_particle(Real(1050.0), Real(600.0), ParticleType::White);
    universe.update_grid(&config);
    universe.assert_forces(&config);
    assert_eq!(universe.particles[0].velocity.x, Real(((1.0f32 * 50.0) / 50.0) * 0.12));
    assert_eq!(universe.particles[1].velocity.x, Real(((1.0f32 * -50.0) / 50.0) * 0.12));
}

#[test]
fn particles_added_since_the_last_step_wait_one_step() {
    let mut config: Configuration<Real> = Configuration::new();
    config.tick = Real(1.0);
    config.distance_min = Real(1.0);
    let mut universe: Universe<Real> = Universe::new();
    universe.assert_attraction(0, 0, Real(8.0));
    universe.add_particle(Real(1.0), Real(600.0), ParticleType::White);
    universe.add_particle(Real(2099.0), Real(600.0), ParticleType::White);
    universe.update_universe(&config);
    assert_eq!(pair(universe.particles[0].velocity), (0.0, 0.0));
    assert_eq!(pair(universe.particles[1].velocity), (0.0, 0.0));
    assert_eq!(pair(universe.particles[0].position), (1.0, 600.0));
    universe.update_universe(&config);
    assert_eq!(universe.particles[0].velocity.x, Real((0.0 + ((2.0f32 * -2.0) / 2.0) * 1.0) * 0.90));
    assert_eq!(universe.particles[1].velocity.x, Real((0.0 + ((2.0f32 * 2.0) / 2.0) * 1.0) * 0.90));
}

#[test]
fn forces_are_taken_from_the_grid_as_it_stands() {
    let config: Configuration<Real> = Configuration::new();
    let mut universe: Universe<Real> = Universe::new();
    universe.assert_attraction(0, 0, Real(2500.0));
    universe.add_particle(Real(1000.0), Real(600.0), ParticleType::White);
    universe.update_grid(&config);
    universe.add_particle(Real(1050.0), Real(600.0), ParticleType::White);
    universe.assert_forces(&config);
    assert_eq!(pair(universe.particles[0].velocity), (0.0, 0.0));
    assert_eq!(universe.particles[1].velocity.x, Real(((1.0f32 * -50.0) / 50.0) * 0.12));
    assert_eq!(pair(universe.particles[0].position), (1000.0, 600.0));
    assert_eq!(pair(universe.particles[1].position), (1050.0, 600.0));
    assert_eq!(universe.grid.get(13, 8), Some(&vec![0]));
    assert!(universe.grid.get(14, 8).is_none());
    universe.update_grid(&config);
    universe.assert_forces(&config);
    assert_eq!(universe.particles[0].velocity.x, Real(((1.0f32 * 50.0) / 50.0) * 0.12));
    assert_eq!(universe.particles[1].velocity.x, Real(-0.12 + ((1.0f32 * -50.0) / 50.0) * 0.12));
}

#[test]
fn force_beyond_the_minimum_distance_is_coefficient_over_squared_distance() {
    let config: Configuration<Real> = Configuration::new();
    assert_eq!(get_force(Real(50.0), Real(1000.0), &config), Real(0.4));
    assert_eq!(get_force(Real(50.0), Real(-500.0), &config), Real(-0.2));
    assert_eq!(get_force(Real(40.0), Real(1600.0), &config), Real(1.0));
}

#[test]
fn force_below_the_minimum_distance_is_the_buffered_repulsion() {
    let config: Configuration<Real> = Configuration::new();
    assert_eq!(get_force(Real(10.0), Real(1000.0), &config), Real(-15.0 / 104.0));
    assert_eq!(get_force(Real(10.0), Real(-1000.0), &config), Real(-15.0 / 104.0));
    assert_eq!(get_force(Real(0.0), Real(1000.0), &config), Real(-3.75));
    assert_eq!(get_force(Real(39.999), Real(0.0), &config), Real(-15.0 / (39.999 * 39.999 + 4.0)));
}

#[test]
fn force_law_jumps_at_the_minimum_distance() {
    let config: Configuration<Real> = Configuration::new();
    let below = get_force(Real(39.99), Real(1600.0), &config);
    let at = get_force(Real(40.0), Real(1600.0), &config);
    assert!(below.0 < 0.0);
    assert_eq!(at, Real(1.0));
}

#[test]
fn separation_is_taken_the_short_way_round() {
    let width = Real(2100.0);
    assert_eq!(shortest_delta(Real(2098.0), width), Real(-2.0));
    assert_eq!(shortest_delta(Real(-2098.0), width), Real(2.0));
    assert_eq!(shortest_delta(Real(100.0), width), Real(100.0));
    assert_eq!(shortest_delta(Real(-100.0), width), Real(-100.0));
    assert_eq!(shortest_delta(Real(1050.0), width), Real(1050.0));
    assert_eq!(shortest_delta(Real(-1050.0), width), Real(-1050.0));
    assert_eq!(shortest_delta(Real(1051.0), width), Real(-1049.0));
}

#[test]
fn particles_near_opposite_edges_are_two_apart() {
    let config: Configuration<Real> = Configuration::new();
    let here = point(1.0, 500.0);
    let there = point(2099.0, 500.0);
    let zero = point(0.0, 0.0);
    let force = pull(zero, here, there, Real(1000.0), &config);
    assert_eq!(force.x, Real(1.875));
    assert_eq!(force.y.0, 0.0);
    let back = pull(zero, there, here, Real(1000.0), &config);
    assert_eq!(back.x, Real(-1.875));
}

#[test]
fn pull_across_the_edge_points_across_the_edge() {
    let config: Configuration<Real> = Configuration::new();
    let here = point(10.0, 600.0);
    let there = point(2050.0, 600.0);
    let force = pull(point(0.0, 0.0), here, there, Real(3600.0), &config);
    assert_eq!(force.x, Real(-1.0));
    let vertical = pull(point(0.0, 0.0), point(300.0, 1190.0), point(300.0, 50.0), Real(3600.0), &config);
    assert_eq!(vertical.x.0, 0.0);
    assert_eq!(vertical.y, Real(1.0));
}

#[test]
fn no_pull_at_the_maximum_distance_and_beyond() {
    let config: Configuration<Real> = Configuration::new();
    let acc = point(3.0, -4.0);
    let same = pull(acc, point(100.0, 100.0), point(170.0, 100.0), Real(1000.0), &config);
    assert_eq!(same.x, Real(3.0));
    assert_eq!(same.y, Real(-4.0));
    let far = pull(acc, point(100.0, 100.0), point(600.0, 700.0), Real(1000.0), &config);
    assert_eq!(far.x, Real(3.0));
    assert_eq!(far.y, Real(-4.0));
    let near = pull(acc, point(100.0, 100.0), point(169.0, 100.0), Real(1000.0), &config);
    assert_eq!(near.x, Real(3.0 + (1000.0 / (69.0 * 69.0)) * 69.0 / 69.0));
}

#[test]
fn pull_adds_to_what_was_there() {
    let config: Configuration<Real> = Configuration::new();
    let force = pull(point(2.0, 5.0), point(100.0, 100.0), point(130.0, 140.0), Real(2500.0), &config);
    assert_eq!(force.x, Real(2.0 + (1.0 * 30.0) / 50.0));
    assert_eq!(force.y, Real(5.0 + (1.0 * 40.0) / 50.0));
}

#[test]
fn coordinate_wraps_by_the_overshoot() {
    let width = Real(2100.0);
    assert_eq!(wrap_coordinate(Real(2101.5), width), Real(1.5));
    assert_eq!(wrap_coordinate(Real(-0.5), width), Real(2099.5));
    assert_eq!(wrap_coordinate(Real(0.0), width), Real(0.0));
    assert_eq!(wrap_coordinate(Real(2100.0), width), Real(2100.0));
    assert_eq!(wrap_coordinate(Real(1000.0), width), Real(1000.0));
}

#[test]
fn particle_leaving_on_the_right_comes_back_on_the_left() {
    let config: Configuration<Real> = Configuration::new();
    let mut p = Particle {
        velocity: point(10.0, 0.0),
        position: point(2100.0 - 0.01, 300.0),
        variety: ParticleType::Red,
    };
    step_particle(&mut p, &config);
    let expected = ((2100.0f32 - 0.01f32) + 10.0f32 * 0.12f32) - 2100.0f32;
    assert_eq!(p.position.x, Real(expected));
    assert!((p.position.x.0 - 1.19).abs() < 1e-3);
    assert_eq!(p.position.y, Real(300.0));
    assert_eq!(p.velocity.x, Real(10.0 * 0.90));
    assert_eq!(p.variety, ParticleType::Red);
}

#[test]
fn particle_leaving_at_the_top_comes_back_at_the_bottom() {
    let config: Configuration<Real> = Configuration::new();
    let mut p = Particle {
        velocity: point(-10.0, -20.0),
        position: point(0.5, 1.0),
        variety: ParticleType::Blue,
    };
    step_particle(&mut p, &config);
    assert_eq!(p.position.x, Real((0.5f32 + -10.0f32 * 0.12f32) + 2100.0f32));
    assert_eq!(p.position.y, Real((1.0f32 + -20.0f32 * 0.12f32) + 1200.0f32));
    assert!((p.position.x.0 - 2099.3).abs() < 1e-3);
    assert!((p.position.y.0 - 1198.6).abs() < 1e-3);
}

#[test]
fn new_universe_is_empty_with_a_table_of_zeros() {
    let universe: Universe<Real> = Universe::new();
    assert_eq!(universe.particles.len(), 0);
    assert_eq!(universe.attraction.len(), 12);
    for row in &universe.attraction {
        assert_eq!(row.len(), 12);
        for value in row {
            assert_eq!(*value, Real(0.0));
        }
    }
    assert!(universe.grid.get(0, 0).is_none());
}

#[test]
fn added_particle_is_at_rest_where_it_was_put() {
    let mut universe: Universe<Real> = Universe::new();
    universe.add_particle(Real(12.5), Real(700.25), ParticleType::Green);
    universe.add_particle(Real(1.0), Real(2.0), ParticleType::Extra7);
    assert_eq!(universe.particles.len(), 2);
    assert_eq!(pair(universe.particles[0].position), (12.5, 700.25));
    assert_eq!(pair(universe.particles[0].velocity), (0.0, 0.0));
    assert_eq!(universe.particles[0].variety, ParticleType::Green);
    assert_eq!(pair(universe.particles[1].position), (1.0, 2.0));
    assert_eq!(universe.particles[1].variety, ParticleType::Extra7);
}

#[test]
fn clear_discards_the_particles_and_keeps_the_table() {
    let mut universe: Universe<Real> = Universe::new();
    universe.assert_attraction(3, 4, Real(9.0));
    universe.add_particle(Real(1.0), Real(2.0), ParticleType::Red);
    universe.update_grid(&Configuration::new());
    assert_eq!(universe.grid.get(0, 0), Some(&vec![0]));
    universe.clear_universe();
    assert_eq!(universe.particles.len(), 0);
    assert_eq!(universe.attraction[3][4], Real(9.0));
    assert_eq!(universe.attraction.len(), 12);
    assert!(universe.grid.get(0, 0).is_none());
}

#[test]
fn table_need_not_be_symmetric() {
    let mut universe: Universe<Real> = Universe::new();
    universe.assert_attraction(0, 1, Real(1000.0));
    universe.assert_attraction(1, 0, Real(-500.0));
    assert_eq!(universe.get_attraction(ParticleType::White, ParticleType::Purple), Real(1000.0));
    assert_eq!(universe.get_attraction(ParticleType::Purple, ParticleType::White), Real(-500.0));
    assert_eq!(universe.get_attraction(ParticleType::White, ParticleType::White), Real(0.0));
}

#[test]
fn each_direction_of_a_pair_follows_its_own_coefficient() {
    let config: Configuration<Real> = Configuration::new();
    let mut universe: Universe<Real> = Universe::new();
    universe.assert_attraction(0, 1, Real(1000.0));
    universe.assert_attraction(1, 0, Real(-500.0));
    universe.add_particle(Real(1000.0), Real(600.0), ParticleType::White);
    universe.add_particle(Real(1050.0), Real(600.0), ParticleType::Purple);
    universe.update_grid(&config);
    universe.assert_forces(&config);
    let white = universe.particles[0];
    let purple = universe.particles[1];
    assert_eq!(white.velocity.x, Real(0.0 + ((0.4f32 * 50.0) / 50.0) * 0.12));
    assert_eq!(purple.velocity.x, Real(0.0 + ((-0.2f32 * -50.0) / 50.0) * 0.12));
    assert!(white.velocity.x.0 > 0.0);
    assert!(purple.velocity.x.0 > 0.0);
    assert_eq!(pair(white.position), (1000.0, 600.0));
    assert_eq!(pair(purple.position), (1050.0, 600.0));
}

#[test]
fn set_overwrites_and_modifier_adds() {
    let mut universe: Universe<Real> = Universe::new();
    universe.assert_attraction(2, 5, Real(5.0));
    universe.assert_attraction(2, 5, Real(7.0));
    assert_eq!(universe.attraction[2][5], Real(7.0));
    universe.assert_attraction_modifier(2, 5, Real(3.0));
    assert_eq!(universe.attraction[2][5], Real(10.0));
    universe.assert_attraction_modifier(2, 5, Real(-20.5));
    assert_eq!(universe.attraction[2][5], Real(-10.5));
    assert_eq!(universe.attraction[5][2], Real(0.0));
}

#[test]
fn self_attraction_goes_to_the_diagonal() {
    let mut universe: Universe<Real> = Universe::new();
    universe.assert_attraction(4, 4, Real(1.0));
    universe.assert_attraction_self(Real(875.0));
    for r in 0..12 {
        for c in 0..12 {
            let expected = if r == 4 && c == 4 {
                876.0
            } else if r == c {
                875.0
            } else {
                0.0
            };
            assert_eq!(universe.attraction[r][c], Real(expected));
        }
    }
}

#[test]
fn previous_neighbour_attraction_goes_left_of_the_diagonal() {
    let mut universe: Universe<Real> = Universe::new();
    universe.assert_attraction_self_prev_neighbor(Real(-250.0));
    for r in 0..12 {
        for c in 0..12 {
            let expected = if c + 1 == r { -250.0 } else { 0.0 };
            assert_eq!(universe.attraction[r][c], Real(expected));
        }
    }
}

#[test]
fn next_neighbour_attraction_goes_right_of_the_diagonal() {
    let mut universe: Universe<Real> = Universe::new();
    universe.assert_attraction_self_next_neighbor(Real(500.0));
    for r in 0..12 {
        for c in 0..12 {
            let expected = if c == r + 1 { 500.0 } else { 0.0 };
            assert_eq!(universe.attraction[r][c], Real(expected));
        }
    }
}

#[test]
fn common_attraction_fills_the_three_bands() {
    let mut universe: Universe<Real> = Universe::new();
    for r in 0..12 {
        for c in 0..12 {
            universe.assert_attraction(r, c, Real(1.0));
        }
    }
    universe.assert_common_attraction(Real(875.0), Real(-250.0), Real(500.0));
    for r in 0..12usize {
        for c in 0..12usize {
            let expected = if r == c {
                876.0
            } else if c + 1 == r {
                -249.0
            } else if c == r + 1 {
                501.0
            } else {
                1.0
            };
            assert_eq!(universe.attraction[r][c], Real(expected));
        }
    }
}

#[test]
fn randomising_fills_all_but_the_last_kind_within_the_bounds() {
    let mut universe: Universe<Real> = Universe::new();
    for r in 0..12 {
        for c in 0..12 {
            universe.assert_attraction(r, c, Real(5000.0));
        }
    }
    universe.random_attraction(Real(1000.0), 230);
    let mut different = false;
    for r in 0..12 {
        for c in 0..12 {
            let value = universe.attraction[r][c].0;
            if r < 11 && c < 11 {
                assert!(-1000.0 <= value && value <= 1000.0);
                if value != universe.attraction[0][0].0 {
                    different = true;
                }
            } else {
                assert_eq!(value, 5000.0);
            }
        }
    }
    assert!(different);
}

#[test]
fn randomising_a_few_kinds_leaves_the_others() {
    let mut universe: Universe<Real> = Universe::new();
    for r in 0..12 {
        for c in 0..12 {
            universe.assert_attraction(r, c, Real(5000.0));
        }
    }
    universe.random_attraction(Real(10.0), 3);
    for r in 0..12 {
        for c in 0..12 {
            let value = universe.attraction[r][c].0;
            if r < 3 && c < 3 {
                assert!(-10.0 <= value && value <= 10.0);
            } else {
                assert_eq!(value, 5000.0);
            }
        }
    }
    universe.random_attraction(Real(10.0), 12);
    assert_eq!(universe.attraction[11][11], Real(5000.0));
    assert_eq!(universe.attraction[0][11], Real(5000.0));
    assert!(universe.attraction[10][10].0 <= 10.0);
}

#[test]
fn randomising_no_kinds_changes_nothing() {
    let mut universe: Universe<Real> = Universe::new();
    universe.assert_attraction(0, 0, Real(5000.0));
    universe.random_attraction(Real(10.0), 0);
    universe.random_attraction(Real(10.0), -7);
    assert_eq!(universe.attraction[0][0], Real(5000.0));
    assert_eq!(universe.attraction[1][1], Real(0.0));
}

#[test]
fn clear_then_spawn_gives_exactly_the_asked_particles() {
    let mut universe: Universe<Real> = Universe::new();
    universe.add_particle(Real(1.0), Real(1.0), ParticleType::Extra7);
    universe.clear_universe();
    universe.spawn_random(25, 3);
    assert_eq!(universe.particles.len(), 25);
    for p in &universe.particles {
        assert_eq!(pair(p.velocity), (0.0, 0.0));
        assert!(p.variety.get_index() < 3);
        assert!(0.0 <= p.position.x.0 && p.position.x.0 <= 2100.0);
        assert!(0.0 <= p.position.y.0 && p.position.y.0 <= 1200.0);
    }
}

#[test]
fn spawn_keeps_the_particles_that_were_there() {
    let mut universe: Universe<Real> = Universe::new();
    universe.add_particle(Real(1.0), Real(2.0), ParticleType::Extra7);
    universe.spawn_random(4, 2);
    assert_eq!(universe.particles.len(), 5);
    assert_eq!(pair(universe.particles[0].position), (1.0, 2.0));
    assert_eq!(universe.particles[0].variety, ParticleType::Extra7);
    universe.spawn_random(0, 2);
    assert_eq!(universe.particles.len(), 5);
}

#[test]
fn spawn_draws_among_all_kinds_at_most() {
    let mut universe: Universe<Real> = Universe::new();
    universe.spawn_random(300, 100);
    assert_eq!(universe.particles.len(), 300);
    let mut seen = [false; 12];
    for p in &universe.particles {
        seen[p.variety.get_index()] = true;
    }
    assert!(seen.iter().filter(|s| **s).count() > 1);
    universe.clear_universe();
    universe.spawn_random(300, 12);
    let mut last = false;
    for p in &universe.particles {
        if p.variety == ParticleType::Extra7 {
            last = true;
        }
    }
    assert!(last);
}

#[test]
fn spawn_of_less_than_one_kind_gives_the_first_kind() {
    let mut universe: Universe<Real> = Universe::new();
    universe.spawn_random(20, 0);
    universe.spawn_random(20, -3);
    universe.spawn_random(20, 1);
    assert_eq!(universe.particles.len(), 60);
    for p in &universe.particles {
        assert_eq!(p.variety, ParticleType::White);
    }
}

#[test]
fn spawned_places_differ() {
    let mut universe: Universe<Real> = Universe::new();
    universe.spawn_random(10, 5);
    let first = universe.particles[0].position;
    assert!(universe.particles.iter().any(|p| pair(p.position) != pair(first)));
}

#[test]
fn grid_lists_every_particle_in_the_cell_where_it_lies() {
    let mut config: Configuration<Real> = Configuration::new();
    config.cell_size = Real(50.0);
    let mut universe: Universe<Real> = Universe::new();
    universe.add_particle(Real(10.0), Real(10.0), ParticleType::White);
    universe.add_particle(Real(260.0), Real(120.0), ParticleType::White);
    universe.add_particle(Real(49.9), Real(0.0), ParticleType::White);
    universe.add_particle(Real(50.0), Real(0.0), ParticleType::White);
    universe.add_particle(Real(299.0), Real(149.0), ParticleType::White);
    universe.update_grid(&config);
    assert_eq!(universe.grid.get(0, 0), Some(&vec![0, 2]));
    assert_eq!(universe.grid.get(5, 2), Some(&vec![1, 4]));
    assert_eq!(universe.grid.get(1, 0), Some(&vec![3]));
    assert!(universe.grid.get(2, 5).is_none());
    let mut total = 0;
    for cx in -2..44 {
        for cy in -2..26 {
            if let Some(bucket) = universe.grid.get(cx, cy) {
                total += bucket.len();
            }
        }
    }
    assert_eq!(total, 5);
}

#[test]
fn cells_left_of_and_below_the_origin_are_negative() {
    let mut config: Configuration<Real> = Configuration::new();
    config.cell_size = Real(50.0);
    let mut universe: Universe<Real> = Universe::new();
    universe.add_particle(Real(-60.0), Real(-120.0), ParticleType::White);
    universe.add_particle(Real(-10.0), Real(-10.0), ParticleType::White);
    universe.add_particle(Real(-0.5), Real(10.0), ParticleType::White);
    universe.add_particle(Real(-50.0), Real(0.0), ParticleType::White);
    universe.update_grid(&config);
    assert_eq!(universe.grid.get(-2, -3), Some(&vec![0]));
    assert_eq!(universe.grid.get(-1, -1), Some(&vec![1]));
    assert_eq!(universe.grid.get(-1, 0), Some(&vec![2, 3]));
    assert!(universe.grid.get(0, 0).is_none());
}

#[test]
fn grid_is_built_anew_each_time() {
    let config: Configuration<Real> = Configuration::new();
    let mut universe: Universe<Real> = Universe::new();
    universe.add_particle(Real(10.0), Real(10.0), ParticleType::White);
    universe.update_grid(&config);
    universe.update_grid(&config);
    assert_eq!(universe.grid.get(0, 0), Some(&vec![0]));
    universe.clear_universe();
    universe.update_grid(&config);
    assert!(universe.grid.get(0, 0).is_none());
}

#[test]
fn attraction_loses_to_repulsion_at_short_range() {
    let config: Configuration<Real> = Configuration::new();
    let mut universe: Universe<Real> = Universe::new();
    universe.assert_attraction(0, 0, Real(1000.0));
    universe.add_particle(Real(1000.0), Real(600.0), ParticleType::White);
    universe.add_particle(Real(1010.0), Real(600.0), ParticleType::White);
    universe.update_grid(&config);
    universe.update_universe(&config);
    let left = universe.particles[0];
    let right = universe.particles[1];
    assert!(left.velocity.x.0 < 0.0);
    assert!(right.velocity.x.0 > 0.0);
    assert!(left.position.x.0 < 1000.0);
    assert!(right.position.x.0 > 1010.0);
    assert!(right.position.x.0 - left.position.x.0 > 10.0);
    let push = ((-15.0f32 / (10.0 * 10.0 + 4.0)) * 10.0) / 10.0;
    assert_eq!(right.velocity.x, Real((0.0 + (0.0 - push) * 0.12) * 0.90));
}

#[test]
fn attraction_pulls_together_beyond_the_minimum_distance() {
    let config: Configuration<Real> = Configuration::new();
    let mut universe: Universe<Real> = Universe::new();
    universe.assert_attraction(0, 0, Real(1000.0));
    universe.add_particle(Real(1000.0), Real(600.0), ParticleType::White);
    universe.add_particle(Real(1045.0), Real(600.0), ParticleType::White);
    universe.update_grid(&config);
    universe.update_universe(&config);
    assert!(universe.particles[0].velocity.x.0 > 0.0);
    assert!(universe.particles[1].velocity.x.0 < 0.0);
}

#[test]
fn one_step_is_push_then_move_then_grid() {
    let config: Configuration<Real> = Configuration::new();
    let mut universe: Universe<Real> = Universe::new();
    uneven_table(&mut universe);
    universe.add_particle(Real(1000.0), Real(600.0), ParticleType::Red);
    universe.add_particle(Real(1030.0), Real(640.0), ParticleType::Blue);
    universe.particles[0].velocity = point(3.0, -1.0);
    let a = universe.particles[0];
    let b = universe.particles[1];
    let coefficient = universe.get_attraction(a.variety, b.variety);
    let force = pull(point(0.0, 0.0), a.position, b.position, coefficient, &config);
    let mut expected = a;
    expected.velocity.add_assign(force.mul(config.tick));
    step_particle(&mut expected, &config);
    universe.update_grid(&config);
    universe.update_universe(&config);
    assert_eq!(pair(universe.particles[0].velocity), pair(expected.velocity));
    assert_eq!(pair(universe.particles[0].position), pair(expected.position));
    assert_eq!(universe.particles[0].variety, ParticleType::Red);
    assert_eq!(universe.grid.get(13, 7), Some(&vec![0]));
    assert_eq!(universe.grid.get(13, 8), Some(&vec![1]));
}

#[test]
fn grid_forces_match_forces_over_all_pairs() {
    let mut config: Configuration<Real> = Configuration::new();
    config.cell_size = Real(100.0);
    let mut universe: Universe<Real> = Universe::new();
    uneven_table(&mut universe);
    for (x, y, kind) in scattered(20) {
        universe.add_particle(Real(x), Real(y), kind);
    }
    universe.particles[0].position = point(5.0, 5.0);
    universe.particles[1].position = point(2095.0, 1195.0);
    universe.particles[2].position = point(2080.0, 20.0);
    let before = universe.particles.clone();
    universe.update_grid(&config);
    universe.assert_forces(&config);
    let mut pulled = 0;
    for i in 0..before.len() {
        let mut acc = point(0.0, 0.0);
        for j in 0..before.len() {
            if i != j {
                let coefficient = universe.get_attraction(before[i].variety, before[j].variety);
                acc = pull(acc, before[i].position, before[j].position, coefficient, &config);
            }
        }
        let expected = acc.mul(config.tick);
        assert!(close(universe.particles[i].velocity.x.0, expected.x.0));
        assert!(close(universe.particles[i].velocity.y.0, expected.y.0));
        if expected.x.0 != 0.0 || expected.y.0 != 0.0 {
            pulled += 1;
        }
    }
    assert!(pulled >= 10);
    assert!(universe.particles[0].velocity.x.0 != 0.0);
    assert!(universe.particles[1].velocity.x.0 != 0.0);
}

#[test]
fn cells_smaller_than_the_reach_miss_neighbours() {
    let mut config: Configuration<Real> = Configuration::new();
    config.cell_size = Real(50.0);
    let mut universe: Universe<Real> = Universe::new();
    universe.assert_attraction(0, 0, Real(1000.0));
    universe.add_particle(Real(40.0), Real(600.0), ParticleType::White);
    universe.add_particle(Real(105.0), Real(600.0), ParticleType::White);
    universe.update_grid(&config);
    universe.assert_forces(&config);
    assert_eq!(pair(universe.particles[0].velocity), (0.0, 0.0));
    let all_pairs = pull(
        point(0.0, 0.0),
        universe.particles[0].position,
        universe.particles[1].position,
        Real(1000.0),
        &config,
    );
    assert!(all_pairs.x.0 > 0.0);
    let mut wide: Configuration<Real> = Configuration::new();
    wide.cell_size = Real(70.0);
    universe.update_grid(&wide);
    universe.assert_forces(&wide);
    assert_eq!(universe.particles[0].velocity.x, Real(all_pairs.x.0 * 0.12));
}

#[test]
fn friction_below_one_slows_a_free_particle_down() {
    let config: Configuration<Real> = Configuration::new();
    let mut universe: Universe<Real> = Universe::new();
    universe.add_particle(Real(1000.0), Real(600.0), ParticleType::White);
    universe.add_particle(Real(300.0), Real(200.0), ParticleType::Purple);
    universe.particles[0].velocity = point(10.0, -4.0);
    let mut last = speed(&universe.particles[0]);
    for _ in 0..50 {
        universe.update_universe(&config);
        let now = speed(&universe.particles[0]);
        assert!(now < last);
        assert!(now > 0.0);
        last = now;
    }
    assert!(last < 0.1);
    assert_eq!(pair(universe.particles[1].velocity), (0.0, 0.0));
}

#[test]
fn one_step_of_friction_is_one_multiplication() {
    let config: Configuration<Real> = Configuration::new();
    let mut universe: Universe<Real> = Universe::new();
    universe.add_particle(Real(1000.0), Real(600.0), ParticleType::White);
    universe.particles[0].velocity = point(10.0, -4.0);
    universe.update_universe(&config);
    assert_eq!(pair(universe.particles[0].velocity), (10.0 * 0.90, -4.0 * 0.90));
    assert_eq!(pair(universe.particles[0].position), (1000.0 + 10.0 * 0.12, 600.0 + -4.0 * 0.12));
}

#[test]
fn friction_of_one_keeps_the_speed() {
    let mut config: Configuration<Real> = Configuration::new();
    config.friction = Real(1.0);
    let mut universe: Universe<Real> = Universe::new();
    universe.add_particle(Real(1000.0), Real(600.0), ParticleType::White);
    universe.particles[0].velocity = point(10.0, -4.0);
    for _ in 0..50 {
        universe.update_universe(&config);
        assert_eq!(pair(universe.particles[0].velocity), (10.0, -4.0));
    }
}

#[test]
fn a_particle_does_not_pull_itself() {
    let config: Configuration<Real> = Configuration::new();
    let mut universe: Universe<Real> = Universe::new();
    universe.assert_attraction(0, 0, Real(1000.0));
    universe.add_particle(Real(1000.0), Real(600.0), ParticleType::White);
    universe.update_grid(&config);
    universe.update_universe(&config);
    assert_eq!(pair(universe.particles[0].velocity), (0.0, 0.0));
    assert_eq!(pair(universe.particles[0].position), (1000.0, 600.0));
}

#[test]
fn a_step_without_particles_does_nothing() {
    let config: Configuration<Real> = Configuration::new();
    let mut universe: Universe<Real> = Universe::new();
    universe.assert_attraction(1, 2, Real(3.0));
    universe.update_universe(&config);
    assert_eq!(universe.particles.len(), 0);
    assert_eq!(universe.attraction[1][2], Real(3.0));
}

#[test]
fn a_step_after_clear_and_spawn_runs() {
    let config: Configuration<Real> = Configuration::new();
    let mut universe: Universe<Real> = Universe::new();
    universe.spawn_random(200, 12);
    universe.update_universe(&config);
    universe.clear_universe();
    universe.spawn_random(50, 12);
    universe.update_universe(&config);
    assert_eq!(universe.particles.len(), 50);
}
