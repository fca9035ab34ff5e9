//! The size of the torus and the tunable constants of a step.

use crate::scalar::Scalar;
use vstd::prelude::*;

verus! {

/// The width of the torus, in whole units.
pub const WIDTH: i32 = 2100;

/// The height of the torus, in whole units.
pub const HEIGHT: i32 = 1200;

/// The width of the torus as a number of the engine.
pub open spec fn width_spec<T: Scalar>() -> T {
    T::ratio_spec(WIDTH, 1)
}

/// The height of the torus as a number of the engine.
pub open spec fn height_spec<T: Scalar>() -> T {
    T::ratio_spec(HEIGHT, 1)
}

/// The tunable constants of one simulation step.
pub struct Configuration<T> {
    /// The length of one tick.
    pub tick: T,
    /// The distance below which two particles only repel each other.
    pub distance_min: T,
    /// The distance from which two particles no longer interact.
    pub distance_max: T,
    /// The factor by which a velocity shrinks at every tick.
    pub friction: T,
    /// The strength of the short-range repulsion.
    pub standard_repulsion: T,
    /// What is added to the squared distance in the short-range repulsion, so
    /// that it stays bounded as the distance goes to zero.
    pub buffer_distance: T,
    /// The side of a cell of the spatial grid.
    pub cell_size: T,
    /// The radius with which a particle is drawn.
    pub draw_size: T,
}

/// Whether the driving loop advances the simulation.
#[derive(Clone, Copy, Debug, PartialEq, Eq, Structural)]
pub enum State {
    Pause,
    Simulation,
}

impl<T: Scalar> Configuration<T> {
    /// The configuration that `new` returns.
    pub open spec fn default_spec() -> Self {
        Configuration {
            tick: T::ratio_spec(12, 100),
            distance_min: T::ratio_spec(40, 1),
            distance_max: T::ratio_spec(70, 1),
            friction: T::ratio_spec(90, 100),
            standard_repulsion: T::ratio_spec(15, 1),
            buffer_distance: T::ratio_spec(4, 1),
            cell_size: T::ratio_spec(75, 1),
            draw_size: T::ratio_spec(12, 10),
        }
    }

    /// The number of grid columns that span the width of the torus: the width
    /// over the cell size, without its fractional part.
    pub open spec fn columns(self) -> int {
        width_spec::<T>().div_spec(self.cell_size).truncate_spec() as int
    }

    /// The number of grid rows that span the height of the torus: the height
    /// over the cell size, without its fractional part.
    pub open spec fn rows(self) -> int {
        height_spec::<T>().div_spec(self.cell_size).truncate_spec() as int
    }

    /// The default configuration: a tick of 0.12, interaction between the
    /// distances 40 and 70, a friction of 0.9, a repulsion of 15 with a buffer
    /// of 4, cells of side 75 and a drawing radius of 1.2. The cells are larger
    /// than the reach and fit the torus a whole number of times, 28 across and
    /// 16 down, so the grid misses no particle within reach.
    pub fn new() -> (config: Self)
        ensures
            config == Self::default_spec(),
    {
        Configuration {
            tick: T::from_ratio(12, 100),
            distance_min: T::from_ratio(40, 1),
            distance_max: T::from_ratio(70, 1),
            friction: T::from_ratio(90, 100),
            standard_repulsion: T::from_ratio(15, 1),
            buffer_distance: T::from_ratio(4, 1),
            cell_size: T::from_ratio(75, 1),
            draw_size: T::from_ratio(12, 10),
        }
    }

    /// The number of grid columns that span the width of the torus.
    pub fn grid_columns(&self) -> (n: isize)
        ensures
            n == self.columns(),
    {
        T::from_ratio(WIDTH, 1).div(self.cell_size).truncate()
    }

    /// The number of grid rows that span the height of the torus.
    pub fn grid_rows(&self) -> (n: isize)
        ensures
            n == self.rows(),
    {
        T::from_ratio(HEIGHT, 1).div(self.cell_size).truncate()
    }
}

} // verus!
