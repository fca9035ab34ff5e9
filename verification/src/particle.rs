//! Particle kinds, their indices and colours, and the particle itself.

use crate::vector::Vector;
use macroquad::color::Color;
use vstd::prelude::*;

verus! {

/// The colour type of the drawing backend, carried through as an opaque value.
#[verifier::external_type_specification]
#[verifier::external_body]
pub struct ExColor(Color);

/// The colour that the drawing backend builds from a `0xRRGGBB` number.
pub uninterp spec fn hex_color(hex: u32) -> Color;

/// Calls `macroquad::color::Color::from_hex`, which takes the red, green and
/// blue bytes out of the number and returns the colour made of them, fully
/// opaque. The contract only names that colour: it is a function of the number.
#[verifier::external_body]
fn color_from_hex(hex: u32) -> (c: Color)
    ensures
        c == hex_color(hex),
{
    Color::from_hex(hex)
}

/// The closed set of particle kinds.
#[derive(Clone, Copy, Debug, PartialEq, Eq, Structural)]
pub enum ParticleType {
    White,
    Purple,
    Red,
    Blue,
    Green,
    Extra1,
    Extra2,
    Extra3,
    Extra4,
    Extra5,
    Extra6,
    Extra7,
}

/// A point particle: where it is, how fast it moves, and of which kind it is.
#[derive(Clone, Copy, Debug)]
pub struct Particle<T> {
    pub velocity: Vector<T>,
    pub position: Vector<T>,
    pub variety: ParticleType,
}

/// The number of particle kinds.
pub open spec fn type_count() -> nat {
    12
}

impl ParticleType {
    /// The dense index of this kind: its row and column in the table of
    /// attraction coefficients.
    pub open spec fn index(self) -> nat {
        match self {
            ParticleType::White => 0,
            ParticleType::Purple => 1,
            ParticleType::Red => 2,
            ParticleType::Blue => 3,
            ParticleType::Green => 4,
            ParticleType::Extra1 => 5,
            ParticleType::Extra2 => 6,
            ParticleType::Extra3 => 7,
            ParticleType::Extra4 => 8,
            ParticleType::Extra5 => 9,
            ParticleType::Extra6 => 10,
            ParticleType::Extra7 => 11,
        }
    }

    /// The kind with the given index; `White` for a number that is no index.
    pub open spec fn of_index(idx: int) -> ParticleType {
        if idx == 1 {
            ParticleType::Purple
        } else if idx == 2 {
            ParticleType::Red
        } else if idx == 3 {
            ParticleType::Blue
        } else if idx == 4 {
            ParticleType::Green
        } else if idx == 5 {
            ParticleType::Extra1
        } else if idx == 6 {
            ParticleType::Extra2
        } else if idx == 7 {
            ParticleType::Extra3
        } else if idx == 8 {
            ParticleType::Extra4
        } else if idx == 9 {
            ParticleType::Extra5
        } else if idx == 10 {
            ParticleType::Extra6
        } else if idx == 11 {
            ParticleType::Extra7
        } else {
            ParticleType::White
        }
    }

    /// The display colour of this kind, as a `0xRRGGBB` number.
    pub open spec fn hex(self) -> u32 {
        match self {
            ParticleType::White => 0xf8a5b3,
            ParticleType::Purple => 0xffd391,
            ParticleType::Red => 0xffe599,
            ParticleType::Blue => 0xb4e197,
            ParticleType::Green => 0xa1d6e2,
            ParticleType::Extra1 => 0xbfa8d9,
            ParticleType::Extra2 => 0xf4a1a6,
            ParticleType::Extra3 => 0xca91d4,
            ParticleType::Extra4 => 0xffb3b3,
            ParticleType::Extra5 => 0xffd1e8,
            ParticleType::Extra6 => 0xc5c5ff,
            ParticleType::Extra7 => 0xa5f3e1,
        }
    }

    /// The number of particle kinds.
    pub fn get_types() -> (n: usize)
        ensures
            n == type_count(),
    {
        12
    }

    /// The dense index of this kind.
    pub fn get_index(&self) -> (idx: usize)
        ensures
            idx == self.index(),
            idx < type_count(),
    {
        match self {
            ParticleType::White => 0,
            ParticleType::Purple => 1,
            ParticleType::Red => 2,
            ParticleType::Blue => 3,
            ParticleType::Green => 4,
            ParticleType::Extra1 => 5,
            ParticleType::Extra2 => 6,
            ParticleType::Extra3 => 7,
            ParticleType::Extra4 => 8,
            ParticleType::Extra5 => 9,
            ParticleType::Extra6 => 10,
            ParticleType::Extra7 => 11,
        }
    }

    /// The kind with the given index; `White` for a number that is no index.
    pub fn get_particle_from_index(idx: i32) -> (kind: Self)
        ensures
            kind == Self::of_index(idx as int),
            0 <= idx < type_count() ==> kind.index() == idx,
            !(0 <= idx < type_count()) ==> kind == ParticleType::White,
    {
        match idx {
            0 => ParticleType::White,
            1 => ParticleType::Purple,
            2 => ParticleType::Red,
            3 => ParticleType::Blue,
            4 => ParticleType::Green,
            5 => ParticleType::Extra1,
            6 => ParticleType::Extra2,
            7 => ParticleType::Extra3,
            8 => ParticleType::Extra4,
            9 => ParticleType::Extra5,
            10 => ParticleType::Extra6,
            11 => ParticleType::Extra7,
            _ => ParticleType::White,
        }
    }

    /// The `0xRRGGBB` number of this kind's display colour.
    pub fn get_hex(&self) -> (hex: u32)
        ensures
            hex == self.hex(),
    {
        match self {
            ParticleType::White => 0xf8a5b3,
            ParticleType::Purple => 0xffd391,
            ParticleType::Red => 0xffe599,
            ParticleType::Blue => 0xb4e197,
            ParticleType::Green => 0xa1d6e2,
            ParticleType::Extra1 => 0xbfa8d9,
            ParticleType::Extra2 => 0xf4a1a6,
            ParticleType::Extra3 => 0xca91d4,
            ParticleType::Extra4 => 0xffb3b3,
            ParticleType::Extra5 => 0xffd1e8,
            ParticleType::Extra6 => 0xc5c5ff,
            ParticleType::Extra7 => 0xa5f3e1,
        }
    }

    /// The display colour of the kind whose index is `idx` taken as a 32-bit
    /// signed number, which keeps the low 32 bits of `idx`; that of `White`
    /// where this is no index. For every `idx` up to the largest such number
    /// that is the colour of the kind with the index `idx` itself.
    pub fn get_color_from_index(idx: usize) -> (c: Color)
        ensures
            c == hex_color(Self::of_index((idx as i32) as int).hex()),
            idx <= i32::MAX ==> c == hex_color(Self::of_index(idx as int).hex()),
    {
        let particle_type: ParticleType = Self::get_particle_from_index(
            #[verifier::truncate]
            (idx as i32),
        );
        color_from_hex(particle_type.get_hex())
    }

    /// The kinds and their indices correspond one to one: every kind is the
    /// kind of its own index, every index below the number of kinds is the
    /// index of its kind, and two kinds with one index are the same kind.
    pub proof fn lemma_index_bijection(a: ParticleType, b: ParticleType, idx: int)
        ensures
            a.index() < type_count(),
            Self::of_index(a.index() as int) == a,
            0 <= idx < type_count() ==> Self::of_index(idx).index() == idx,
            a.index() == b.index() ==> a == b,
    {
    }
}

impl<T> Particle<T> {
    /// The display colour of this particle, which is that of its kind.
    pub fn get_color(&self) -> (c: Color)
        ensures
            c == hex_color(self.variety.hex()),
    {
        color_from_hex(self.variety.get_hex())
    }
}

} // verus!
