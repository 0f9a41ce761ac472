use crate::game::direction::{dir_of_index, Direction};
use crate::game::position::Position;
use picorand::{WyRand, RNG};
use vstd::prelude::*;

verus! {

/// Seeded pseudo-random source; the same seed gives the same draws.
///
/// The generator's state is picorand's and stays hidden: Verus refuses to
/// declare picorand's `RNG`, whose parameter is bound by picorand's own trait.
#[verifier::external_body]
pub struct RandomGenerator {
    rg: RNG<WyRand, u8>,
}

impl RandomGenerator {
    /// Relies on picorand::RNG::new: builds a WyRand generator from `seed`.
    #[verifier::external_body]
    pub fn new(seed: u64) -> Self {
        Self { rg: RNG::<WyRand, u8>::new(seed) }
    }

    /// Relies on picorand::RNG::generate_range: WyRand's `rand_range` takes the
    /// high word of a 64x64-bit product with `max`, which is below `max`, and
    /// clamps it into `[min, max]`; a value below 256 passes the conversion to
    /// `u8` unchanged.
    #[verifier::external_body]
    fn generate_range(&mut self, min: usize, max: usize) -> (r: u8)
        requires
            min < max <= 256,
        ensures
            min <= r < max,
    {
        self.rg.generate_range(min, max)
    }
}

/// A value drawn at random, each possible value alike.
pub trait Random: Sized {
    /// What every drawn value satisfies.
    spec fn drawn_ok(&self) -> bool;

    fn random(rand_gen: &mut RandomGenerator) -> (r: Self)
        ensures
            r.drawn_ok(),
    ;
}

impl<const X_LIM: usize, const Y_LIM: usize> Random for Position<X_LIM, Y_LIM> {
    /// On a grid whose size fits the coordinates, the cell lies on it.
    open spec fn drawn_ok(&self) -> bool {
        Self::limits_ok() ==> self.wf()
    }

    /// Each coordinate is drawn on its own, uniformly over `0..limit`.
    fn random(rand_gen: &mut RandomGenerator) -> (r: Self) {
        if 0 < X_LIM && X_LIM <= 256 && 0 < Y_LIM && Y_LIM <= 256 {
            let x = rand_gen.generate_range(0, X_LIM);
            let y = rand_gen.generate_range(0, Y_LIM);
            Self::new(x, y)
        } else {
            Self::new(0, 0)
        }
    }
}

impl Random for Direction {
    /// The heading is the one numbered by some draw below four.
    open spec fn drawn_ok(&self) -> bool {
        exists|i: int| 0 <= i < 4 && *self == dir_of_index(i)
    }

    /// One of the four headings, each with the same chance: a draw from
    /// `0..4` numbers the heading.
    fn random(rand_gen: &mut RandomGenerator) -> (r: Self) {
        let i = rand_gen.generate_range(0, 4);
        let r = Self::from_index(i);
        assert(0 <= i as int && (i as int) < 4 && r == dir_of_index(i as int));
        r
    }
}

} // verus!
