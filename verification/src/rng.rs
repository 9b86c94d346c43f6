//! The engine's only source of chance: uniform room draws, taken from the
//! `rand` crate behind one trusted wrapper.

use vstd::prelude::*;

verus! {

/// Relies on `rand::random_range`: it returns a uniform sample from the
/// given range, and panics only on an empty range, which `1..=n` with
/// `n >= 1` never is, or if the operating system's entropy source fails
/// when the thread's generator is first seeded (input-independent, of a
/// kind with running out of memory). Nothing beyond the bounds can be
/// promised of a random draw.
#[verifier::external_body]
pub(crate) fn rand_upto(n: u8) -> (r: u8)
    requires
        1 <= n,
    ensures
        1 <= r <= n,
{
    rand::random_range(1..=n)
}

/// A uniform room of the cave.
pub fn rand20() -> (r: u8)
    ensures
        1 <= r <= 20,
{
    rand_upto(20)
}

/// A uniform tunnel choice.
pub fn rand3() -> (r: u8)
    ensures
        1 <= r <= 3,
{
    rand_upto(3)
}

/// A uniform draw out of four, for the wumpus's move.
pub fn rand4() -> (r: u8)
    ensures
        1 <= r <= 4,
{
    rand_upto(4)
}

} // verus!
