//! A brute-force 2D N-body gravity engine: a set of point masses
//! ("planets") attract each other pairwise, move under the resulting
//! impulses, and merge on collision, feeding a screen-shake impulse
//! back to the caller.
//!
//! All simulation state and arithmetic live in 128-bit integers with
//! saturating semantics: a result that would leave the `i128` range
//! clamps to the nearest representable value instead of wrapping or
//! failing, much as an overflowing floating-point computation pins to
//! infinity. Every operation the engine performs is therefore total
//! and exactly characterized by the spec functions of [`num`].

pub mod num;
pub mod vector;
pub mod planet;
pub mod space;
pub mod laws;
