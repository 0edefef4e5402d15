//! Timing of cosmetic animations.  The engine keeps the clock arithmetic;
//! the easing curves, which are floating-point, are left to the caller.

use vstd::prelude::*;

pub mod scroll;

pub use crate::animations::scroll::ScrollAnimation;
pub use crate::animations::scroll::ScrollStep;

verus! {

/// Shape of the curve along which an animation moves.
#[derive(Clone, Copy, Debug, PartialEq, Eq, Structural)]
pub enum Easing {
    Linear,
    EaseOut,
    EaseInOut,
}

/// How long an animation runs, in milliseconds, and along which curve.
#[derive(Clone, Copy, Debug, PartialEq, Eq, Structural)]
pub struct AnimationConfig {
    pub duration_ms: u64,
    pub easing: Easing,
}

impl Default for AnimationConfig {
    fn default() -> (config: AnimationConfig)
        ensures
            config == (AnimationConfig { duration_ms: 150, easing: Easing::EaseOut }),
    {
        AnimationConfig { duration_ms: 150, easing: Easing::EaseOut }
    }
}

} // verus!
