//! A scroll offset that moves from one value to another over a span of time.
//! Times are milliseconds of a clock that the caller reads.

use vstd::prelude::*;
use crate::animations::AnimationConfig;
use crate::animations::Easing;

verus! {

#[derive(Clone, Copy, Debug, PartialEq, Eq, Structural)]
pub struct ScrollAnimation {
    pub start_value: i32,
    pub end_value: i32,
    pub start_time_ms: u64,
    pub duration_ms: u64,
    pub easing: Easing,
    pub active: bool,
}

/// Where an animation stands at one moment.
#[derive(Clone, Copy, Debug, PartialEq, Eq, Structural)]
pub enum ScrollStep {
    /// The animation has run its time: the offset is its end value.
    Arrived(i32),
    /// The animation is under way: the offset lies on the curve `easing`
    /// between the two values, `elapsed_ms` of `duration_ms` along.
    Between { start_value: i32, end_value: i32, elapsed_ms: u64, duration_ms: u64, easing: Easing },
}

/// Time from `start` to `now`; none where the clock went backwards.
pub open spec fn elapsed(start: u64, now: u64) -> u64 {
    if now >= start {
        (now - start) as u64
    } else {
        0
    }
}

impl ScrollAnimation {
    /// An animation at rest at offset 0.
    pub open spec fn at_rest() -> ScrollAnimation {
        ScrollAnimation {
            start_value: 0,
            end_value: 0,
            start_time_ms: 0,
            duration_ms: 150,
            easing: Easing::EaseOut,
            active: false,
        }
    }

    pub fn new() -> (animation: ScrollAnimation)
        ensures
            animation == Self::at_rest(),
    {
        ScrollAnimation {
            start_value: 0,
            end_value: 0,
            start_time_ms: 0,
            duration_ms: 150,
            easing: Easing::EaseOut,
            active: false,
        }
    }

    /// The animation after a start from `from` to `to` at the time `now`:
    /// at rest where the two are the same, under way otherwise.
    pub open spec fn started(
        self,
        from: i32,
        to: i32,
        config: AnimationConfig,
        now_ms: u64,
    ) -> ScrollAnimation {
        if from == to {
            ScrollAnimation { active: false, ..self }
        } else {
            ScrollAnimation {
                start_value: from,
                end_value: to,
                start_time_ms: now_ms,
                duration_ms: config.duration_ms,
                easing: config.easing,
                active: true,
            }
        }
    }

    pub fn start(&mut self, from: i32, to: i32, config: &AnimationConfig, now_ms: u64)
        ensures
            *final(self) == old(self).started(from, to, *config, now_ms),
    {
        if from == to {
            self.active = false;
            return ;
        }
        self.start_value = from;
        self.end_value = to;
        self.start_time_ms = now_ms;
        self.duration_ms = config.duration_ms;
        self.easing = config.easing;
        self.active = true;
    }

    /// Where the animation stands at the time `now`; `None` at rest.
    pub open spec fn step_at(self, now_ms: u64) -> Option<ScrollStep> {
        if !self.active {
            None
        } else if elapsed(self.start_time_ms, now_ms) >= self.duration_ms {
            Some(ScrollStep::Arrived(self.end_value))
        } else {
            Some(
                ScrollStep::Between {
                    start_value: self.start_value,
                    end_value: self.end_value,
                    elapsed_ms: elapsed(self.start_time_ms, now_ms),
                    duration_ms: self.duration_ms,
                    easing: self.easing,
                },
            )
        }
    }

    /// Tells where the animation stands at the time `now`; an animation
    /// that has run its time comes to rest.
    pub fn update(&mut self, now_ms: u64) -> (step: Option<ScrollStep>)
        ensures
            step == old(self).step_at(now_ms),
            *final(self) == (ScrollAnimation {
                active: old(self).active && elapsed(old(self).start_time_ms, now_ms)
                    < old(self).duration_ms,
                ..*old(self)
            }),
    {
        if !self.active {
            return None;
        }
        let elapsed_ms: u64 = if now_ms >= self.start_time_ms {
            now_ms - self.start_time_ms
        } else {
            0
        };
        if elapsed_ms >= self.duration_ms {
            self.active = false;
            return Some(ScrollStep::Arrived(self.end_value));
        }
        Some(
            ScrollStep::Between {
                start_value: self.start_value,
                end_value: self.end_value,
                elapsed_ms,
                duration_ms: self.duration_ms,
                easing: self.easing,
            },
        )
    }

    pub fn is_active(&self) -> (active: bool)
        ensures
            active == self.active,
    {
        self.active
    }

    pub fn target(&self) -> (value: i32)
        ensures
            value == self.end_value,
    {
        self.end_value
    }

    pub fn cancel(&mut self)
        ensures
            *final(self) == (ScrollAnimation { active: false, ..*old(self) }),
    {
        self.active = false;
    }
}

impl Default for ScrollAnimation {
    fn default() -> (animation: ScrollAnimation)
        ensures
            animation == Self::at_rest(),
    {
        Self::new()
    }
}

} // verus!
