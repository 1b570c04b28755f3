//! The control of a light path: how long it is followed and what settles its
//! radiance.
//!
//! A path is followed ray by ray. Every ray either misses the scene, ends on
//! a surface that sends nothing on, or is scattered into a new ray. The
//! bounce budget is the only bound on the length of a path.

use vstd::prelude::*;

verus! {

/// What became of one ray of a path.
#[derive(Debug, Clone, Copy, PartialEq, Eq, Structural)]
pub enum Event {
    /// The ray hit nothing.
    Missed,
    /// The ray hit a surface that sent no ray on: it emitted or absorbed.
    Ended,
    /// The ray hit a surface that scattered it into a new ray.
    Scattered,
}

/// What the path carries back, before the attenuations of its bounces are
/// multiplied in.
#[derive(Debug, Clone, Copy, PartialEq, Eq, Structural)]
pub enum Radiance {
    /// Nothing: the bounce budget ran out.
    Black,
    /// The radiance of the background.
    Background,
    /// The colour that the last surface returned.
    Surface,
}

/// What to do next on a path.
#[derive(Debug, Clone, Copy, PartialEq, Eq, Structural)]
pub enum PathStep {
    /// Trace one more ray; so many rays, this one included, may still be
    /// traced.
    Trace(u32),
    /// The path is over.
    Settle(Radiance),
}

/// The step on which a path with a budget of `budget` rays stands before it
/// traces the next one.
pub open spec fn step_with(budget: u32) -> PathStep {
    if budget == 0 {
        PathStep::Settle(Radiance::Black)
    } else {
        PathStep::Trace(budget)
    }
}

/// The step after a ray, traced with `remaining` rays left, met with `event`.
pub open spec fn step_after(remaining: u32, event: Event) -> PathStep {
    if remaining == 0 {
        PathStep::Settle(Radiance::Black)
    } else {
        match event {
            Event::Missed => PathStep::Settle(Radiance::Background),
            Event::Ended => PathStep::Settle(Radiance::Surface),
            Event::Scattered => step_with((remaining - 1) as u32),
        }
    }
}

/// Where a path that stands at `step` gets when its rays meet with `events`,
/// in this order, for as long as there are events and rays to trace.
pub open spec fn follow(step: PathStep, events: Seq<Event>) -> PathStep
    decreases events.len(),
{
    match step {
        PathStep::Settle(_) => step,
        PathStep::Trace(remaining) => if events.len() == 0 {
            step
        } else {
            follow(step_after(remaining, events.first()), events.drop_first())
        },
    }
}

/// What a path of at most `max_depth` rays carries back, told the way the
/// path is cast: with no budget nothing, else what the first ray meets
/// decides, and a scattered ray hands over to the rest of the path with one
/// ray less.
pub open spec fn cast(max_depth: u32, events: Seq<Event>) -> Radiance
    recommends
        events.len() >= max_depth,
    decreases max_depth,
{
    if max_depth == 0 {
        Radiance::Black
    } else {
        match events.first() {
            Event::Missed => Radiance::Background,
            Event::Ended => Radiance::Surface,
            Event::Scattered => cast((max_depth - 1) as u32, events.drop_first()),
        }
    }
}

/// The first step of a path that may trace at most `max_depth` rays.
pub fn begin_path(max_depth: u32) -> (step: PathStep)
    ensures
        step == step_with(max_depth),
{
    if max_depth == 0 {
        PathStep::Settle(Radiance::Black)
    } else {
        PathStep::Trace(max_depth)
    }
}

/// Moves a path on, given what the ray that it just traced met with.
pub fn advance_path(remaining: u32, event: Event) -> (step: PathStep)
    ensures
        step == step_after(remaining, event),
{
    if remaining == 0 {
        return PathStep::Settle(Radiance::Black);
    }
    match event {
        Event::Missed => PathStep::Settle(Radiance::Background),
        Event::Ended => PathStep::Settle(Radiance::Surface),
        Event::Scattered => begin_path(remaining - 1),
    }
}

/// The bounce budget bounds every path: followed step by step, a path of at
/// most `max_depth` rays is over after `max_depth` events at the latest, and
/// it carries back what casting it says.
pub proof fn lemma_path_settles(max_depth: u32, events: Seq<Event>)
    requires
        events.len() >= max_depth,
    ensures
        follow(step_with(max_depth), events) == PathStep::Settle(cast(max_depth, events)),
    decreases max_depth,
{
    if max_depth > 0 {
        let rest = events.drop_first();
        match events.first() {
            Event::Scattered => {
                lemma_path_settles((max_depth - 1) as u32, rest);
                if max_depth - 1 == 0 {
                    assert(follow(step_with(0), rest) == PathStep::Settle(Radiance::Black));
                }
            },
            _ => {
                assert(follow(step_after(max_depth, events.first()), rest) == step_after(
                    max_depth,
                    events.first(),
                ));
            },
        }
    }
}

} // verus!
