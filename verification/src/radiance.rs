//! Decisions of the radiance-accumulation loop.
//!
//! The shading loop walks a ray through the scene for at most a fixed number
//! of bounces, carrying a running attenuation.  Each iteration it learns one
//! of three things about the current ray — it missed everything, it was
//! absorbed at a hit, or it scattered into a new direction — and must decide
//! whether to emit a colour and stop or to keep bouncing.  That decision is
//! exact and is fixed here; the caller performs the intersection and colour
//! arithmetic in floating point.

use vstd::prelude::*;

verus! {

/// What one iteration of the shading loop learned about the current ray.
#[derive(Debug, Clone, Copy, PartialEq, Eq, Structural)]
pub enum BounceEvent {
    /// The ray hit no primitive.
    Miss,
    /// The closest hit absorbed the ray.
    Absorbed,
    /// The closest hit scattered the ray into a new direction.
    Scattered,
}

/// What the shading loop does with that knowledge.
#[derive(Debug, Clone, Copy, PartialEq, Eq, Structural)]
pub enum ShadeAction {
    /// Emit the attenuated sky gradient and stop.
    EmitSky,
    /// Emit the attenuated solid colour of the absorbing surface and stop.
    EmitSolid,
    /// Multiply the attenuation by the bounce's and follow the new ray.
    Bounce,
    /// The bounce budget is exhausted: emit black and stop.
    EmitBlack,
}

/// The loop's transition: with no bounces left the energy is considered
/// lost and the result is black, whatever the ray met; otherwise a miss
/// emits the sky, an absorption emits the surface's solid colour, and a
/// scatter continues the walk.
pub open spec fn shade_decision(remaining_depth: u32, event: BounceEvent) -> ShadeAction {
    if remaining_depth == 0 {
        ShadeAction::EmitBlack
    } else {
        match event {
            BounceEvent::Miss => ShadeAction::EmitSky,
            BounceEvent::Absorbed => ShadeAction::EmitSolid,
            BounceEvent::Scattered => ShadeAction::Bounce,
        }
    }
}

/// Decide one step of the shading loop; `remaining_depth` counts the
/// bounces still allowed, including the one being decided.
pub fn shade_step(remaining_depth: u32, event: BounceEvent) -> (r: ShadeAction)
    ensures
        r == shade_decision(remaining_depth, event),
        remaining_depth == 0 ==> r == ShadeAction::EmitBlack,
        r == ShadeAction::Bounce ==> remaining_depth > 0,
{
    if remaining_depth == 0 {
        ShadeAction::EmitBlack
    } else {
        match event {
            BounceEvent::Miss => ShadeAction::EmitSky,
            BounceEvent::Absorbed => ShadeAction::EmitSolid,
            BounceEvent::Scattered => ShadeAction::Bounce,
        }
    }
}

/// With the bounce budget exhausted no event can make the loop continue:
/// whatever the ray met, the decision is the terminal black emission.  A
/// loop that decrements the budget after every `Bounce` therefore emits
/// after at most the starting depth many bounces.
pub proof fn lemma_exhausted_budget_emits_black(event: BounceEvent)
    ensures
        shade_decision(0, event) != ShadeAction::Bounce,
        shade_decision(0, event) == ShadeAction::EmitBlack,
{
}

} // verus!
