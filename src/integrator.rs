//! The decisions of the recursive colour integrator, written as an explicit
//! loop over a bounce budget.
//!
//! A caller traces one camera ray as follows: it starts with `begin(max_depth)`,
//! and while the step is `Query`, asks the scene for the nearest hit of the
//! current ray in `(0.001, +inf)` and asks the hit material to scatter, reports
//! what happened with `advance`, and on a scatter multiplies its running
//! attenuation by the material's and goes on with the scattered ray. A `Black`
//! step ends the path with black, a `Sky` step with the running attenuation
//! times the sky gradient of the current ray.
use vstd::prelude::*;

verus! {

/// What the scene and the hit surface's material did with the current ray.
#[derive(Clone, Copy, Debug, PartialEq, Eq, Structural)]
pub enum Surface {
    /// The ray hit nothing: it sees the sky.
    Miss,
    /// The ray hit a surface whose material absorbed it.
    Absorbed,
    /// The ray hit a surface whose material scattered it into a new ray.
    Scattered,
}

/// What the integrator does next.
#[derive(Clone, Copy, Debug, PartialEq, Eq, Structural)]
pub enum Step {
    /// The path ends and contributes black.
    Black,
    /// The path ends in the sky gradient of the current ray.
    Sky,
    /// The scene must be queried for the current ray, with `depth` bounces left.
    Query { depth: i32 },
}

/// The step taken with `depth` bounces left, before the scene is asked anything.
pub open spec fn budget_step(depth: i32) -> Step {
    if depth <= 0 {
        Step::Black
    } else {
        Step::Query { depth }
    }
}

/// The step taken after the scene answered a query made with `depth` bounces
/// left.
pub open spec fn surface_step(depth: i32, surface: Surface) -> Step
    recommends
        depth > 0,
{
    match surface {
        Surface::Miss => Step::Sky,
        Surface::Absorbed => Step::Black,
        Surface::Scattered => budget_step((depth - 1) as i32),
    }
}

/// The end of a path traced with `depth` bounces left after `k` scatters, where
/// the query made after `n` scatters is answered by `surfaces(n)`: the final
/// step (`Black` or `Sky`) and the total number of scatters, which is the
/// number of attenuation factors the path's colour is multiplied by.
pub open spec fn path_end(depth: i32, surfaces: spec_fn(nat) -> Surface, k: nat) -> (Step, nat)
    decreases depth,
{
    if depth <= 0 {
        (Step::Black, k)
    } else {
        match surfaces(k) {
            Surface::Miss => (Step::Sky, k),
            Surface::Absorbed => (Step::Black, k),
            Surface::Scattered => path_end((depth - 1) as i32, surfaces, k + 1),
        }
    }
}

/// The first step of a path traced with a budget of `depth` bounces: black when
/// the budget is exhausted, else a query of the scene.
pub fn begin(depth: i32) -> (r: Step)
    ensures
        r == budget_step(depth),
        depth <= 0 ==> r == Step::Black,
        depth > 0 ==> r == (Step::Query { depth }),
{
    if depth <= 0 {
        Step::Black
    } else {
        Step::Query { depth }
    }
}

/// The step after the scene answered a query made with `depth` bounces left: a
/// miss ends in the sky, an absorption in black, and a scatter goes on with one
/// bounce fewer.
pub fn advance(depth: i32, surface: Surface) -> (r: Step)
    requires
        depth > 0,
    ensures
        r == surface_step(depth, surface),
{
    match surface {
        Surface::Miss => Step::Sky,
        Surface::Absorbed => Step::Black,
        Surface::Scattered => begin(depth - 1),
    }
}


/// With no bounce budget left a path is black, whatever the scene holds: it
/// ends before any query, with no attenuation factor.
pub proof fn lemma_exhausted_budget_is_black(depth: i32, surfaces: spec_fn(nat) -> Surface)
    requires
        depth <= 0,
    ensures
        budget_step(depth) == Step::Black,
        path_end(depth, surfaces, 0) == (Step::Black, 0nat),
{
}

/// A ray that misses everything, as every ray does in an empty scene, sees the
/// sky gradient of its own direction, with no attenuation factor, whenever the
/// budget is not exhausted.
pub proof fn lemma_miss_sees_sky(depth: i32, surfaces: spec_fn(nat) -> Surface)
    requires
        depth > 0,
        surfaces(0) == Surface::Miss,
    ensures
        path_end(depth, surfaces, 0) == (Step::Sky, 0nat),
{
}

/// Running `begin` and then `advance` on each answer of the scene traces the
/// path: from a query with `depth` bounces left after `k` scatters, the next
/// step either ends the path as `path_end` says or is a query on which the
/// same path ends after one more scatter.
pub proof fn lemma_steps_follow_path(depth: i32, surfaces: spec_fn(nat) -> Surface, k: nat)
    requires
        depth > 0,
    ensures
        budget_step(depth) == (Step::Query { depth }),
        path_end(depth, surfaces, k) == match surface_step(depth, surfaces(k)) {
            Step::Query { depth: d } => path_end(d, surfaces, k + 1),
            Step::Black => if surfaces(k) == Surface::Scattered {
                (Step::Black, k + 1)
            } else {
                (Step::Black, k)
            },
            Step::Sky => (Step::Sky, k),
        },
{
    reveal_with_fuel(path_end, 2);
}

/// Every path ends, in black or in the sky, after at most `depth` scatters; a
/// path that reaches the sky does so after fewer than `depth` scatters.
pub proof fn lemma_path_bounded(depth: i32, surfaces: spec_fn(nat) -> Surface, k: nat)
    ensures
        path_end(depth, surfaces, k).0 != (Step::Query { depth: 0 }),
        path_end(depth, surfaces, k).0 is Black || path_end(depth, surfaces, k).0 is Sky,
        k <= path_end(depth, surfaces, k).1 <= k + if depth > 0 {
            depth
        } else {
            0
        },
        path_end(depth, surfaces, k).0 is Sky ==> path_end(depth, surfaces, k).1 < k + depth,
    decreases depth,
{
    if depth > 0 && surfaces(k) == Surface::Scattered {
        lemma_path_bounded((depth - 1) as i32, surfaces, k + 1);
    }
}

} // verus!
