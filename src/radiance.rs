//! The decisions of the radiance evaluator. A path starts with a bounce
//! budget; while budget is left the scene is intersected, and what happened
//! there (the ray escaped, was absorbed, or was scattered) decides whether the
//! path ends black, ends in the background, or goes on with one bounce less.
//! The colour arithmetic along the path is left to the caller.
use vstd::prelude::*;

verus! {

/// What happened when a path's ray was traced through the scene.
#[derive(Clone, Copy, Debug, PartialEq, Eq, Structural)]
pub enum Bounce {
    /// No primitive was hit: the ray escapes to the background.
    Miss,
    /// A primitive was hit and its material absorbed the ray.
    Absorbed,
    /// A primitive was hit and its material scattered the ray.
    Scattered,
}

/// What the evaluator does next.
#[derive(Clone, Copy, Debug, PartialEq, Eq, Structural)]
pub enum PathStep {
    /// The path ends and contributes no light.
    Black,
    /// The path ends with the background colour of its last ray.
    Background,
    /// Trace the current ray, with `remaining` bounces of budget left.
    Trace { remaining: usize },
}

/// The step with which a path of budget `depth` starts: black once the
/// budget is spent, else a trace.
pub open spec fn spec_start(depth: usize) -> PathStep {
    if depth == 0 {
        PathStep::Black
    } else {
        PathStep::Trace { remaining: depth }
    }
}

/// The step after a trace with `remaining` bounces left met `bounce`.
pub open spec fn spec_after(remaining: usize, bounce: Bounce) -> PathStep {
    match bounce {
        Bounce::Miss => PathStep::Background,
        Bounce::Absorbed => PathStep::Black,
        Bounce::Scattered => spec_start((remaining - 1) as usize),
    }
}

/// The step reached from `step` when the traces meet `bounces` in turn;
/// bounces left over once the path has ended are not looked at.
pub open spec fn run(step: PathStep, bounces: Seq<Bounce>) -> PathStep
    decreases bounces.len(),
{
    match step {
        PathStep::Trace { remaining } => {
            if bounces.len() == 0 || remaining == 0 {
                step
            } else {
                run(spec_after(remaining, bounces[0]), bounces.drop_first())
            }
        },
        _ => step,
    }
}

/// The first step of a path with a budget of `depth` bounces.
pub fn start_path(depth: usize) -> (r: PathStep)
    ensures
        r == spec_start(depth),
        depth == 0 ==> r == PathStep::Black,
{
    if depth == 0 {
        PathStep::Black
    } else {
        PathStep::Trace { remaining: depth }
    }
}

/// The step after a trace with `remaining` bounces left met `bounce`: an
/// escape shows the background, an absorption ends black, and a scatter
/// traces the scattered ray with one bounce less.
pub fn after_bounce(remaining: usize, bounce: Bounce) -> (r: PathStep)
    requires
        remaining > 0,
    ensures
        r == spec_after(remaining, bounce),
        r matches PathStep::Trace { remaining: k } ==> k < remaining,
{
    match bounce {
        Bounce::Miss => PathStep::Background,
        Bounce::Absorbed => PathStep::Black,
        Bounce::Scattered => start_path(remaining - 1),
    }
}

/// A path started with a budget of `depth` bounces has ended after at most
/// `depth` traces, whatever the traces met.
pub proof fn lemma_path_ends_within_budget(depth: usize, bounces: Seq<Bounce>)
    requires
        bounces.len() >= depth,
    ensures
        !(run(spec_start(depth), bounces) is Trace),
    decreases depth,
{
    if depth > 0 {
        let next = spec_after(depth, bounces[0]);
        assert(run(spec_start(depth), bounces) == run(next, bounces.drop_first()));
        if next is Trace {
            lemma_path_ends_within_budget((depth - 1) as usize, bounces.drop_first());
        }
    }
}

/// A path whose every trace scatters ends black once its budget is spent.
pub proof fn lemma_scatter_only_path_is_black(depth: usize, bounces: Seq<Bounce>)
    requires
        bounces.len() >= depth,
        forall|i: int| 0 <= i < bounces.len() ==> bounces[i] == Bounce::Scattered,
    ensures
        run(spec_start(depth), bounces) == PathStep::Black,
    decreases depth,
{
    if depth > 0 {
        let rest = bounces.drop_first();
        assert(run(spec_start(depth), bounces) == run(spec_start((depth - 1) as usize), rest));
        lemma_scatter_only_path_is_black((depth - 1) as usize, rest);
    }
}

} // verus!
