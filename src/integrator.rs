use vstd::prelude::*;

verus! {

/// Where the color integrator stands while it follows one path of a ray.
#[derive(Debug, Clone, Copy, PartialEq, Eq, Structural)]
pub enum PathState {
    /// The ray is about to be tested against the scene, with `depth` bounces left.
    Active(i32),
    /// The ray left the scene: the path takes the sky color, tinted by every
    /// attenuation gathered on the way.
    SkyColor,
    /// A material absorbed the ray: the path contributes black.
    Absorbed,
    /// No bounces were left: the path contributes black.
    DepthExhausted,
}

/// What happened when an active ray was tested against the scene.
#[derive(Debug, Clone, Copy, PartialEq, Eq, Structural)]
pub enum Bounce {
    /// The ray hit no primitive.
    Missed,
    /// The ray hit a primitive whose material absorbed it.
    Absorbed,
    /// The ray hit a primitive whose material scattered it into a new ray.
    Scattered,
}

/// The state of a path that begins with `depth` bounces allowed.
pub open spec fn start_spec(depth: i32) -> PathState {
    if depth <= 0 {
        PathState::DepthExhausted
    } else {
        PathState::Active(depth)
    }
}

/// The state after `bounce` happened in state `s`; a finished path stays as it is.
pub open spec fn step_spec(s: PathState, bounce: Bounce) -> PathState {
    match s {
        PathState::Active(depth) => match bounce {
            Bounce::Missed => PathState::SkyColor,
            Bounce::Absorbed => PathState::Absorbed,
            Bounce::Scattered => if depth <= 1 {
                PathState::DepthExhausted
            } else {
                PathState::Active((depth - 1) as i32)
            },
        },
        _ => s,
    }
}

/// Whether the path has finished.
pub open spec fn is_finished(s: PathState) -> bool {
    !(s is Active)
}

/// The state after `bounces` happened in turn, starting in `s`.
pub open spec fn run(s: PathState, bounces: Seq<Bounce>) -> PathState
    decreases bounces.len(),
{
    if bounces.len() == 0 {
        s
    } else {
        run(step_spec(s, bounces[0]), bounces.drop_first())
    }
}

/// The state of a path that begins with `depth` bounces allowed: a depth of zero or
/// less ends it at once.
pub fn start(depth: i32) -> (r: PathState)
    ensures
        r == start_spec(depth),
{
    if depth <= 0 {
        PathState::DepthExhausted
    } else {
        PathState::Active(depth)
    }
}

/// The state after `bounce` happened in state `s`: a miss ends the path in the sky,
/// an absorption ends it in black, and a scattered ray goes on with one bounce fewer.
pub fn step(s: PathState, bounce: Bounce) -> (r: PathState)
    ensures
        r == step_spec(s, bounce),
{
    match s {
        PathState::Active(depth) => match bounce {
            Bounce::Missed => PathState::SkyColor,
            Bounce::Absorbed => PathState::Absorbed,
            Bounce::Scattered => if depth <= 1 {
                PathState::DepthExhausted
            } else {
                PathState::Active(depth - 1)
            },
        },
        _ => s,
    }
}

/// Whether the path has finished, so that no more scene tests are made for it.
pub fn finished(s: PathState) -> (r: bool)
    ensures
        r == is_finished(s),
{
    !matches!(s, PathState::Active(_))
}

/// A finished path stays as it is, whatever else is reported.
pub proof fn lemma_finished_stays(s: PathState, bounces: Seq<Bounce>)
    requires
        is_finished(s),
    ensures
        run(s, bounces) == s,
    decreases bounces.len(),
{
    if bounces.len() > 0 {
        lemma_finished_stays(step_spec(s, bounces[0]), bounces.drop_first());
    }
}

/// With a depth of zero or less the path is exhausted before any scene test, whatever
/// the scene would report: it contributes black.
pub proof fn lemma_no_depth_is_black(depth: i32, bounces: Seq<Bounce>)
    requires
        depth <= 0,
    ensures
        run(start_spec(depth), bounces) == PathState::DepthExhausted,
{
    lemma_finished_stays(start_spec(depth), bounces);
}

/// A path that begins with `depth` bounces allowed has finished after at most `depth`
/// scene tests, whatever they report.
pub proof fn lemma_path_ends_within_depth(depth: i32, bounces: Seq<Bounce>)
    requires
        bounces.len() >= depth,
    ensures
        is_finished(run(start_spec(depth), bounces)),
    decreases bounces.len(),
{
    if depth <= 0 {
        lemma_finished_stays(start_spec(depth), bounces);
    } else {
        let next = step_spec(start_spec(depth), bounces[0]);
        if is_finished(next) {
            lemma_finished_stays(next, bounces.drop_first());
        } else {
            assert(next == start_spec((depth - 1) as i32));
            lemma_path_ends_within_depth((depth - 1) as i32, bounces.drop_first());
        }
    }
}

} // verus!
