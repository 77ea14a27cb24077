//! The shape of a light path: how many surfaces it bounces off before it
//! ends, and in what it ends.

use vstd::prelude::*;

verus! {

/// What one cast of a ray into the scene found.
#[derive(Clone, Copy, Debug, PartialEq, Eq, Structural)]
pub enum Probe {
    /// No object was hit.
    Miss,
    /// An object was hit and its material absorbed the ray.
    Absorbed,
    /// An object was hit and its material sent a new ray on.
    Scattered,
}

/// The last factor of a path's radiance.
#[derive(Clone, Copy, Debug, PartialEq, Eq, Structural)]
pub enum Ending {
    /// No light: the path was absorbed or ran out of depth.
    Black,
    /// The background gradient along the last ray.
    Sky,
}

/// The radiance of a path as a product: the attenuations of its first
/// `bounces` scatterings, innermost last, times the ending.
#[derive(Clone, Copy, Debug, PartialEq, Eq, Structural)]
pub struct Radiance {
    pub bounces: u64,
    pub ending: Ending,
}

/// What the integrator does next.
#[derive(Clone, Copy, Debug, PartialEq, Eq, Structural)]
pub enum Step {
    /// Cast the current ray; `depth` casts are still allowed, this one
    /// included.
    Cast { depth: u64 },
    /// The path is complete.
    Done(Ending),
}

/// The step taken with `depth` casts left, before anything is cast.
pub open spec fn begin_spec(depth: u64) -> Step {
    if depth == 0 {
        Step::Done(Ending::Black)
    } else {
        Step::Cast { depth }
    }
}

/// The step that follows a cast made with `depth` casts left.
pub open spec fn advance_spec(depth: u64, probe: Probe) -> Step {
    if depth == 0 {
        Step::Done(Ending::Black)
    } else {
        match probe {
            Probe::Miss => Step::Done(Ending::Sky),
            Probe::Absorbed => Step::Done(Ending::Black),
            Probe::Scattered => begin_spec((depth - 1) as u64),
        }
    }
}

/// A radiance with `extra` more bounces in front of it.
pub open spec fn after_bounces(extra: nat, rest: Option<(nat, Ending)>) -> Option<(nat, Ending)> {
    match rest {
        Some((bounces, ending)) => Some((bounces + extra, ending)),
        None => None,
    }
}

/// The radiance of the path that starts with `depth` casts allowed and whose
/// casts find `probes`, in order. `None` where the path is still open when
/// `probes` ends.
pub open spec fn path_radiance(depth: nat, probes: Seq<Probe>) -> Option<(nat, Ending)>
    decreases depth,
{
    if depth == 0 {
        Some((0nat, Ending::Black))
    } else if probes.len() == 0 {
        None
    } else {
        match probes[0] {
            Probe::Miss => Some((0nat, Ending::Sky)),
            Probe::Absorbed => Some((0nat, Ending::Black)),
            Probe::Scattered => after_bounces(
                1,
                path_radiance((depth - 1) as nat, probes.skip(1)),
            ),
        }
    }
}

/// The first step of a path that may cast `depth` rays: none at depth zero.
pub fn begin(depth: u64) -> (step: Step)
    ensures
        step == begin_spec(depth),
        depth == 0 ==> step == Step::Done(Ending::Black),
{
    if depth == 0 {
        Step::Done(Ending::Black)
    } else {
        Step::Cast { depth }
    }
}

/// The step after a cast that was made with `depth` casts left and found
/// `probe`. A scattered ray goes on with one cast fewer.
pub fn advance(depth: u64, probe: Probe) -> (step: Step)
    ensures
        step == advance_spec(depth, probe),
        depth == 0 ==> step == Step::Done(Ending::Black),
        step matches Step::Cast { depth: rest } ==> rest + 1 == depth && probe == Probe::Scattered,
{
    if depth == 0 {
        return Step::Done(Ending::Black);
    }
    match probe {
        Probe::Miss => Step::Done(Ending::Sky),
        Probe::Absorbed => Step::Done(Ending::Black),
        Probe::Scattered => begin(depth - 1),
    }
}

/// Runs a whole path over the recorded outcomes of its casts.
pub fn trace_path(depth: u64, probes: &Vec<Probe>) -> (radiance: Option<Radiance>)
    ensures
        match path_radiance(depth as nat, probes@) {
            Some((bounces, ending)) => radiance == Some(
                (Radiance { bounces: bounces as u64, ending }),
            ) && bounces <= depth,
            None => radiance.is_none(),
        },
{
    let mut step: Step = begin(depth);
    let mut used: usize = 0;
    let mut bounces: u64 = 0;
    assert(probes@.skip(0) =~= probes@);
    loop
        invariant
            used <= probes.len(),
            bounces <= depth,
            match step {
                Step::Cast { depth: rest } => rest > 0 && rest + bounces == depth
                    && path_radiance(depth as nat, probes@) == after_bounces(
                    bounces as nat,
                    path_radiance(rest as nat, probes@.skip(used as int)),
                ),
                Step::Done(ending) => path_radiance(depth as nat, probes@) == Some(
                    (bounces as nat, ending),
                ),
            },
        decreases probes.len() - used + (if step is Done { 0int } else { 1int }),
    {
        match step {
            Step::Done(ending) => {
                return Some(Radiance { bounces, ending });
            },
            Step::Cast { depth: rest } => {
                if used >= probes.len() {
                    return None;
                }
                let probe = probes[used];
                proof {
                    let tail = probes@.skip(used as int);
                    assert(tail[0] == probes@[used as int]);
                    assert(tail.skip(1) =~= probes@.skip(used + 1));
                    assert(path_radiance(0, tail.skip(1)) == Some((0nat, Ending::Black)));
                }
                step = advance(rest, probe);
                if probe == Probe::Scattered {
                    bounces = bounces + 1;
                }
                used = used + 1;
            },
        }
    }
}

/// A path that may cast no ray is black, whatever the scene would have
/// answered.
pub proof fn lemma_zero_depth_is_black(probes: Seq<Probe>)
    ensures
        path_radiance(0, probes) == Some((0nat, Ending::Black)),
{
}

/// A path never bounces more often than its depth allows, and `depth`
/// recorded casts always suffice to close it.
pub proof fn lemma_depth_bounds_path(depth: nat, probes: Seq<Probe>)
    ensures
        path_radiance(depth, probes) matches Some((bounces, _)) ==> bounces <= depth,
        probes.len() >= depth ==> path_radiance(depth, probes).is_some(),
    decreases depth,
{
    if depth > 0 && probes.len() > 0 {
        lemma_depth_bounds_path((depth - 1) as nat, probes.skip(1));
    }
}

/// A path that runs out of depth ends black after exactly `depth` bounces.
pub proof fn lemma_exhausted_path_is_black(depth: nat, probes: Seq<Probe>)
    requires
        probes.len() >= depth,
        forall|i: int| 0 <= i < depth ==> probes[i] == Probe::Scattered,
    ensures
        path_radiance(depth, probes) == Some((depth, Ending::Black)),
    decreases depth,
{
    if depth > 0 {
        let tail = probes.skip(1);
        assert forall|i: int| 0 <= i < depth - 1 implies tail[i] == Probe::Scattered by {
            assert(tail[i] == probes[i + 1]);
        }
        lemma_exhausted_path_is_black((depth - 1) as nat, tail);
    }
}

} // verus!
