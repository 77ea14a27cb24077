//! What each kind of surface does with an incoming ray, once the
//! comparisons that decide it have been made.

use crate::integrator::Probe;
use vstd::prelude::*;

verus! {

/// A surface met by a ray, with the comparisons its kind depends on.
#[derive(Clone, Copy, Debug, PartialEq, Eq, Structural)]
pub enum Incidence {
    /// A diffuse surface. `degenerate`: the normal plus the random unit
    /// vector is close to zero.
    Lambertian { degenerate: bool },
    /// A reflective surface. `outward`: the jittered reflection has a
    /// positive dot product with the normal.
    Metal { outward: bool },
    /// A refractive surface. `total_internal`: the refraction ratio times
    /// the sine of the incidence angle exceeds one. `reflectance_drawn`: the
    /// uniform draw fell below the Schlick reflectance.
    Dielectric { total_internal: bool, reflectance_drawn: bool },
}

/// The direction in which a surface sends a ray on, if it does.
#[derive(Clone, Copy, Debug, PartialEq, Eq, Structural)]
pub enum Bounce {
    /// The ray ends here.
    Absorb,
    /// Along the normal plus the random unit vector.
    Diffuse,
    /// Along the normal itself.
    AlongNormal,
    /// Along the reflection about the normal.
    Reflect,
    /// Along the refraction through the surface.
    Refract,
}

/// The colour by which a surface attenuates what comes back along the ray.
#[derive(Clone, Copy, Debug, PartialEq, Eq, Structural)]
pub enum Tint {
    /// The material's own albedo.
    Albedo,
    /// White: nothing is taken away.
    White,
}

/// What a surface does with the ray.
pub open spec fn scatter_spec(incidence: Incidence) -> Bounce {
    match incidence {
        Incidence::Lambertian { degenerate } => if degenerate {
            Bounce::AlongNormal
        } else {
            Bounce::Diffuse
        },
        Incidence::Metal { outward } => if outward {
            Bounce::Reflect
        } else {
            Bounce::Absorb
        },
        Incidence::Dielectric { total_internal, reflectance_drawn } => if total_internal
            || reflectance_drawn {
            Bounce::Reflect
        } else {
            Bounce::Refract
        },
    }
}

/// The attenuation of a surface's kind.
pub open spec fn tint_spec(incidence: Incidence) -> Tint {
    match incidence {
        Incidence::Dielectric { .. } => Tint::White,
        _ => Tint::Albedo,
    }
}

/// What the integrator learns from a cast that ended in `bounce`.
pub open spec fn probe_spec(bounce: Bounce) -> Probe {
    if bounce == Bounce::Absorb {
        Probe::Absorbed
    } else {
        Probe::Scattered
    }
}

/// Decides what a surface does with the ray.
pub fn scatter(incidence: Incidence) -> (bounce: Bounce)
    ensures
        bounce == scatter_spec(incidence),
{
    match incidence {
        Incidence::Lambertian { degenerate } => {
            if degenerate {
                Bounce::AlongNormal
            } else {
                Bounce::Diffuse
            }
        },
        Incidence::Metal { outward } => {
            if outward {
                Bounce::Reflect
            } else {
                Bounce::Absorb
            }
        },
        Incidence::Dielectric { total_internal, reflectance_drawn } => {
            if total_internal || reflectance_drawn {
                Bounce::Reflect
            } else {
                Bounce::Refract
            }
        },
    }
}

/// The attenuation that goes with a surface's kind.
pub fn tint(incidence: Incidence) -> (t: Tint)
    ensures
        t == tint_spec(incidence),
{
    match incidence {
        Incidence::Dielectric { .. } => Tint::White,
        _ => Tint::Albedo,
    }
}

/// Reports a bounce to the integrator.
pub fn probe(bounce: Bounce) -> (p: Probe)
    ensures
        p == probe_spec(bounce),
{
    match bounce {
        Bounce::Absorb => Probe::Absorbed,
        _ => Probe::Scattered,
    }
}

/// A diffuse surface never absorbs; a reflective one absorbs exactly when
/// the reflection does not point out of the surface; a refractive one never
/// absorbs and attenuates by white.
pub proof fn lemma_absorption(incidence: Incidence)
    ensures
        incidence is Lambertian ==> scatter_spec(incidence) != Bounce::Absorb,
        incidence matches Incidence::Metal { outward } ==> (scatter_spec(incidence)
            == Bounce::Absorb <==> !outward),
        incidence is Dielectric ==> scatter_spec(incidence) != Bounce::Absorb && tint_spec(
            incidence,
        ) == Tint::White,
        probe_spec(scatter_spec(incidence)) == Probe::Absorbed <==> incidence
            == (Incidence::Metal { outward: false }),
{
}

} // verus!
