//! The material scattering state machine.
//!
//! A surface hit produces either an absorbed ray (the surface returns its
//! solid colour and the walk stops) or a scattered ray that continues with an
//! attenuated colour.  Which of the two happens, and how the scattered
//! direction is built, depends only on the material kind and on a handful of
//! geometric and random tests; those tests are evaluated by the caller in
//! floating point and handed in as booleans, so the decision itself is exact
//! and is fixed here for every combination of inputs.

use vstd::prelude::*;

verus! {

/// The three material kinds of the renderer.
#[derive(Debug, Clone, Copy, Default, PartialEq, Eq, Structural)]
pub enum MaterialType {
    #[default]
    Metal,
    Lambertian,
    Dielectric,
}

/// How a scattered ray's direction is built from the hit geometry.
#[derive(Debug, Clone, Copy, PartialEq, Eq, Structural)]
pub enum Deflection {
    /// Surface normal plus a random unit vector: cosine-weighted diffuse.
    Diffuse,
    /// Mirror reflection of the incoming direction about the normal.
    Mirror,
    /// Degenerate (near zero length) mirror reflection, replaced by the
    /// surface normal so the ray never has a vanishing direction.
    SurfaceNormal,
    /// Snell refraction through the surface.
    Refract,
}

/// The decided outcome of a surface hit.
#[derive(Debug, Clone, Copy, PartialEq, Eq, Structural)]
pub enum ScatterPlan {
    /// The ray ends here; the surface yields its solid colour.
    Absorb,
    /// The ray continues along a direction built by `rule`; when `perturb`
    /// holds, a fuzz offset is added to that direction afterwards.
    Scatter { rule: Deflection, perturb: bool },
}

/// Direction rule of each material kind.
///
/// `degenerate_reflection` reports that the mirror-reflected vector was too
/// short to use; `total_internal_reflection` that Snell's law admits no
/// refracted ray; `reflect_draw` that the Schlick-reflectance test against a
/// fresh uniform draw chose reflection.
pub open spec fn deflection_rule(
    material: MaterialType,
    degenerate_reflection: bool,
    total_internal_reflection: bool,
    reflect_draw: bool,
) -> Deflection {
    match material {
        MaterialType::Lambertian => Deflection::Diffuse,
        MaterialType::Metal => if degenerate_reflection {
            Deflection::SurfaceNormal
        } else {
            Deflection::Mirror
        },
        MaterialType::Dielectric => if total_internal_reflection || reflect_draw {
            Deflection::Mirror
        } else {
            Deflection::Refract
        },
    }
}

/// The full scattering decision: every material first scatters by its own
/// rule, and a configured fuzz factor then either perturbs the direction or,
/// when the perturbed direction would point into the surface
/// (`fuzz_into_surface`), demotes the outcome to an absorption.
pub open spec fn scatter_decision(
    material: MaterialType,
    degenerate_reflection: bool,
    total_internal_reflection: bool,
    reflect_draw: bool,
    has_fuzz: bool,
    fuzz_into_surface: bool,
) -> ScatterPlan {
    if has_fuzz && fuzz_into_surface {
        ScatterPlan::Absorb
    } else {
        ScatterPlan::Scatter {
            rule: deflection_rule(
                material,
                degenerate_reflection,
                total_internal_reflection,
                reflect_draw,
            ),
            perturb: has_fuzz,
        }
    }
}

/// Decide how a scattered ray's direction is built on `material`; the
/// boolean arguments are the floating-point tests described at
/// `deflection_rule`.
pub fn deflection(
    material: MaterialType,
    degenerate_reflection: bool,
    total_internal_reflection: bool,
    reflect_draw: bool,
) -> (r: Deflection)
    ensures
        r == deflection_rule(
            material,
            degenerate_reflection,
            total_internal_reflection,
            reflect_draw,
        ),
{
    match material {
        MaterialType::Lambertian => Deflection::Diffuse,
        MaterialType::Metal => {
            if degenerate_reflection {
                Deflection::SurfaceNormal
            } else {
                Deflection::Mirror
            }
        },
        MaterialType::Dielectric => {
            if total_internal_reflection || reflect_draw {
                Deflection::Mirror
            } else {
                Deflection::Refract
            }
        },
    }
}

/// Decide the outcome of a hit on `material`.
///
/// The boolean arguments are the floating-point tests of the geometry and
/// the random draws, evaluated by the caller; see `deflection_rule` and
/// `scatter_decision` for their meaning.
pub fn scatter_plan(
    material: MaterialType,
    degenerate_reflection: bool,
    total_internal_reflection: bool,
    reflect_draw: bool,
    has_fuzz: bool,
    fuzz_into_surface: bool,
) -> (r: ScatterPlan)
    ensures
        r == scatter_decision(
            material,
            degenerate_reflection,
            total_internal_reflection,
            reflect_draw,
            has_fuzz,
            fuzz_into_surface,
        ),
        r == ScatterPlan::Absorb <==> has_fuzz && fuzz_into_surface,
{
    if has_fuzz && fuzz_into_surface {
        ScatterPlan::Absorb
    } else {
        let rule = deflection(
            material,
            degenerate_reflection,
            total_internal_reflection,
            reflect_draw,
        );
        ScatterPlan::Scatter { rule, perturb: has_fuzz }
    }
}

/// A Lambertian material with no fuzz factor never absorbs a ray: whatever
/// the geometric tests and random draws say, its outcome is an unperturbed
/// diffuse bounce.
pub proof fn lemma_lambertian_without_fuzz_scatters(
    degenerate_reflection: bool,
    total_internal_reflection: bool,
    reflect_draw: bool,
    fuzz_into_surface: bool,
)
    ensures
        scatter_decision(
            MaterialType::Lambertian,
            degenerate_reflection,
            total_internal_reflection,
            reflect_draw,
            false,
            fuzz_into_surface,
        ) == (ScatterPlan::Scatter { rule: Deflection::Diffuse, perturb: false }),
{
}

} // verus!
