use ray_tracer::intersect::{select_root, RootChoice};
use ray_tracer::radiance::{shade_step, BounceEvent, ShadeAction};
use ray_tracer::scatter::{scatter_plan, Deflection, MaterialType, ScatterPlan};

#[test]
fn lambertian_without_fuzz_always_scatters() {
    for &deg in &[false, true] {
        for &tir in &[false, true] {
            for &draw in &[false, true] {
                for &into in &[false, true] {
                    let plan = scatter_plan(MaterialType::Lambertian, deg, tir, draw, false, into);
                    assert_eq!(
                        plan,
                        ScatterPlan::Scatter { rule: Deflection::Diffuse, perturb: false }
                    );
                }
            }
        }
    }
}

#[test]
fn metal_reflects_or_falls_back_to_normal() {
    let clean = scatter_plan(MaterialType::Metal, false, false, false, false, false);
    assert_eq!(clean, ScatterPlan::Scatter { rule: Deflection::Mirror, perturb: false });
    let degenerate = scatter_plan(MaterialType::Metal, true, false, false, false, false);
    assert_eq!(degenerate, ScatterPlan::Scatter { rule: Deflection::SurfaceNormal, perturb: false });
}

#[test]
fn dielectric_reflects_on_total_internal_reflection() {
    let forced = scatter_plan(MaterialType::Dielectric, false, true, false, false, false);
    assert_eq!(forced, ScatterPlan::Scatter { rule: Deflection::Mirror, perturb: false });
    let by_draw = scatter_plan(MaterialType::Dielectric, false, false, true, false, false);
    assert_eq!(by_draw, ScatterPlan::Scatter { rule: Deflection::Mirror, perturb: false });
    let through = scatter_plan(MaterialType::Dielectric, false, false, false, false, false);
    assert_eq!(through, ScatterPlan::Scatter { rule: Deflection::Refract, perturb: false });
}

#[test]
fn fuzz_into_surface_absorbs() {
    let absorbed = scatter_plan(MaterialType::Metal, false, false, false, true, true);
    assert_eq!(absorbed, ScatterPlan::Absorb);
    let kept = scatter_plan(MaterialType::Metal, false, false, false, true, false);
    assert_eq!(kept, ScatterPlan::Scatter { rule: Deflection::Mirror, perturb: true });
}

#[test]
fn exhausted_depth_always_emits_black() {
    assert_eq!(shade_step(0, BounceEvent::Miss), ShadeAction::EmitBlack);
    assert_eq!(shade_step(0, BounceEvent::Absorbed), ShadeAction::EmitBlack);
    assert_eq!(shade_step(0, BounceEvent::Scattered), ShadeAction::EmitBlack);
}

#[test]
fn live_depth_follows_the_event() {
    assert_eq!(shade_step(1, BounceEvent::Miss), ShadeAction::EmitSky);
    assert_eq!(shade_step(20, BounceEvent::Absorbed), ShadeAction::EmitSolid);
    assert_eq!(shade_step(20, BounceEvent::Scattered), ShadeAction::Bounce);
}

#[test]
fn nearer_root_is_preferred() {
    assert_eq!(select_root(true, true), RootChoice::Near);
    assert_eq!(select_root(true, false), RootChoice::Near);
    assert_eq!(select_root(false, true), RootChoice::Far);
}

#[test]
fn no_acceptable_root_is_a_miss() {
    assert_eq!(select_root(false, false), RootChoice::Miss);
}
