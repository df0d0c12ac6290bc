use fyrox_gfx::effects::{engine_uses_wgsl, plan_frame, setup, teardown, Budget, Pass, Requested};
use fyrox_gfx::AntiAliasing;

fn requested() -> Requested {
    Requested {
        soft_shadows: true,
        anti_aliasing: Some(AntiAliasing::default()),
        ambient_occlusion: true,
        ray_traced_shadows: false,
        reflections: false,
    }
}

#[test]
fn temporal_is_the_default_and_leaves_fxaa_off() {
    assert!(AntiAliasing::default().temporal);
    assert!(
        !AntiAliasing::default().fxaa,
        "FXAA on top would only blur the blended frames"
    );
}

#[test]
fn anti_aliasing_settings() {
    assert_eq!(
        AntiAliasing::off(),
        AntiAliasing {
            fxaa: false,
            temporal: false
        }
    );
    assert_eq!(
        AntiAliasing::fxaa(),
        AntiAliasing {
            fxaa: true,
            temporal: false
        }
    );
}

#[test]
fn fxaa_stands_in_for_temporal_on_opengl() {
    assert_eq!(
        AntiAliasing::default().on_engine(false),
        AntiAliasing::fxaa()
    );
    assert_eq!(
        AntiAliasing::default().on_engine(true),
        AntiAliasing::default()
    );
    assert_eq!(AntiAliasing::off().on_engine(false), AntiAliasing::off());
    assert_eq!(AntiAliasing::fxaa().on_engine(true), AntiAliasing::fxaa());
}

#[test]
fn the_default_effects_on_wgpu() {
    let plan = setup(requested(), true, false);
    assert!(plan.soft_shadows && plan.ambient_occlusion);
    assert_eq!(plan.anti_aliasing, Some(AntiAliasing::default()));
    assert!(!plan.traced_shadows);
    assert_eq!(plan.passes, vec![Pass::Refraction, Pass::Temporal]);
}

#[test]
fn the_default_effects_on_opengl() {
    let plan = setup(requested(), false, false);
    assert_eq!(plan.anti_aliasing, Some(AntiAliasing::fxaa()));
    assert_eq!(plan.passes, vec![Pass::Refraction]);
}

#[test]
fn reflections_go_between_glass_and_temporal() {
    let mut wanted = requested();
    wanted.reflections = true;
    assert_eq!(
        setup(wanted, true, false).passes,
        vec![Pass::Refraction, Pass::Reflections, Pass::Temporal]
    );
    wanted.anti_aliasing = None;
    wanted.soft_shadows = false;
    let plan = setup(wanted, true, false);
    assert_eq!(plan.passes, vec![Pass::Refraction, Pass::Reflections]);
    assert_eq!(plan.anti_aliasing, None);
    assert!(!plan.soft_shadows);
}

#[test]
fn shadows_are_traced_only_where_the_hardware_can() {
    let mut wanted = requested();
    wanted.ray_traced_shadows = true;
    assert!(setup(wanted, true, true).traced_shadows);
    assert!(!setup(wanted, true, false).traced_shadows);
    wanted.ray_traced_shadows = false;
    assert!(!setup(wanted, true, true).traced_shadows);
}

#[test]
fn each_frame_shifts_the_view_and_runs_the_budgets() {
    let plan = plan_frame(true, true, 41, true, true, false);
    assert_eq!(plan.jitter_frame, Some(42));
    assert_eq!(plan.budgets, vec![Budget::Lights, Budget::Shadows]);

    let plan = plan_frame(true, false, 41, false, true, false);
    assert_eq!(plan.jitter_frame, None);
    assert_eq!(plan.budgets, vec![Budget::Shadows]);

    let plan = plan_frame(false, true, 41, false, false, false);
    assert_eq!(plan.jitter_frame, None);
    assert!(plan.budgets.is_empty());
}

#[test]
fn the_shadow_budget_is_idle_while_shadows_are_traced() {
    assert_eq!(
        plan_frame(false, true, 0, true, true, true).budgets,
        vec![Budget::Lights]
    );
    assert!(plan_frame(false, true, 0, false, true, true)
        .budgets
        .is_empty());
}

#[test]
fn the_backend_is_told_by_the_standard_shader() {
    assert!(engine_uses_wgsl(Some(
        "@vertex\nfn main(@location(0) position: vec3<f32>) -> @builtin(position) vec4<f32> {}"
    )));
    assert!(!engine_uses_wgsl(Some(
        "layout(location = 0) in vec3 vertexPosition; void main() {}"
    )));
    assert!(!engine_uses_wgsl(Some("@verte")));
    assert!(!engine_uses_wgsl(None));
}

#[test]
fn leaving_takes_out_what_was_put_in() {
    let undo = teardown(true, false, true, false);
    assert_eq!(undo.remove, vec![Pass::Refraction, Pass::Temporal]);
    assert!(undo.reset_jitter);
    assert!(!undo.remove_tracer);

    let undo = teardown(true, true, false, true);
    assert_eq!(undo.remove, vec![Pass::Refraction, Pass::Reflections]);
    assert!(!undo.reset_jitter);
    assert!(undo.remove_tracer);

    let undo = teardown(false, false, false, false);
    assert!(undo.remove.is_empty());
}
