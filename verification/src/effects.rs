//! What the effects do to the renderer, and when.
//!
//! The engine-facing plugin asks three questions of this module: once the renderer exists, what
//! to set up ([`setup`]); every frame, what to do ([`plan_frame`]); and when it leaves, what to
//! undo ([`teardown`]). It then does it: it applies the settings, installs the passes in the order
//! given, shifts the view, runs the budgets, and takes it all out again.

use crate::antialiasing::AntiAliasing;
use vstd::prelude::*;

verus! {

/// A render pass the effects add to the renderer.
#[derive(Debug, Clone, Copy, PartialEq, Eq, Structural)]
pub enum Pass {
    /// Glass, drawn over the finished scene.
    Refraction,
    /// Reflections ray-marched against the depth buffer.
    Reflections,
    /// Temporal anti-aliasing.
    Temporal,
}

/// A budget the effects run over every scene.
#[derive(Debug, Clone, Copy, PartialEq, Eq, Structural)]
pub enum Budget {
    Lights,
    Shadows,
}

/// Which effects the game asked for.
#[derive(Debug, Clone, Copy, PartialEq, Eq, Structural)]
pub struct Requested {
    pub soft_shadows: bool,
    pub anti_aliasing: Option<AntiAliasing>,
    pub ambient_occlusion: bool,
    pub ray_traced_shadows: bool,
    pub reflections: bool,
}

/// What to do once the renderer exists.
#[derive(Debug)]
pub struct Setup {
    /// Apply the soft shadow settings.
    pub soft_shadows: bool,
    /// Apply this anti-aliasing setting.
    pub anti_aliasing: Option<AntiAliasing>,
    /// Apply the ambient occlusion setting.
    pub ambient_occlusion: bool,
    /// Hand the renderer the shadow tracer, in place of its shadow maps.
    pub traced_shadows: bool,
    /// The passes to add, in this order.
    pub passes: Vec<Pass>,
}

/// What to do this frame.
#[derive(Debug)]
pub struct FramePlan {
    /// The number of this frame among those drawn with temporal anti-aliasing, which picks its
    /// shift of the view; none when the view is not shifted.
    pub jitter_frame: Option<u64>,
    /// The budgets to run over each scene, in this order.
    pub budgets: Vec<Budget>,
}

/// What to undo when the plugin leaves.
#[derive(Debug)]
pub struct Teardown {
    /// The passes to take out of the renderer.
    pub remove: Vec<Pass>,
    /// Put the view back where it belongs, unshifted.
    pub reset_jitter: bool,
    /// Take the shadow tracer away, handing shadows back to the shadow maps.
    pub remove_tracer: bool,
}

/// Whether `pattern` occurs in `text`.
pub open spec fn has_substring(text: Seq<char>, pattern: Seq<char>) -> bool {
    exists|i: int|
        0 <= i && i + pattern.len() <= text.len() && #[trigger] text.subrange(i, i + pattern.len())
            == pattern
}

/// `str::contains` with a string pattern: whether `pattern` occurs in `text`.
#[verifier::external_body]
fn str_contains(text: &str, pattern: &str) -> (found: bool)
    ensures
        found == has_substring(text@, pattern@),
{
    text.contains(pattern)
}

/// Whether the engine was built with the wgpu backend. There is no runtime flag for it, but the
/// engine's own standard shader is written in the language the backend compiles, so it tells:
/// `first_vertex_shader` is the vertex shader of the standard shader's first pass, and WGSL marks
/// its entry point `@vertex`.
pub fn engine_uses_wgsl(first_vertex_shader: Option<&str>) -> (wgsl: bool)
    ensures
        wgsl == match first_vertex_shader {
            Some(source) => has_substring(source@, "@vertex"@),
            None => false,
        },
{
    match first_vertex_shader {
        Some(source) => str_contains(source, "@vertex"),
        None => false,
    }
}

/// The anti-aliasing that ends up applied.
pub open spec fn applied_anti_aliasing(requested: Requested, engine_uses_wgsl: bool) -> Option<
    AntiAliasing,
> {
    match requested.anti_aliasing {
        Some(aa) => Some(
            if aa.temporal && !engine_uses_wgsl {
                AntiAliasing { fxaa: true, temporal: false }
            } else {
                aa
            },
        ),
        None => None,
    }
}

/// Whether the temporal pass is installed.
pub open spec fn temporal_installed(requested: Requested, engine_uses_wgsl: bool) -> bool {
    match applied_anti_aliasing(requested, engine_uses_wgsl) {
        Some(aa) => aa.temporal,
        None => false,
    }
}

/// The passes, in order: glass first; reflections after it, so glass shows up in reflections too;
/// temporal anti-aliasing last, so it smooths everything drawn before it.
pub open spec fn passes_for(requested: Requested, engine_uses_wgsl: bool) -> Seq<Pass> {
    seq![Pass::Refraction] + (if requested.reflections {
        seq![Pass::Reflections]
    } else {
        Seq::empty()
    }) + (if temporal_installed(requested, engine_uses_wgsl) {
        seq![Pass::Temporal]
    } else {
        Seq::empty()
    })
}

/// What to set up, given what the game asked for, whether the engine was built with wgpu (its
/// shaders are WGSL), and whether the graphics card can trace rays.
pub fn setup(requested: Requested, engine_uses_wgsl: bool, tracing_supported: bool) -> (plan: Setup)
    ensures
        plan.soft_shadows == requested.soft_shadows,
        plan.anti_aliasing == applied_anti_aliasing(requested, engine_uses_wgsl),
        plan.ambient_occlusion == requested.ambient_occlusion,
        plan.traced_shadows == (requested.ray_traced_shadows && tracing_supported),
        plan.passes@ == passes_for(requested, engine_uses_wgsl),
        plan.passes@.contains(Pass::Temporal) == (match plan.anti_aliasing {
            Some(aa) => aa.temporal,
            None => false,
        }),
        plan.passes@.contains(Pass::Temporal) == (match requested.anti_aliasing {
            Some(aa) => aa.temporal && engine_uses_wgsl,
            None => false,
        }),
{
    let mut temporal = false;
    let anti_aliasing = match requested.anti_aliasing {
        Some(aa) => {
            let applied = aa.on_engine(engine_uses_wgsl);
            temporal = applied.temporal;
            Some(applied)
        },
        None => None,
    };
    let mut passes: Vec<Pass> = Vec::new();
    passes.push(Pass::Refraction);
    if requested.reflections {
        passes.push(Pass::Reflections);
    }
    if temporal {
        passes.push(Pass::Temporal);
    }
    assert(passes@ =~= passes_for(requested, engine_uses_wgsl));
    proof {
        temporal_pass_follows_temporal_anti_aliasing(requested, engine_uses_wgsl);
    }
    Setup {
        soft_shadows: requested.soft_shadows,
        anti_aliasing,
        ambient_occlusion: requested.ambient_occlusion,
        traced_shadows: requested.ray_traced_shadows && tracing_supported,
        passes,
    }
}

/// What to do this frame. `temporal` is whether the temporal pass is installed, `graphics_ready`
/// whether the renderer exists right now, and `frames` how many frames have been drawn with the
/// view shifted so far. The shadow budget is idle while shadows are traced: traced shadows come
/// from the lights' shadow flag too, so the budget would switch them off for all but the nearest
/// lights. The light budget runs first: a light that is off needs no shadow map either.
pub fn plan_frame(
    temporal: bool,
    graphics_ready: bool,
    frames: u64,
    light_budget: bool,
    shadow_budget: bool,
    shadows_traced: bool,
) -> (plan: FramePlan)
    requires
        temporal && graphics_ready ==> frames < u64::MAX,
    ensures
        plan.jitter_frame == (if temporal && graphics_ready {
            Some((frames + 1) as u64)
        } else {
            None
        }),
        plan.budgets@ == (if light_budget {
            seq![Budget::Lights]
        } else {
            Seq::empty()
        }) + (if shadow_budget && !shadows_traced {
            seq![Budget::Shadows]
        } else {
            Seq::empty()
        }),
{
    let jitter_frame = if temporal && graphics_ready {
        Some(frames + 1)
    } else {
        None
    };
    let mut budgets: Vec<Budget> = Vec::new();
    if light_budget {
        budgets.push(Budget::Lights);
    }
    if shadow_budget && !shadows_traced {
        budgets.push(Budget::Shadows);
    }
    proof {
        let expected = (if light_budget {
            seq![Budget::Lights]
        } else {
            Seq::empty()
        }) + (if shadow_budget && !shadows_traced {
            seq![Budget::Shadows]
        } else {
            Seq::empty()
        });
        assert(budgets@ =~= expected);
    }
    FramePlan { jitter_frame, budgets }
}

/// What to undo when the plugin leaves, given which passes are installed and whether shadows are
/// traced: every installed pass comes out, in the order they went in; the view is unshifted when
/// temporal anti-aliasing was shifting it; and the tracer goes when there is one.
pub fn teardown(refraction: bool, reflections: bool, temporal: bool, shadows_traced: bool) -> (undo:
    Teardown)
    ensures
        undo.remove@ == (if refraction {
            seq![Pass::Refraction]
        } else {
            Seq::empty()
        }) + (if reflections {
            seq![Pass::Reflections]
        } else {
            Seq::empty()
        }) + (if temporal {
            seq![Pass::Temporal]
        } else {
            Seq::empty()
        }),
        undo.reset_jitter == temporal,
        undo.remove_tracer == shadows_traced,
{
    let mut remove: Vec<Pass> = Vec::new();
    if refraction {
        remove.push(Pass::Refraction);
    }
    if reflections {
        remove.push(Pass::Reflections);
    }
    if temporal {
        remove.push(Pass::Temporal);
    }
    proof {
        let expected = (if refraction {
            seq![Pass::Refraction]
        } else {
            Seq::empty()
        }) + (if reflections {
            seq![Pass::Reflections]
        } else {
            Seq::empty()
        }) + (if temporal {
            seq![Pass::Temporal]
        } else {
            Seq::empty()
        });
        assert(remove@ =~= expected);
    }
    Teardown { remove, reset_jitter: temporal, remove_tracer: shadows_traced }
}

/// The temporal pass is installed exactly when the anti-aliasing applied is temporal, which is
/// when the game asked for temporal anti-aliasing and the engine was built with wgpu: asking for
/// FXAA alone, or for no anti-aliasing, never installs it.
pub proof fn temporal_pass_follows_temporal_anti_aliasing(requested: Requested, engine_uses_wgsl: bool)
    ensures
        passes_for(requested, engine_uses_wgsl).contains(Pass::Temporal) == (match applied_anti_aliasing(
            requested,
            engine_uses_wgsl,
        ) {
            Some(aa) => aa.temporal,
            None => false,
        }),
        passes_for(requested, engine_uses_wgsl).contains(Pass::Temporal) == (match requested.anti_aliasing {
            Some(aa) => aa.temporal && engine_uses_wgsl,
            None => false,
        }),
        applied_anti_aliasing(requested, engine_uses_wgsl) == (match requested.anti_aliasing {
            Some(aa) => Some(
                if aa.temporal && !engine_uses_wgsl {
                    AntiAliasing { fxaa: true, temporal: false }
                } else {
                    aa
                },
            ),
            None => None,
        }),
{
    let p = passes_for(requested, engine_uses_wgsl);
    let temporal = match requested.anti_aliasing {
        Some(aa) => aa.temporal && engine_uses_wgsl,
        None => false,
    };
    if temporal {
        assert(p[p.len() - 1] == Pass::Temporal);
    } else {
        assert forall|k: int| 0 <= k < p.len() implies p[k] != Pass::Temporal by {
            if requested.reflections {
                assert(p =~= seq![Pass::Refraction, Pass::Reflections]);
            } else {
                assert(p =~= seq![Pass::Refraction]);
            }
        }
    }
}

/// A pattern is found wherever it occurs in the text, not only at its start: `a + pattern + b`
/// contains `pattern` for any `a` and `b`; and whatever contains it is of that form.
pub proof fn substrings_are_found_anywhere(a: Seq<char>, pattern: Seq<char>, b: Seq<char>, text: Seq<
    char,
>)
    ensures
        has_substring(a + pattern + b, pattern),
        has_substring(text, pattern) ==> exists|i: int|
            0 <= i && i + pattern.len() <= text.len() && text =~= text.subrange(0, i) + pattern
                + text.subrange(i + pattern.len(), text.len() as int),
{
    let t = a + pattern + b;
    assert(t.subrange(a.len() as int, (a.len() + pattern.len()) as int) =~= pattern);
    if has_substring(text, pattern) {
        let i = choose|i: int|
            0 <= i && i + pattern.len() <= text.len() && #[trigger] text.subrange(
                i,
                i + pattern.len(),
            ) == pattern;
        assert(text =~= text.subrange(0, i) + pattern + text.subrange(
            i + pattern.len(),
            text.len() as int,
        ));
    }
}

/// A shader with `@vertex` anywhere in its source - after struct declarations, say - is WGSL.
pub proof fn wgsl_is_told_by_vertex_anywhere(before: Seq<char>, after: Seq<char>)
    ensures
        has_substring(before + "@vertex"@ + after, "@vertex"@),
{
    substrings_are_found_anywhere(before, "@vertex"@, after, before + "@vertex"@ + after);
}

/// Glass is drawn first and temporal anti-aliasing, where it is installed, last; and it is
/// installed only on an engine built with wgpu, where its shader exists.
pub proof fn passes_are_ordered(requested: Requested, engine_uses_wgsl: bool)
    ensures
        passes_for(requested, engine_uses_wgsl)[0] == Pass::Refraction,
        temporal_installed(requested, engine_uses_wgsl) ==> passes_for(
            requested,
            engine_uses_wgsl,
        ).last() == Pass::Temporal && engine_uses_wgsl,
        requested.reflections && temporal_installed(requested, engine_uses_wgsl) ==> passes_for(
            requested,
            engine_uses_wgsl,
        ) == seq![Pass::Refraction, Pass::Reflections, Pass::Temporal],
{
    let p = passes_for(requested, engine_uses_wgsl);
    if requested.reflections && temporal_installed(requested, engine_uses_wgsl) {
        assert(p =~= seq![Pass::Refraction, Pass::Reflections, Pass::Temporal]);
    }
}

} // verus!
