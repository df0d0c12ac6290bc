use fyrox_gfx::shadows::{distance_key, viewpoint_of, LightSeen, NodeSeen};
use fyrox_gfx::{LightBudget, ShadowBudget};

/// A light on the x axis, `x` meters from a camera at the origin.
fn light_at(node: u64, on: bool, x: f32) -> LightSeen {
    LightSeen {
        node,
        on,
        distance: distance_key((x * x).to_bits()),
    }
}

/// Makes the changes a budget asked for.
fn make(lights: &mut [LightSeen], changes: &[Option<bool>]) {
    assert_eq!(lights.len(), changes.len());
    for (light, change) in lights.iter_mut().zip(changes) {
        if let Some(on) = change {
            light.on = *on;
        }
    }
}

/// A scene somebody looks at: one visible camera.
fn viewed() -> Vec<NodeSeen> {
    vec![NodeSeen {
        is_camera: true,
        visible: true,
    }]
}

/// The scene of the tests: a camera first, then the lights.
fn camera_first(lights: usize) -> Vec<NodeSeen> {
    let mut nodes = vec![NodeSeen {
        is_camera: true,
        visible: true,
    }];
    nodes.extend((0..lights).map(|_| NodeSeen {
        is_camera: false,
        visible: true,
    }));
    nodes
}

#[test]
fn only_the_nearest_lights_stay_lit() {
    assert_eq!(viewpoint_of(&camera_first(3)), Some(0));
    let near = 0;
    let far = 1;
    let hidden = 2;
    // A light the game deliberately switched off stays off, however near it is.
    let mut lights = vec![
        light_at(10, true, 1.0),
        light_at(11, true, 50.0),
        light_at(12, false, 0.5),
    ];

    let nodes = camera_first(3);
    let mut budget = LightBudget::new(1);
    let changes = budget.apply(0, &nodes, &lights);
    make(&mut lights, &changes);

    assert!(lights[near].on);
    assert!(!lights[far].on);
    assert!(!lights[hidden].on, "authored setting kept");
}

#[test]
fn only_the_nearest_lights_keep_their_shadows() {
    assert_eq!(viewpoint_of(&camera_first(4)), Some(0));
    let (near, middle, far, unlit) = (0, 1, 2, 3);
    let mut lights = vec![
        light_at(10, true, 1.0),
        light_at(11, true, 5.0),
        light_at(12, true, 50.0),
        // A light the game deliberately set up without shadows, right next to the camera.
        light_at(13, false, 0.5),
    ];

    let nodes = camera_first(4);
    let mut budget = ShadowBudget::new(2);
    let changes = budget.apply(0, &nodes, &lights);
    make(&mut lights, &changes);

    assert!(lights[near].on);
    assert!(lights[middle].on);
    assert!(!lights[far].on);
    assert!(!lights[unlit].on, "authored setting kept");

    // Walking up to the far light gives it shadows back, and takes them from the others.
    lights[near].distance = distance_key((100.0f32 * 100.0).to_bits());
    let changes = budget.apply(0, &viewed(), &lights);
    make(&mut lights, &changes);

    assert!(!lights[near].on);
    assert!(lights[middle].on);
    assert!(lights[far].on);
}

#[test]
fn budgets_default_to_four_shadows_and_sixteen_lights() {
    assert_eq!(ShadowBudget::default().max_casters, 4);
    assert_eq!(LightBudget::default().max_lights, 16);
}

#[test]
fn a_budget_changes_only_what_differs() {
    let lights = vec![
        light_at(1, true, 3.0),
        light_at(2, false, 1.0),
        light_at(3, true, 2.0),
        light_at(4, true, 4.0),
    ];
    let mut budget = ShadowBudget::new(2);
    // Light 2 is authored off, so the two kept are 3 (at 2 m) and 1 (at 3 m); light 4 goes off.
    assert_eq!(
        budget.apply(5, &viewed(), &lights),
        vec![None, None, None, Some(false)]
    );
}

#[test]
fn a_settled_budget_asks_for_nothing_more() {
    let mut lights = vec![
        light_at(1, true, 9.0),
        light_at(2, true, 1.0),
        light_at(3, true, 4.0),
        light_at(4, true, 2.0),
        light_at(5, true, 3.0),
    ];
    let mut budget = LightBudget::new(3);
    let changes = budget.apply(1, &viewed(), &lights);
    assert_eq!(changes, vec![Some(false), None, Some(false), None, None]);
    make(&mut lights, &changes);
    assert_eq!(budget.apply(1, &viewed(), &lights), vec![None; 5]);
    assert_eq!(lights.iter().filter(|l| l.on).count(), 3);
}

#[test]
fn lights_as_near_as_each_other_go_in_the_order_seen() {
    let lights = vec![
        light_at(1, true, 2.0),
        light_at(2, true, 2.0),
        light_at(3, true, 2.0),
    ];
    let mut budget = ShadowBudget::new(2);
    assert_eq!(budget.apply(0, &viewed(), &lights), vec![None, None, Some(false)]);
}

#[test]
fn a_budget_of_zero_turns_every_candidate_off() {
    let lights = vec![light_at(1, true, 2.0), light_at(2, false, 1.0)];
    let mut budget = ShadowBudget::new(0);
    assert_eq!(budget.apply(0, &viewed(), &lights), vec![Some(false), None]);
}

#[test]
fn a_budget_larger_than_the_scene_restores_every_light() {
    let mut lights = vec![light_at(1, true, 1.0), light_at(2, true, 2.0)];
    let mut budget = LightBudget::new(1);
    let changes = budget.apply(0, &viewed(), &lights);
    make(&mut lights, &changes);
    assert!(!lights[1].on);
    budget.max_lights = 10;
    assert_eq!(budget.apply(0, &viewed(), &lights), vec![None, Some(true)]);
}

#[test]
fn each_scene_keeps_its_own_settings() {
    // The same node handle in two scenes is two lights.
    let mut budget = ShadowBudget::new(5);
    assert_eq!(budget.apply(1, &viewed(), &vec![light_at(7, false, 1.0)]), vec![None]);
    assert_eq!(budget.apply(2, &viewed(), &vec![light_at(7, true, 1.0)]), vec![None]);
    // Scene 2's light, now off, is restored: it was authored on there.
    assert_eq!(budget.apply(2, &viewed(), &vec![light_at(7, false, 1.0)]), vec![Some(true)]);
    // Scene 1's light was authored off, and is left so.
    assert_eq!(budget.apply(1, &viewed(), &vec![light_at(7, false, 1.0)]), vec![None]);
}

#[test]
fn forgotten_scenes_start_over() {
    let mut lights = vec![light_at(1, true, 1.0), light_at(2, true, 2.0)];
    let mut budget = ShadowBudget::new(1);
    let changes = budget.apply(3, &viewed(), &lights);
    make(&mut lights, &changes);
    assert!(!lights[1].on);

    // Scene 4 is alive and scene 3 is not: what was remembered of scene 3 goes.
    budget.forget_missing(|scene| scene == 4);
    budget.max_casters = 2;
    // Light 2 is off now, and that is what is remembered of it anew.
    assert_eq!(budget.apply(3, &viewed(), &lights), vec![None, None]);
}

#[test]
fn live_scenes_are_remembered() {
    let mut lights = vec![light_at(1, true, 1.0), light_at(2, true, 2.0)];
    let mut budget = LightBudget::new(1);
    let changes = budget.apply(3, &viewed(), &lights);
    make(&mut lights, &changes);
    budget.forget_missing(|scene| scene == 3);
    budget.max_lights = 2;
    assert_eq!(budget.apply(3, &viewed(), &lights), vec![None, Some(true)]);
}

#[test]
fn the_viewpoint_is_the_first_visible_camera() {
    let nodes = vec![
        NodeSeen {
            is_camera: false,
            visible: true,
        },
        NodeSeen {
            is_camera: true,
            visible: false,
        },
        NodeSeen {
            is_camera: true,
            visible: true,
        },
        NodeSeen {
            is_camera: true,
            visible: true,
        },
    ];
    assert_eq!(viewpoint_of(&nodes), Some(2));
    assert_eq!(viewpoint_of(&nodes[..2].to_vec()), None);
    assert_eq!(viewpoint_of(&Vec::new()), None);
}

#[test]
fn distance_keys_order_as_total_cmp_does() {
    let values = [
        f32::NEG_INFINITY,
        -3.5,
        -0.0,
        0.0,
        1e-30,
        0.25,
        1.0,
        2500.0,
        f32::INFINITY,
        f32::NAN,
    ];
    for a in values {
        for b in values {
            let keys = distance_key(a.to_bits()).cmp(&distance_key(b.to_bits()));
            assert_eq!(keys, a.total_cmp(&b), "{a} against {b}");
        }
    }
    assert_eq!(distance_key(0), 0x8000_0000);
    assert_eq!(distance_key(0x8000_0000), 0x7fff_ffff);
    assert_eq!(distance_key(0xffff_ffff), 0);
}

#[test]
fn a_cloned_budget_remembers_the_same_settings() {
    let mut lights = vec![light_at(1, true, 1.0), light_at(2, true, 2.0)];
    let mut budget = ShadowBudget::new(1);
    let changes = budget.apply(0, &viewed(), &lights);
    make(&mut lights, &changes);
    let mut copy = budget.clone();
    assert_eq!(copy.max_casters, 1);
    copy.max_casters = 2;
    // The copy knows light 2 was authored with shadows, and gives them back.
    assert_eq!(copy.apply(0, &viewed(), &lights), vec![None, Some(true)]);
}

#[test]
fn a_scene_nobody_looks_at_is_left_alone() {
    let hidden_camera = vec![
        NodeSeen {
            is_camera: true,
            visible: false,
        },
        NodeSeen {
            is_camera: false,
            visible: true,
        },
    ];
    let mut lights = vec![light_at(1, true, 1.0), light_at(2, true, 2.0)];
    let mut budget = ShadowBudget::new(1);
    assert_eq!(budget.apply(0, &hidden_camera, &lights), vec![None, None]);
    assert_eq!(budget.apply(0, &Vec::new(), &lights), vec![None, None]);
    assert_eq!(budget, ShadowBudget::new(1), "nothing remembered");

    // Nothing was remembered: light 2, off by now, is seen off for the first time once the scene
    // is looked at, and stays off.
    lights[1].on = false;
    assert_eq!(budget.apply(0, &viewed(), &lights), vec![None, None]);
}

#[test]
fn budgets_compare_by_size_and_memory() {
    let lights = vec![light_at(1, true, 1.0)];
    let mut a = LightBudget::new(2);
    let mut b = LightBudget::new(2);
    assert_eq!(a, b);
    a.apply(0, &viewed(), &lights);
    assert_ne!(a, b);
    b.apply(0, &viewed(), &lights);
    assert_eq!(a, b);
    b.max_lights = 3;
    assert_ne!(a, b);
    assert_eq!(a.clone(), a);
}
