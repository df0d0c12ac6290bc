//! Budgets for lights and their shadows.
//!
//! Every point light that draws shadows re-renders the scene into six cube map faces each frame,
//! and a spot light once; and a deferred renderer pays for every light whose volume is on screen.
//! [`ShadowBudget`] keeps the shadows of the lights nearest the camera and turns the rest off;
//! [`LightBudget`] does the same for the lights themselves. Lights the game set up without
//! shadows (or switched off) are left alone: each budget remembers every light's authored
//! setting the first time it sees the light, and only ever ranks the lights whose authored setting
//! is on.
//!
//! The engine side reads the scene: which node is the viewpoint ([`viewpoint_of`]), and for every
//! point and spot light its node, its current setting and its distance from the viewpoint, as an
//! order key ([`distance_key`]). The budget answers, light by light, what to change.

use crate::authored::AuthoredMap;
use vstd::prelude::*;
use vstd::relations::injective_on;
use vstd::std_specs::cmp::PartialEqSpecImpl;
use vstd::set_lib::{lemma_int_range, lemma_map_size, lemma_subset_equality, set_int_range};

verus! {

/// A point or spot light of the scene, as a budget sees it.
#[derive(Debug, Clone, Copy, PartialEq, Eq, Structural)]
pub struct LightSeen {
    /// The light's node handle, packed into an integer.
    pub node: u64,
    /// The light's own setting as it stands: whether it casts shadows (for [`ShadowBudget`]) or
    /// whether it is visible (for [`LightBudget`]).
    pub on: bool,
    /// How far it is from the viewpoint: the [`distance_key`] of its squared distance.
    pub distance: u32,
}

/// A node of the scene, as far as finding the viewpoint goes.
#[derive(Debug, Clone, Copy, PartialEq, Eq, Structural)]
pub struct NodeSeen {
    pub is_camera: bool,
    /// Whether the node and all its ancestors are visible.
    pub visible: bool,
}

/// How many of `p(0)`, ..., `p(n - 1)` hold.
pub open spec fn count_upto(p: spec_fn(int) -> bool, n: int) -> nat
    decreases n,
{
    if n <= 0 {
        0
    } else {
        count_upto(p, n - 1) + (if p(n - 1) { 1nat } else { 0nat })
    }
}

/// Whether light `j` is ranked ahead of light `i`: it is a candidate, and it is nearer, or as
/// near and seen first. This is the order a stable sort by distance leaves the candidates in.
pub open spec fn ahead(lights: Seq<LightSeen>, cands: Seq<bool>, j: int, i: int) -> bool {
    &&& cands[j]
    &&& (lights[j].distance < lights[i].distance || (lights[j].distance == lights[i].distance
        && j < i))
}

/// Light `i`'s place among the candidates, nearest first, counting from 0.
pub open spec fn rank(lights: Seq<LightSeen>, cands: Seq<bool>, i: int) -> nat {
    count_upto(|j: int| ahead(lights, cands, j, i), lights.len() as int)
}

/// What a budget of `max` does to light `i`: a light that is not a candidate is left alone; a
/// candidate is wanted on when fewer than `max` candidates are ranked ahead of it, and is set so
/// when its setting is not that already.
pub open spec fn change(lights: Seq<LightSeen>, cands: Seq<bool>, max: nat, i: int) -> Option<
    bool,
> {
    if !cands[i] {
        None
    } else {
        let wanted = rank(lights, cands, i) < max;
        if lights[i].on == wanted {
            None
        } else {
            Some(wanted)
        }
    }
}

/// [`change`] for every light.
pub open spec fn budget_changes(lights: Seq<LightSeen>, cands: Seq<bool>, max: nat) -> Seq<
    Option<bool>,
> {
    Seq::new(lights.len(), |i: int| change(lights, cands, max, i))
}

/// Which lights are candidates: those whose remembered setting is on.
pub open spec fn candidates(authored: Map<(u64, u64), bool>, scene: u64, lights: Seq<LightSeen>) -> Seq<
    bool,
> {
    Seq::new(lights.len(), |i: int| authored[(scene, lights[i].node)])
}

/// The remembered settings after seeing `lights` of `scene`, in order: a light already
/// remembered keeps its entry, a new one is remembered with its setting as it stands.
pub open spec fn remembered(authored: Map<(u64, u64), bool>, scene: u64, lights: Seq<LightSeen>) -> Map<
    (u64, u64),
    bool,
>
    decreases lights.len(),
{
    if lights.len() == 0 {
        authored
    } else {
        let before = remembered(authored, scene, lights.drop_last());
        let key = (scene, lights.last().node);
        if before.contains_key(key) {
            before
        } else {
            before.insert(key, lights.last().on)
        }
    }
}

/// The lights with the changes made.
pub open spec fn applied(lights: Seq<LightSeen>, changes: Seq<Option<bool>>) -> Seq<LightSeen> {
    Seq::new(
        lights.len(),
        |i: int|
            LightSeen {
                node: lights[i].node,
                on: match changes[i] {
                    Some(v) => v,
                    None => lights[i].on,
                },
                distance: lights[i].distance,
            },
    )
}

/// The signed position of a 32-bit float's bit pattern in IEEE 754's total order, which is the
/// order `f32::total_cmp` uses: non-negative patterns by their bits, negative ones below them,
/// the larger the magnitude the lower.
pub open spec fn total_order_value(bits: u32) -> int {
    if bits >= 0x8000_0000 {
        -((bits - 0x8000_0000) as int) - 1
    } else {
        bits as int
    }
}

/// Whether a node is where the scene is looked at from.
pub open spec fn is_viewer(node: NodeSeen) -> bool {
    node.is_camera && node.visible
}

// ---------------------------------------------------------------------------------------------
// Counting.

proof fn lemma_count_mono(p: spec_fn(int) -> bool, q: spec_fn(int) -> bool, n: int)
    requires
        forall|k: int| 0 <= k < n && #[trigger] p(k) ==> q(k),
    ensures
        count_upto(p, n) <= count_upto(q, n),
    decreases n,
{
    if n > 0 {
        lemma_count_mono(p, q, n - 1);
    }
}

proof fn lemma_count_strict(p: spec_fn(int) -> bool, q: spec_fn(int) -> bool, n: int, w: int)
    requires
        forall|k: int| 0 <= k < n && #[trigger] p(k) ==> q(k),
        0 <= w < n,
        q(w),
        !p(w),
    ensures
        count_upto(p, n) < count_upto(q, n),
    decreases n,
{
    if w == n - 1 {
        lemma_count_mono(p, q, n - 1);
    } else {
        lemma_count_strict(p, q, n - 1, w);
    }
}

proof fn lemma_count_ext(p: spec_fn(int) -> bool, q: spec_fn(int) -> bool, n: int)
    requires
        forall|k: int| 0 <= k < n ==> #[trigger] p(k) == q(k),
    ensures
        count_upto(p, n) == count_upto(q, n),
    decreases n,
{
    if n > 0 {
        lemma_count_ext(p, q, n - 1);
    }
}

/// A count is the size of the set of integers it counts.
proof fn lemma_count_is_len(p: spec_fn(int) -> bool, n: int)
    requires
        n >= 0,
    ensures
        set_int_range(0, n).filter(p).finite(),
        count_upto(p, n) == set_int_range(0, n).filter(p).len(),
    decreases n,
{
    if n == 0 {
        assert(set_int_range(0, n).filter(p) =~= Set::empty());
    } else {
        lemma_count_is_len(p, n - 1);
        let before = set_int_range(0, n - 1).filter(p);
        if p(n - 1) {
            assert(set_int_range(0, n).filter(p) =~= before.insert(n - 1));
        } else {
            assert(set_int_range(0, n).filter(p) =~= before);
        }
    }
}

/// A candidate ranked ahead of another has the lower rank.
proof fn lemma_ahead_ranks_lower(lights: Seq<LightSeen>, cands: Seq<bool>, j: int, i: int)
    requires
        cands.len() == lights.len(),
        0 <= i < lights.len(),
        0 <= j < lights.len(),
        ahead(lights, cands, j, i),
    ensures
        rank(lights, cands, j) < rank(lights, cands, i),
{
    let p = |k: int| ahead(lights, cands, k, j);
    let q = |k: int| ahead(lights, cands, k, i);
    lemma_count_strict(p, q, lights.len() as int, j);
}

/// A candidate's rank is below the number of candidates.
proof fn lemma_rank_below_candidates(lights: Seq<LightSeen>, cands: Seq<bool>, i: int)
    requires
        cands.len() == lights.len(),
        0 <= i < lights.len(),
        cands[i],
    ensures
        rank(lights, cands, i) < count_upto(|k: int| cands[k], lights.len() as int),
{
    let p = |k: int| ahead(lights, cands, k, i);
    let q = |k: int| cands[k];
    lemma_count_strict(p, q, lights.len() as int, i);
}

// ---------------------------------------------------------------------------------------------
// Laws.

/// The nearest lights win: of two candidates, one that the budget keeps and one that it does
/// not, the one kept is no farther from the viewpoint.
pub proof fn nearest_lights_are_kept(
    lights: Seq<LightSeen>,
    cands: Seq<bool>,
    max: nat,
    kept: int,
    dropped: int,
)
    requires
        cands.len() == lights.len(),
        0 <= kept < lights.len(),
        0 <= dropped < lights.len(),
        cands[kept],
        cands[dropped],
        rank(lights, cands, kept) < max,
        rank(lights, cands, dropped) >= max,
    ensures
        lights[kept].distance <= lights[dropped].distance,
{
    if lights[dropped].distance < lights[kept].distance {
        lemma_ahead_ranks_lower(lights, cands, dropped, kept);
    }
}

/// The budget is used up exactly: of the candidates, as many as the budget allows are kept -
/// `max` of them, or all when there are fewer.
pub proof fn budget_is_filled(lights: Seq<LightSeen>, cands: Seq<bool>, max: nat)
    requires
        cands.len() == lights.len(),
    ensures
        ({
            let total = count_upto(|i: int| cands[i], lights.len() as int);
            count_upto(|i: int| cands[i] && rank(lights, cands, i) < max, lights.len() as int) == if max
                < total {
                max
            } else {
                total
            }
        }),
{
    let n = lights.len() as int;
    let is_cand = |i: int| cands[i];
    let is_kept = |i: int| cands[i] && rank(lights, cands, i) < max;
    let f = |i: int| rank(lights, cands, i) as int;
    let total = count_upto(is_cand, n);
    let limit: int = if max < total {
        max as int
    } else {
        total as int
    };
    lemma_count_is_len(is_cand, n);
    lemma_count_is_len(is_kept, n);
    let cs = set_int_range(0, n).filter(is_cand);
    let kept = set_int_range(0, n).filter(is_kept);

    assert forall|a: int, b: int| cs.contains(a) && cs.contains(b) && #[trigger] f(a) == #[trigger] f(
        b,
    ) implies a == b by {
        if a != b {
            if ahead(lights, cands, a, b) {
                lemma_ahead_ranks_lower(lights, cands, a, b);
            } else {
                assert(ahead(lights, cands, b, a));
                lemma_ahead_ranks_lower(lights, cands, b, a);
            }
        }
    }
    assert(injective_on(f, cs));

    // The ranks of the candidates are exactly 0, 1, ..., total - 1.
    let ranks = cs.map(f);
    lemma_map_size(cs, ranks, f);
    lemma_int_range(0, total as int);
    assert forall|r: int| ranks.contains(r) implies set_int_range(0, total as int).contains(r) by {
        let i = choose|i: int| cs.contains(i) && f(i) == r;
        lemma_rank_below_candidates(lights, cands, i);
    }
    lemma_subset_equality(ranks, set_int_range(0, total as int));

    // The ranks of the kept ones are exactly 0, 1, ..., limit - 1.
    assert(kept.subset_of(cs));
    assert(injective_on(f, kept));
    assert forall|r: int| #[trigger] kept.map(f).contains(r) <==> set_int_range(0, limit).contains(
        r,
    ) by {
        if kept.map(f).contains(r) {
            let i = choose|i: int| kept.contains(i) && f(i) == r;
            lemma_rank_below_candidates(lights, cands, i);
        }
        if set_int_range(0, limit).contains(r) {
            assert(ranks.contains(r));
            let i = choose|i: int| cs.contains(i) && f(i) == r;
            assert(kept.contains(i));
            assert(kept.map(f).contains(f(i)));
        }
    }
    assert(kept.map(f) =~= set_int_range(0, limit));
    lemma_map_size(kept, set_int_range(0, limit), f);
    lemma_int_range(0, limit);
}


/// What a budget leaves the lights at: each candidate on exactly when fewer than `max`
/// candidates rank ahead of it - so a light turned off while far is restored once it is among the
/// nearest again - and every other light as it was: a light the game set up off is left off.
pub proof fn budget_outcome(lights: Seq<LightSeen>, cands: Seq<bool>, max: nat)
    requires
        cands.len() == lights.len(),
    ensures
        forall|i: int|
            0 <= i < lights.len() ==> (#[trigger] applied(lights, budget_changes(lights, cands, max))[i]).on
                == (if cands[i] {
                rank(lights, cands, i) < max
            } else {
                lights[i].on
            }),
        forall|i: int|
            0 <= i < lights.len() && !cands[i] ==> #[trigger] budget_changes(lights, cands, max)[i]
                is None,
{
}

/// Remembering keeps what was remembered before, and afterwards every light seen is remembered.
pub proof fn remembering_keeps_earlier_settings(
    authored: Map<(u64, u64), bool>,
    scene: u64,
    lights: Seq<LightSeen>,
)
    ensures
        forall|key: (u64, u64)| #[trigger]
            authored.contains_key(key) ==> remembered(authored, scene, lights).contains_key(key)
                && remembered(authored, scene, lights)[key] == authored[key],
        forall|i: int|
            0 <= i < lights.len() ==> remembered(authored, scene, lights).contains_key(
                (scene, #[trigger] lights[i].node),
            ),
        forall|key: (u64, u64)| #[trigger]
            remembered(authored, scene, lights).contains_key(key) ==> authored.contains_key(key)
                || exists|i: int| 0 <= i < lights.len() && key == (scene, lights[i].node),
    decreases lights.len(),
{
    if lights.len() > 0 {
        let rest = lights.drop_last();
        remembering_keeps_earlier_settings(authored, scene, rest);
        assert forall|key: (u64, u64)| #[trigger]
            remembered(authored, scene, lights).contains_key(key) implies authored.contains_key(key)
            || exists|i: int| 0 <= i < lights.len() && key == (scene, lights[i].node) by {
            if !remembered(authored, scene, rest).contains_key(key) {
                assert(key == (scene, lights[lights.len() - 1].node));
            } else if !authored.contains_key(key) {
                let i = choose|i: int| 0 <= i < rest.len() && key == (scene, rest[i].node);
                assert(key == (scene, lights[i].node));
            }
        }
        assert forall|i: int| 0 <= i < lights.len() implies remembered(
            authored,
            scene,
            lights,
        ).contains_key((scene, #[trigger] lights[i].node)) by {
            if i < lights.len() - 1 {
                assert(rest[i] == lights[i]);
            }
        }
    }
}

/// Seeing lights that are all remembered already changes nothing.
proof fn lemma_remembered_when_known(
    authored: Map<(u64, u64), bool>,
    scene: u64,
    lights: Seq<LightSeen>,
)
    requires
        forall|i: int| 0 <= i < lights.len() ==> authored.contains_key((scene, #[trigger] lights[i].node)),
    ensures
        remembered(authored, scene, lights) == authored,
    decreases lights.len(),
{
    if lights.len() > 0 {
        let rest = lights.drop_last();
        assert forall|i: int| 0 <= i < rest.len() implies authored.contains_key(
            (scene, #[trigger] rest[i].node),
        ) by {
            assert(rest[i] == lights[i]);
        }
        lemma_remembered_when_known(authored, scene, rest);
        assert(authored.contains_key((scene, lights[lights.len() - 1].node)));
    }
}

/// A budget settles: once its changes are made, the same lights seen again - same nodes, same
/// distances - call for no change at all, and leave the remembered settings as they were.
pub proof fn budget_settles(
    authored: Map<(u64, u64), bool>,
    scene: u64,
    lights: Seq<LightSeen>,
    max: nat,
)
    requires
        forall|i: int| 0 <= i < lights.len() ==> authored.contains_key((scene, #[trigger] lights[i].node)),
    ensures
        ({
            let cands = candidates(authored, scene, lights);
            let after = applied(lights, budget_changes(lights, cands, max));
            &&& remembered(authored, scene, after) == authored
            &&& candidates(authored, scene, after) == cands
            &&& budget_changes(after, cands, max) == Seq::new(lights.len(), |i: int| None::<bool>)
        }),
{
    let cands = candidates(authored, scene, lights);
    let after = applied(lights, budget_changes(lights, cands, max));
    assert forall|i: int| 0 <= i < after.len() implies authored.contains_key(
        (scene, #[trigger] after[i].node),
    ) by {
        assert(after[i].node == lights[i].node);
    }
    lemma_remembered_when_known(authored, scene, after);
    assert(candidates(authored, scene, after) =~= cands);
    assert forall|i: int| 0 <= i < lights.len() implies rank(after, cands, i) == rank(
        lights,
        cands,
        i,
    ) by {
        lemma_count_ext(
            |j: int| ahead(after, cands, j, i),
            |j: int| ahead(lights, cands, j, i),
            lights.len() as int,
        );
    }
    assert(budget_changes(after, cands, max) =~= Seq::new(lights.len(), |i: int| None::<bool>));
}

// ---------------------------------------------------------------------------------------------
// The scene as the engine side reads it.

/// Where the scene is looked at from: the first node that is a camera and is visible, if any.
pub fn viewpoint_of(nodes: &Vec<NodeSeen>) -> (viewer: Option<usize>)
    ensures
        match viewer {
            Some(i) => i < nodes.len() && is_viewer(nodes@[i as int]) && forall|j: int|
                0 <= j < i ==> !is_viewer(#[trigger] nodes@[j]),
            None => forall|j: int| 0 <= j < nodes.len() ==> !is_viewer(#[trigger] nodes@[j]),
        },
        match viewer {
            Some(i) => nodes@[i as int].is_camera && nodes@[i as int].visible && forall|j: int|
                0 <= j < i ==> !(#[trigger] nodes@[j].is_camera && nodes@[j].visible),
            None => forall|j: int|
                0 <= j < nodes.len() ==> !(#[trigger] nodes@[j].is_camera && nodes@[j].visible),
        },
{
    let mut i: usize = 0;
    while i < nodes.len()
        invariant
            i <= nodes.len(),
            forall|j: int| 0 <= j < i ==> !is_viewer(#[trigger] nodes@[j]),
        decreases nodes.len() - i,
    {
        if nodes[i].is_camera && nodes[i].visible {
            return Some(i);
        }
        i += 1;
    }
    None
}

/// The viewpoint is a camera, and a visible one: a node is taken as the viewer exactly when it is
/// both, whatever else the scene holds.
pub proof fn a_viewer_is_a_visible_camera(node: NodeSeen)
    ensures
        is_viewer(node) <==> node.is_camera && node.visible,
        !node.is_camera ==> !is_viewer(node),
        !node.visible ==> !is_viewer(node),
{
}

/// A scene counts as unlooked-at exactly when none of its nodes is a visible camera; hidden
/// nodes, and cameras that are hidden, do not make it looked at.
pub proof fn unviewed_means_no_visible_camera(nodes: Seq<NodeSeen>)
    ensures
        unviewed(nodes) <==> forall|j: int|
            0 <= j < nodes.len() ==> !(#[trigger] nodes[j].is_camera && nodes[j].visible),
{
}

/// Distance keys follow `f32::total_cmp`: for bit patterns `a` and `b` with `a` before `b` in
/// IEEE 754's total order - a negative pattern before a non-negative one; among non-negative
/// patterns, the smaller bits first; among negative ones, the larger bits first - `a`'s order
/// value is the smaller, and so is its key. Distinct patterns never tie.
pub proof fn distance_keys_follow_the_total_order(a: u32, b: u32)
    ensures
        ((a >= 0x8000_0000 && b < 0x8000_0000) || (a < 0x8000_0000 && b < 0x8000_0000 && a < b)
            || (a >= 0x8000_0000 && b >= 0x8000_0000 && a > b)) ==> total_order_value(a)
            < total_order_value(b),
        a != b ==> total_order_value(a) != total_order_value(b),
        0 <= total_order_value(a) + 0x8000_0000 <= u32::MAX,
{
}

/// The order key of a squared distance, given the bits of the `f32`: keys compare as the floats
/// do under `f32::total_cmp`, which is how the lights are sorted.
pub fn distance_key(bits: u32) -> (key: u32)
    ensures
        key as int == total_order_value(bits) + 0x8000_0000,
        bits < 0x8000_0000 ==> key as int == bits + 0x8000_0000,
        bits >= 0x8000_0000 ==> key as int == 0xffff_ffff - bits,
{
    if bits >= 0x8000_0000 {
        assert(!bits == 0xffff_ffffu32 - bits) by (bit_vector);
        !bits
    } else {
        assert(bits < 0x8000_0000u32 ==> bits | 0x8000_0000u32 == bits + 0x8000_0000u32) by (
        bit_vector);
        bits | 0x8000_0000
    }
}

// ---------------------------------------------------------------------------------------------
// The budgets.

/// Remembers the lights' settings and says, light by light, what a budget of `max` changes.
fn pick(authored: &mut AuthoredMap, max: usize, scene: u64, lights: &Vec<LightSeen>) -> (changes:
    Vec<Option<bool>>)
    ensures
        final(authored)@ == remembered(old(authored)@, scene, lights@),
        changes@ == budget_changes(
            lights@,
            candidates(final(authored)@, scene, lights@),
            max as nat,
        ),
{
    let n = lights.len();
    let mut cands: Vec<bool> = Vec::new();
    let mut i: usize = 0;
    while i < n
        invariant
            i <= n,
            n == lights.len(),
            cands.len() == i,
            authored@ == remembered(old(authored)@, scene, lights@.take(i as int)),
            forall|k: int|
                0 <= k < i ==> authored@.contains_key((scene, #[trigger] lights@[k].node))
                    && authored@[(scene, lights@[k].node)] == cands@[k],
        decreases n - i,
    {
        let light = lights[i];
        let on = authored.remember((scene, light.node), light.on);
        cands.push(on);
        assert(lights@.take(i + 1).drop_last() =~= lights@.take(i as int));
        i += 1;
    }
    assert(lights@.take(n as int) =~= lights@);
    let ghost final_map = authored@;
    let ghost cs = candidates(final_map, scene, lights@);
    assert(cands@ =~= cs);

    let mut changes: Vec<Option<bool>> = Vec::new();
    let mut i: usize = 0;
    while i < n
        invariant
            i <= n,
            n == lights.len(),
            cands@ == cs,
            cands.len() == n,
            changes.len() == i,
            forall|k: int|
                0 <= k < i ==> #[trigger] changes@[k] == change(lights@, cs, max as nat, k),
        decreases n - i,
    {
        if !cands[i] {
            changes.push(None);
        } else {
            let mut nearer: usize = 0;
            let mut j: usize = 0;
            while j < n
                invariant
                    j <= n,
                    i < n,
                    n == lights.len(),
                    cands@ == cs,
                    cands.len() == n,
                    nearer <= j,
                    nearer == count_upto(|k: int| ahead(lights@, cs, k, i as int), j as int),
                decreases n - j,
            {
                if cands[j] && (lights[j].distance < lights[i].distance || (lights[j].distance
                    == lights[i].distance && j < i)) {
                    nearer += 1;
                }
                j += 1;
            }
            let wanted = nearer < max;
            if lights[i].on != wanted {
                changes.push(Some(wanted));
            } else {
                changes.push(None);
            }
        }
        i += 1;
    }
    assert(changes@ =~= budget_changes(lights@, cs, max as nat));
    changes
}


/// Whether nothing in the scene looks at it: no node is a visible camera.
pub open spec fn unviewed(nodes: Seq<NodeSeen>) -> bool {
    forall|j: int| 0 <= j < nodes.len() ==> !is_viewer(#[trigger] nodes[j])
}

/// [`pick`] for a scene somebody looks at; a scene nobody looks at is left alone: nothing is
/// remembered, and nothing changes.
fn pick_in_view(
    authored: &mut AuthoredMap,
    max: usize,
    scene: u64,
    nodes: &Vec<NodeSeen>,
    lights: &Vec<LightSeen>,
) -> (changes: Vec<Option<bool>>)
    ensures
        unviewed(nodes@) ==> final(authored)@ == old(authored)@ && changes@ == Seq::new(
            lights@.len(),
            |i: int| None::<bool>,
        ),
        !unviewed(nodes@) ==> final(authored)@ == remembered(old(authored)@, scene, lights@)
            && changes@ == budget_changes(
            lights@,
            candidates(final(authored)@, scene, lights@),
            max as nat,
        ),
{
    match viewpoint_of(nodes) {
        Some(_) => pick(authored, max, scene, lights),
        None => {
            let mut changes: Vec<Option<bool>> = Vec::new();
            let mut i: usize = 0;
            while i < lights.len()
                invariant
                    i <= lights.len(),
                    changes@ == Seq::new(i as nat, |k: int| None::<bool>),
                decreases lights.len() - i,
            {
                changes.push(None);
                assert(changes@ =~= Seq::new((i + 1) as nat, |k: int| None::<bool>));
                i += 1;
            }
            changes
        },
    }
}

/// Forgets the lights of every scene for which `is_alive` says no, asking once per light.
fn forget<F: Fn(u64) -> bool>(authored: &mut AuthoredMap, is_alive: F)
    requires
        forall|scene: u64| is_alive.requires((scene,)),
    ensures
        forall|key: (u64, u64)| #[trigger]
            final(authored)@.contains_key(key) ==> old(authored)@.contains_key(key)
                && final(authored)@[key] == old(authored)@[key] && is_alive.ensures((key.0,), true),
        forall|key: (u64, u64)|
            #![trigger old(authored)@.contains_key(key)]
            #![trigger final(authored)@.contains_key(key)]
            old(authored)@.contains_key(key) && !final(authored)@.contains_key(key)
                ==> is_alive.ensures((key.0,), false),
{
    let keys = authored.keys();
    let ghost start = authored@;
    let n = keys.len();
    let mut i: usize = 0;
    while i < n
        invariant
            i <= n,
            n == keys.len(),
            keys@.no_duplicates(),
            keys@.to_set() == start.dom(),
            start == old(authored)@,
            forall|key: (u64, u64)| #[trigger]
                authored@.contains_key(key) ==> start.contains_key(key) && authored@[key]
                    == start[key],
            forall|k: int| i <= k < n ==> authored@.contains_key(#[trigger] keys@[k]),
            forall|k: int|
                0 <= k < i ==> (authored@.contains_key(#[trigger] keys@[k]) ==> is_alive.ensures(
                    (keys@[k].0,),
                    true,
                )) && (!authored@.contains_key(keys@[k]) ==> is_alive.ensures((keys@[k].0,), false)),
            forall|scene: u64| is_alive.requires((scene,)),
        decreases n - i,
    {
        let key = keys[i];
        let alive = is_alive(key.0);
        if !alive {
            authored.remove(key);
        }
        assert forall|k: int| i < k < n implies authored@.contains_key(#[trigger] keys@[k]) by {
            assert(keys@[k] != keys@[i as int]);
        }
        assert(forall|k: int| 0 <= k < i ==> #[trigger] keys@[k] != keys@[i as int]);
        i += 1;
    }
    assert forall|key: (u64, u64)|
        #![trigger old(authored)@.contains_key(key)]
        #![trigger authored@.contains_key(key)]
        old(authored)@.contains_key(key) && !authored@.contains_key(key) implies is_alive.ensures(
        (key.0,),
        false,
    ) by {
        assert(keys@.to_set().contains(key));
        let k = choose|k: int| 0 <= k < n && keys@[k] == key;
    }
    assert forall|key: (u64, u64)| #[trigger]
        authored@.contains_key(key) implies is_alive.ensures((key.0,), true) by {
        assert(start.contains_key(key));
        assert(keys@.to_set().contains(key));
        let k = choose|k: int| 0 <= k < n && keys@[k] == key;
    }
}

/// How many lights may draw shadow maps at once.
///
/// This keeps the shadows of the lights nearest the camera and turns the rest off, which is far
/// less noticeable than it sounds: the shadow of a distant lamp is small, and its light is faint
/// by then anyway. Lights the game set up without shadows are left alone.
#[derive(Debug)]
pub struct ShadowBudget {
    /// How many nearest lights keep their shadows.
    pub max_casters: usize,
    /// The lights' authored shadow settings, remembered so they can be restored. Only this crate
    /// can make or change such a map.
    pub authored: AuthoredMap,
}

impl ShadowBudget {
    /// How many nearest lights keep their shadows ([`ShadowBudget::max_casters`]).
    pub open spec fn budget(&self) -> usize {
        self.max_casters
    }

    /// The lights' authored shadow settings, by (scene, node).
    pub open spec fn authored_settings(&self) -> Map<(u64, u64), bool> {
        self.authored@
    }

    pub fn new(max_casters: usize) -> (budget: Self)
        ensures
            budget.budget() == max_casters,
            budget.authored_settings().dom().is_empty(),
    {
        ShadowBudget { max_casters, authored: AuthoredMap::new() }
    }

    /// Picks which lights of scene `scene` draw shadows this frame. `lights` are its point and
    /// spot lights, `on` being whether each casts shadows now; the answer says, light by light,
    /// what to set its shadows to, where they are to change.
    /// `nodes` are the scene's nodes, to find whether anything looks at it: a scene nobody looks
    /// at is left alone - nothing is remembered of it, and nothing changes.
    pub fn apply(&mut self, scene: u64, nodes: &Vec<NodeSeen>, lights: &Vec<LightSeen>) -> (changes:
        Vec<Option<bool>>)
        ensures
            final(self).budget() == old(self).budget(),
            unviewed(nodes@) ==> final(self).authored_settings() == old(self).authored_settings()
                && changes@ == Seq::new(lights@.len(), |i: int| None::<bool>),
            !unviewed(nodes@) ==> final(self).authored_settings() == remembered(
                old(self).authored_settings(),
                scene,
                lights@,
            ) && changes@ == budget_changes(
                lights@,
                candidates(final(self).authored_settings(), scene, lights@),
                old(self).budget() as nat,
            ),
    {
        pick_in_view(&mut self.authored, self.max_casters, scene, nodes, lights)
    }

    /// Forgets lights of scenes that no longer exist: a light's setting stays remembered exactly
    /// when `is_alive` says its scene is there.
    pub fn forget_missing<F: Fn(u64) -> bool>(&mut self, is_alive: F)
        requires
            forall|scene: u64| is_alive.requires((scene,)),
        ensures
            final(self).budget() == old(self).budget(),
            forall|key: (u64, u64)| #[trigger]
                final(self).authored_settings().contains_key(key) ==> old(self).authored_settings().contains_key(key) && final(self).authored_settings()[key]
                    == old(self).authored_settings()[key] && is_alive.ensures((key.0,), true),
            forall|key: (u64, u64)|
                #![trigger old(self).authored_settings().contains_key(key)]
                #![trigger final(self).authored_settings().contains_key(key)]
                old(self).authored_settings().contains_key(key) && !final(self).authored_settings().contains_key(key) ==> is_alive.ensures((key.0,), false),
    {
        forget(&mut self.authored, is_alive);
    }
}

impl Clone for ShadowBudget {
    /// A budget of the same size, remembering the same settings.
    fn clone(&self) -> (copy: Self)
        ensures
            copy.budget() == self.budget(),
            copy.authored_settings() == self.authored_settings(),
    {
        ShadowBudget { max_casters: self.max_casters, authored: self.authored.duplicate() }
    }
}

impl PartialEq for ShadowBudget {
    /// Two budgets are equal when they are of the same size and remember the same settings.
    fn eq(&self, other: &Self) -> (same: bool) {
        self.max_casters == other.max_casters && self.authored.same_entries(&other.authored)
    }
}

impl PartialEqSpecImpl for ShadowBudget {
    open spec fn obeys_eq_spec() -> bool {
        true
    }

    open spec fn eq_spec(&self, other: &Self) -> bool {
        self.budget() == other.budget() && self.authored_settings() == other.authored_settings()
    }
}

impl Default for ShadowBudget {
    /// The shadows of the four nearest lights.
    fn default() -> (budget: Self)
        ensures
            budget.budget() == 4,
            budget.authored_settings().dom().is_empty(),
    {
        Self::new(4)
    }
}

/// How many lights may light the scene at once.
///
/// A deferred renderer pays for every light whose volume is on screen, whether or not anything of
/// it can be seen. This keeps the lights nearest the camera and switches the rest off. It is a
/// blunt instrument - a distant lamp in plain sight down a long corridor can wink out - so the
/// budget should be generous enough to cover what a player can actually see at once.
#[derive(Debug)]
pub struct LightBudget {
    /// How many nearest lights stay lit.
    pub max_lights: usize,
    /// The lights' authored visibility, remembered so it can be restored. Only this crate can make
    /// or change such a map.
    pub authored: AuthoredMap,
}

impl LightBudget {
    /// How many nearest lights stay lit ([`LightBudget::max_lights`]).
    pub open spec fn budget(&self) -> usize {
        self.max_lights
    }

    /// The lights' authored visibility, by (scene, node).
    pub open spec fn authored_settings(&self) -> Map<(u64, u64), bool> {
        self.authored@
    }

    pub fn new(max_lights: usize) -> (budget: Self)
        ensures
            budget.budget() == max_lights,
            budget.authored_settings().dom().is_empty(),
    {
        LightBudget { max_lights, authored: AuthoredMap::new() }
    }

    /// Picks which lights of scene `scene` are lit this frame. `lights` are its point and spot
    /// lights, `on` being whether each is visible now; the answer says, light by light, what to
    /// set its visibility to, where it is to change.
    /// `nodes` are the scene's nodes, to find whether anything looks at it: a scene nobody looks
    /// at is left alone - nothing is remembered of it, and nothing changes.
    pub fn apply(&mut self, scene: u64, nodes: &Vec<NodeSeen>, lights: &Vec<LightSeen>) -> (changes:
        Vec<Option<bool>>)
        ensures
            final(self).budget() == old(self).budget(),
            unviewed(nodes@) ==> final(self).authored_settings() == old(self).authored_settings()
                && changes@ == Seq::new(lights@.len(), |i: int| None::<bool>),
            !unviewed(nodes@) ==> final(self).authored_settings() == remembered(
                old(self).authored_settings(),
                scene,
                lights@,
            ) && changes@ == budget_changes(
                lights@,
                candidates(final(self).authored_settings(), scene, lights@),
                old(self).budget() as nat,
            ),
    {
        pick_in_view(&mut self.authored, self.max_lights, scene, nodes, lights)
    }

    /// Forgets lights of scenes that no longer exist: a light's visibility stays remembered
    /// exactly when `is_alive` says its scene is there.
    pub fn forget_missing<F: Fn(u64) -> bool>(&mut self, is_alive: F)
        requires
            forall|scene: u64| is_alive.requires((scene,)),
        ensures
            final(self).budget() == old(self).budget(),
            forall|key: (u64, u64)| #[trigger]
                final(self).authored_settings().contains_key(key) ==> old(self).authored_settings().contains_key(key) && final(self).authored_settings()[key]
                    == old(self).authored_settings()[key] && is_alive.ensures((key.0,), true),
            forall|key: (u64, u64)|
                #![trigger old(self).authored_settings().contains_key(key)]
                #![trigger final(self).authored_settings().contains_key(key)]
                old(self).authored_settings().contains_key(key) && !final(self).authored_settings().contains_key(key) ==> is_alive.ensures((key.0,), false),
    {
        forget(&mut self.authored, is_alive);
    }
}

impl Clone for LightBudget {
    /// A budget of the same size, remembering the same settings.
    fn clone(&self) -> (copy: Self)
        ensures
            copy.budget() == self.budget(),
            copy.authored_settings() == self.authored_settings(),
    {
        LightBudget { max_lights: self.max_lights, authored: self.authored.duplicate() }
    }
}

impl PartialEq for LightBudget {
    /// Two budgets are equal when they are of the same size and remember the same settings.
    fn eq(&self, other: &Self) -> (same: bool) {
        self.max_lights == other.max_lights && self.authored.same_entries(&other.authored)
    }
}

impl PartialEqSpecImpl for LightBudget {
    open spec fn obeys_eq_spec() -> bool {
        true
    }

    open spec fn eq_spec(&self, other: &Self) -> bool {
        self.budget() == other.budget() && self.authored_settings() == other.authored_settings()
    }
}

impl Default for LightBudget {
    /// The sixteen nearest lights.
    fn default() -> (budget: Self)
        ensures
            budget.budget() == 16,
            budget.authored_settings().dom().is_empty(),
    {
        Self::new(16)
    }
}

} // verus!
