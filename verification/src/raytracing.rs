//! Shadows traced against the scene's geometry: the parts that work on plain values.
//!
//! - The triangles of every shadow-casting surface go into one index buffer, each surface's
//!   indices moved past the vertices of the surfaces before it ([`append_triangles`]).
//! - The acceleration structure is rebuilt whenever the scene, or the set of its meshes, changes;
//!   which it was built from is kept as a key ([`scene_key`]).
//! - The renderer hands the tracer a scissor box with its origin at the bottom left of the
//!   viewport; the tracer wants it from the top left, in unsigned pixels ([`scissor_from_top`]).

use fxhash::FxHasher64;
use std::hash::{Hash, Hasher};
use vstd::prelude::*;

verus! {

/// The indices of `triangles`, each moved up by `base`, in order.
pub open spec fn rebased(base: u32, triangles: Seq<[u32; 3]>) -> Seq<u32>
    decreases triangles.len(),
{
    if triangles.len() == 0 {
        Seq::empty()
    } else {
        let t = triangles.last();
        rebased(base, triangles.drop_last()) + seq![
            (base + t[0]) as u32,
            (base + t[1]) as u32,
            (base + t[2]) as u32,
        ]
    }
}

/// The first vertex of a surface whose vertices follow `coordinates` coordinates, three to a
/// vertex, already gathered; as a 32-bit index, which is what the tracer takes.
pub open spec fn first_vertex(coordinates: usize) -> u32 {
    (coordinates / 3) as u32
}

/// Every index moves up by exactly the number of vertices gathered before the surface - the
/// whole count, not some part of its bits - and the triangles keep their order: index `k` of
/// triangle `i` lands at `3 * i + k`.
pub proof fn triangles_move_past_the_vertices_before(coordinates: usize, triangles: Seq<[u32; 3]>)
    ensures
        rebased(first_vertex(coordinates), triangles).len() == 3 * triangles.len(),
        forall|i: int, k: int|
            0 <= i < triangles.len() && 0 <= k < 3 && coordinates / 3 + triangles[i][k] <= u32::MAX
                ==> #[trigger] rebased(first_vertex(coordinates), triangles)[3 * i + k] == coordinates
                / 3 + triangles[i][k],
    decreases triangles.len(),
{
    if triangles.len() > 0 {
        let rest = triangles.drop_last();
        triangles_move_past_the_vertices_before(coordinates, rest);
        let n = triangles.len() - 1;
        assert forall|i: int, k: int|
            0 <= i < triangles.len() && 0 <= k < 3 && coordinates / 3 + triangles[i][k] <= u32::MAX
                implies #[trigger] rebased(first_vertex(coordinates), triangles)[3 * i + k]
                == coordinates / 3 + triangles[i][k] by {
            assert(coordinates / 3 <= u32::MAX);
            assert(first_vertex(coordinates) == coordinates / 3);
            if i < n {
                assert(rest[i] == triangles[i]);
                assert(rebased(first_vertex(coordinates), triangles)[3 * i + k] == rebased(
                    first_vertex(coordinates),
                    rest,
                )[3 * i + k]);
            }
        }
    }
}

/// Adds the triangles of a surface to the index buffer, each index moved past the vertices
/// gathered before the surface's own: `coordinates` is how many vertex coordinates (three to a
/// vertex) the vertex buffer held before this surface's were added.
pub fn append_triangles(indices: &mut Vec<u32>, coordinates: usize, triangles: &Vec<[u32; 3]>)
    requires
        forall|i: int, k: int|
            0 <= i < triangles.len() && 0 <= k < 3 ==> first_vertex(coordinates) + #[trigger] triangles@[i][k]
                <= u32::MAX,
    ensures
        final(indices)@ == old(indices)@ + rebased(first_vertex(coordinates), triangles@),
        final(indices)@.len() == old(indices)@.len() + 3 * triangles@.len(),
        forall|i: int| 0 <= i < old(indices)@.len() ==> #[trigger] final(indices)@[i] == old(indices)@[i],
        forall|i: int, k: int|
            0 <= i < triangles.len() && 0 <= k < 3 && coordinates / 3 + triangles@[i][k]
                <= u32::MAX ==> #[trigger] final(indices)@[old(indices)@.len() + 3 * i + k]
                == coordinates / 3 + triangles@[i][k],
{
    proof {
        triangles_move_past_the_vertices_before(coordinates, triangles@);
    }
    let base = #[verifier::truncate] ((coordinates / 3) as u32);
    let n = triangles.len();
    let mut i: usize = 0;
    while i < n
        invariant
            i <= n,
            n == triangles.len(),
            base == first_vertex(coordinates),
            indices@ == old(indices)@ + rebased(base, triangles@.take(i as int)),
            forall|i: int, k: int|
                0 <= i < triangles.len() && 0 <= k < 3 ==> base + #[trigger] triangles@[i][k]
                    <= u32::MAX,
        decreases n - i,
    {
        let triangle = triangles[i];
        assert(triangle@[0] == triangles@[i as int][0]);
        assert(triangle@[1] == triangles@[i as int][1]);
        assert(triangle@[2] == triangles@[i as int][2]);
        indices.push(base + triangle[0]);
        indices.push(base + triangle[1]);
        indices.push(base + triangle[2]);
        assert(triangles@.take(i + 1).drop_last() =~= triangles@.take(i as int));
        assert(indices@ =~= old(indices)@ + rebased(base, triangles@.take(i + 1)));
        i += 1;
    }
    assert(triangles@.take(n as int) =~= triangles@);
    let ghost start = old(indices)@.len();
    assert forall|i: int, k: int|
        0 <= i < triangles.len() && 0 <= k < 3 && coordinates / 3 + triangles@[i][k]
            <= u32::MAX implies #[trigger] indices@[start + 3 * i + k] == coordinates / 3
        + triangles@[i][k] by {
        assert(indices@[start + 3 * i + k] == rebased(base, triangles@)[3 * i + k]);
    }
}

/// The `FxHasher64` digest of a sequence of mesh handles, each given as (index, generation) and fed
/// to the hasher in turn, index then generation: the two parts of an engine handle.
pub uninterp spec fn mesh_set_hash(meshes: Seq<(u32, u32)>) -> u64;

/// Feeds `meshes` in turn to a fresh `fxhash::FxHasher64` (`Hash::hash_slice`, which hashes each
/// element and no length) and returns `finish()`. The hasher has no seed, so the digest depends on
/// the handles alone; what it is, is not stated beyond that.
#[verifier::external_body]
fn hash_meshes(meshes: &[(u32, u32)]) -> (digest: u64)
    ensures
        digest == mesh_set_hash(meshes@),
{
    let mut hasher = FxHasher64::default();
    Hash::hash_slice(meshes, &mut hasher);
    hasher.finish()
}

/// Which scene, with which meshes, an acceleration structure is built from: the scene's handle
/// (packed into an integer), and one number for its mesh handles - each as (index, generation) -
/// in the order they were found. Counting the meshes is not enough: a level torn down and replaced
/// by another can have as many meshes as the last, in other places.
pub fn scene_key(scene: u64, meshes: &Vec<(u32, u32)>) -> (key: (u64, u64))
    ensures
        key == (scene, mesh_set_hash(meshes@)),
{
    (scene, hash_meshes(meshes.as_slice()))
}

/// The larger of `v` and 0.
pub open spec fn clamp_to_zero(v: int) -> int {
    if v < 0 {
        0
    } else {
        v
    }
}

/// The scissor box `(x, y, width, height)`, measured from the bottom left of a viewport
/// `viewport_height` pixels high, as the tracer takes it: measured from the top left, each
/// coordinate at least 0.
pub fn scissor_from_top(viewport_height: i32, x: i32, y: i32, width: i32, height: i32) -> (box_: [u32; 4])
    requires
        i32::MIN <= viewport_height - y - height <= i32::MAX,
        i32::MIN <= viewport_height - y <= i32::MAX,
    ensures
        box_@[0] as int == clamp_to_zero(x as int),
        box_@[1] as int == clamp_to_zero(viewport_height - y - height),
        box_@[2] as int == clamp_to_zero(width as int),
        box_@[3] as int == clamp_to_zero(height as int),
{
    let top = viewport_height - y - height;
    [
        if x < 0 { 0 } else { x as u32 },
        if top < 0 { 0 } else { top as u32 },
        if width < 0 { 0 } else { width as u32 },
        if height < 0 { 0 } else { height as u32 },
    ]
}

} // verus!
