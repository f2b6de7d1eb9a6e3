//! Triangle-fan topology for the randomized polygon.
//!
//! The polygon is a closed triangle fan around a hub vertex (vertex 0) with
//! `segments` rim vertices (vertices 1 ..= segments). Triangle 0 is
//! `(0, 1, segments)`, closing the seam, and triangle t for t >= 1 is
//! `(0, t + 1, t)`. The host computes the floating-point vertex positions and
//! UV coordinates; this module owns the integer index buffer and its shape.

use vstd::prelude::*;
use crate::rng::random_u32_in;

verus! {

/// Smallest segment count the generator draws (inclusive).
pub const SEGMENTS_MIN: u32 = 9;

/// Largest segment count the generator draws (exclusive).
pub const SEGMENTS_END: u32 = 18;

/// The second vertex of triangle `t` of a fan with `segments` rim vertices.
pub open spec fn fan_second(segments: int, t: int) -> int {
    if t == 0 {
        1
    } else {
        t + 1
    }
}

/// The third vertex of triangle `t` of a fan with `segments` rim vertices.
pub open spec fn fan_third(segments: int, t: int) -> int {
    if t == 0 {
        segments
    } else {
        t
    }
}

/// The triple of vertices that triangle `t` of the fan must reference:
/// the hub, then the rim vertex entered, then the rim vertex left.
pub open spec fn spec_fan_triangle(segments: int, t: int) -> (int, int, int) {
    (0, fan_second(segments, t), fan_third(segments, t))
}

/// The triple of vertices that triangle `t` of the index buffer `idx`
/// actually references.
pub open spec fn fan_triangle(idx: Seq<u32>, t: int) -> (int, int, int) {
    (idx[3 * t] as int, idx[3 * t + 1] as int, idx[3 * t + 2] as int)
}

/// `idx` is exactly the index buffer of a closed triangle fan with
/// `segments` triangles: `3 * segments` entries, grouped in triples, the
/// t-th triple being `spec_fan_triangle(segments, t)`.
pub open spec fn is_fan_index_buffer(idx: Seq<u32>, segments: int) -> bool {
    &&& idx.len() == 3 * segments
    &&& forall|t: int|
        0 <= t < segments ==> #[trigger] fan_triangle(idx, t) == spec_fan_triangle(segments, t)
}

/// Every entry of `idx` references an existing vertex of a mesh with
/// `vertex_count` vertices.
pub open spec fn indices_in_bounds(idx: Seq<u32>, vertex_count: int) -> bool {
    forall|k: int| 0 <= k < idx.len() ==> (#[trigger] idx[k]) < vertex_count
}

/// Builds the index buffer of a closed triangle fan with `segments`
/// triangles: `[0, 1, segments]`, then `[0, t + 1, t]` for each t >= 1.
pub fn fan_indices(segments: u32) -> (idx: Vec<u32>)
    requires
        1 <= segments < u32::MAX,
    ensures
        is_fan_index_buffer(idx@, segments as int),
        indices_in_bounds(idx@, segments as int + 1),
{
    let mut idx: Vec<u32> = Vec::new();
    idx.push(0);
    idx.push(1);
    idx.push(segments);
    proof {
        assert(fan_triangle(idx@, 0) == spec_fan_triangle(segments as int, 0));
    }
    let mut i: u32 = 2;
    while i <= segments
        invariant
            2 <= i <= segments + 1,
            segments < u32::MAX,
            idx@.len() == 3 * (i - 1),
            forall|t: int|
                0 <= t < i - 1 ==> #[trigger] fan_triangle(idx@, t) == spec_fan_triangle(
                    segments as int,
                    t,
                ),
            forall|k: int| 0 <= k < idx@.len() ==> (#[trigger] idx@[k]) < segments + 1,
        decreases segments + 1 - i,
    {
        let ghost prev = idx@;
        idx.push(0);
        idx.push(i);
        idx.push(i - 1);
        proof {
            assert forall|t: int|
                0 <= t < i implies #[trigger] fan_triangle(idx@, t) == spec_fan_triangle(
                segments as int,
                t,
            ) by {
                if t < i - 1 {
                    assert(idx@[3 * t] == prev[3 * t]);
                    assert(idx@[3 * t + 1] == prev[3 * t + 1]);
                    assert(idx@[3 * t + 2] == prev[3 * t + 2]);
                    assert(fan_triangle(prev, t) == spec_fan_triangle(segments as int, t));
                } else {
                    assert(idx@[3 * t] == 0);
                    assert(idx@[3 * t + 1] == i);
                    assert(idx@[3 * t + 2] == i - 1);
                }
            }
        }
        i = i + 1;
    }
    idx
}

/// The integer skeleton of one generated polygon: how many rim segments it
/// has and the triangle-fan index buffer that ties them together.
pub struct FanTopology {
    /// Number of rim segments (and of triangles) of the fan.
    pub segments: u32,
    /// Index buffer: `3 * segments` entries, grouped in triples.
    pub indices: Vec<u32>,
}

impl FanTopology {
    /// The topology is a well-formed closed fan whose indices all reference
    /// existing vertices.
    pub open spec fn wf(self) -> bool {
        &&& 1 <= self.segments
        &&& is_fan_index_buffer(self.indices@, self.segments as int)
        &&& indices_in_bounds(self.indices@, self.vertex_count())
    }

    /// The mesh built on this topology has one hub vertex plus one vertex
    /// per rim segment.
    pub open spec fn vertex_count(self) -> int {
        self.segments as int + 1
    }

    /// UV coordinates pair one-to-one with vertex positions.
    pub open spec fn uv_count(self) -> int {
        self.vertex_count()
    }

    /// The fan has one triangle per rim segment.
    pub open spec fn triangle_count(self) -> int {
        self.segments as int
    }
}

/// Some triangle of a fan with `segments` triangles enters rim vertex `v`,
/// that is, has `v` as its second vertex.
pub open spec fn rim_entered(segments: int, v: int) -> bool {
    exists|t: int| 0 <= t < segments && #[trigger] fan_second(segments, t) == v
}

/// Some triangle of a fan with `segments` triangles leaves rim vertex `v`,
/// that is, has `v` as its third vertex.
pub open spec fn rim_left(segments: int, v: int) -> bool {
    exists|t: int| 0 <= t < segments && #[trigger] fan_third(segments, t) == v
}

/// Law: the fan is closed around the rim with no gap and no duplicate edge.
/// Triangle 0 is `(0, 1, segments)` and triangle t for t >= 1 is
/// `(0, t + 1, t)`, so every triangle contains the hub, every rim vertex is
/// entered by some triangle and left by some triangle, and no two distinct
/// triangles enter, or leave, the same rim vertex.
pub proof fn lemma_fan_closure(idx: Seq<u32>, segments: int)
    requires
        is_fan_index_buffer(idx, segments),
        1 <= segments,
    ensures
        forall|t: int| 0 <= t < segments ==> (#[trigger] fan_triangle(idx, t)).0 == 0,
        fan_triangle(idx, 0) == (0int, 1int, segments),
        forall|t: int| 1 <= t < segments ==> #[trigger] fan_triangle(idx, t) == (0int, t + 1, t),
        forall|v: int| 1 <= v <= segments ==> #[trigger] rim_entered(segments, v),
        forall|v: int| 1 <= v <= segments ==> #[trigger] rim_left(segments, v),
        forall|t1: int, t2: int|
            0 <= t1 < segments && 0 <= t2 < segments && t1 != t2 ==> #[trigger] fan_second(
                segments,
                t1,
            ) != #[trigger] fan_second(segments, t2),
        forall|t1: int, t2: int|
            0 <= t1 < segments && 0 <= t2 < segments && t1 != t2 ==> #[trigger] fan_third(
                segments,
                t1,
            ) != #[trigger] fan_third(segments, t2),
{
    assert forall|v: int| 1 <= v <= segments implies #[trigger] rim_entered(segments, v) by {
        if v == 1 {
            assert(fan_second(segments, 0) == v);
        } else {
            assert(fan_second(segments, v - 1) == v);
        }
    }
    assert forall|v: int| 1 <= v <= segments implies #[trigger] rim_left(segments, v) by {
        if v == segments {
            assert(fan_third(segments, 0) == v);
        } else {
            assert(fan_third(segments, v) == v);
        }
    }
}

/// Draws a segment count uniformly from `[SEGMENTS_MIN, SEGMENTS_END)` and
/// builds the closed triangle-fan topology for it.
pub fn generate_fan() -> (fan: FanTopology)
    ensures
        fan.wf(),
        SEGMENTS_MIN <= fan.segments < SEGMENTS_END,
{
    let segments = random_u32_in(SEGMENTS_MIN, SEGMENTS_END);
    let indices = fan_indices(segments);
    FanTopology { segments, indices }
}

} // verus!
