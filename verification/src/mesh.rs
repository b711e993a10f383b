//! Meshes: flat runs of vertices, three to a triangle.

use vstd::prelude::*;

verus! {

/// The fan of a face: the triangles that join its first corner to every
/// pair of neighbouring corners after it, laid out flat. A face of fewer
/// than three corners has none.
pub open spec fn fan<T>(face: Seq<T>) -> Seq<T> {
    if face.len() < 3 {
        Seq::empty()
    } else {
        Seq::new(
            (3 * (face.len() - 2)) as nat,
            |i: int| if i % 3 == 0 { face[0] } else { face[i / 3 + i % 3] },
        )
    }
}

/// Splits a face of any number of corners into triangles, by fan from its
/// first corner: triangle `k` has the corners `0`, `k + 1` and `k + 2`.
pub fn triangulate<T: Copy>(face: &[T]) -> (corners: Vec<T>)
    ensures
        corners@ == fan(face@),
{
    let mut corners: Vec<T> = Vec::new();
    if face.len() < 3 {
        return corners;
    }
    let mut k: usize = 0;
    while k < face.len() - 2
        invariant
            face@.len() >= 3,
            k <= face@.len() - 2,
            corners@.len() == 3 * k,
            forall|i: int| 0 <= i < 3 * k ==> corners@[i] == fan(face@)[i],
        decreases face@.len() - k,
    {
        corners.push(face[0]);
        corners.push(face[k + 1]);
        corners.push(face[k + 2]);
        k = k + 1;
    }
    assert(corners@ =~= fan(face@));
    corners
}

} // verus!
