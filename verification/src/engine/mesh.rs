//! Vertex and index lists of a mesh before they are uploaded to the GPU.
use vstd::prelude::*;

verus! {

/// The index offset that `add` applies: the vertex count, truncated to 32 bits.
pub open spec fn index_offset(vertex_count: nat) -> u32 {
    vertex_count as u32
}

/// `indices`, each raised by `offset`.
pub open spec fn shifted(indices: Seq<u32>, offset: u32) -> Seq<u32> {
    indices.map_values(|i: u32| (i + offset) as u32)
}

/// Every index names one of `vertex_count` vertices.
pub open spec fn indices_in_range(indices: Seq<u32>, vertex_count: nat) -> bool {
    forall|k: int| 0 <= k < indices.len() ==> (#[trigger] indices[k]) < vertex_count
}

/// Vertices and the triangle indices that refer to them.
#[derive(Clone)]
pub struct MeshData<V> {
    pub vertices: Vec<V>,
    pub indices: Vec<u32>,
}

impl<V> MeshData<V> {
    pub fn new() -> (m: Self)
        ensures
            m.vertices@ == Seq::<V>::empty(),
            m.indices@ == Seq::<u32>::empty(),
    {
        Self { vertices: Vec::new(), indices: Vec::new() }
    }

    /// Appends a piece of mesh whose indices count from its own first vertex:
    /// its vertices go after the present ones and its indices are raised by
    /// the present vertex count.
    pub fn add(&mut self, vertices: Vec<V>, indices: Vec<u32>)
        requires
            forall|k: int|
                0 <= k < indices@.len() ==> (#[trigger] indices@[k]) + index_offset(
                    old(self).vertices@.len(),
                ) <= u32::MAX,
        ensures
            final(self).vertices@ == old(self).vertices@ + vertices@,
            final(self).indices@ == old(self).indices@ + shifted(
                indices@,
                index_offset(old(self).vertices@.len()),
            ),
    {
        let index_count = self.vertices.len() as u32;
        let mut indices = indices;
        let ghost initial = indices@;
        let n = indices.len();
        let mut k: usize = 0;
        while k < n
            invariant
                n == initial.len(),
                indices@.len() == n,
                k <= n,
                index_count == index_offset(self.vertices@.len()),
                forall|j: int| 0 <= j < n ==> (#[trigger] initial[j]) + index_count <= u32::MAX,
                forall|j: int| 0 <= j < k ==> #[trigger] indices@[j] == (initial[j] + index_count) as u32,
                forall|j: int| k <= j < n ==> #[trigger] indices@[j] == initial[j],
            decreases n - k,
        {
            let shifted_index = indices[k] + index_count;
            indices.set(k, shifted_index);
            k = k + 1;
        }
        assert(indices@ =~= shifted(initial, index_count));
        let mut vertices = vertices;
        self.vertices.append(&mut vertices);
        self.indices.append(&mut indices);
    }
}

/// Adding a piece whose indices refer to its own vertices to a mesh whose
/// indices refer to its vertices gives a mesh whose indices all refer to its
/// vertices.
pub proof fn law_add_keeps_indices_in_range(
    vertex_count: nat,
    indices: Seq<u32>,
    added_count: nat,
    added: Seq<u32>,
)
    requires
        vertex_count <= u32::MAX,
        indices_in_range(indices, vertex_count),
        indices_in_range(added, added_count),
        forall|k: int| 0 <= k < added.len() ==> (#[trigger] added[k]) + vertex_count <= u32::MAX,
    ensures
        indices_in_range(
            indices + shifted(added, index_offset(vertex_count)),
            vertex_count + added_count,
        ),
{
    assert(index_offset(vertex_count) == vertex_count);
    let all = indices + shifted(added, index_offset(vertex_count));
    assert forall|k: int| 0 <= k < all.len() implies (#[trigger] all[k]) < vertex_count + added_count by {
        if k >= indices.len() {
            let j = k - indices.len();
            assert(added[j] < added_count);
        }
    }
}

} // verus!
