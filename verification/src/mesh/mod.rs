//! Indexed polygon meshes: vertices, edges and faces that refer to vertices
//! by index. The floating-point vertex attributes and face normals live in
//! the generic slots and are computed by the implementor of [`MeshGeometry`].
pub mod bmesh;
pub mod bmesh_build;
pub mod bmesh_extrude;
pub mod bmesh_ops;
pub mod edit;
pub mod primitives;

use vstd::prelude::*;

verus! {

/// The floating-point side of a [`Mesh`]. The index code calls these and
/// assumes nothing about their results.
pub trait MeshGeometry {
    /// A point in space.
    type Position;
    /// Per-vertex attributes (position, normal, uv, colour).
    type VertAttrs;
    /// A face normal.
    type Normal;

    /// Attributes of a fresh vertex at `position`.
    fn vert_attrs(position: Self::Position) -> Self::VertAttrs;

    /// The position a vertex stands at.
    fn position_of(vert: &Self::VertAttrs) -> Self::Position;

    /// Normal of the triangle through three vertices.
    fn triangle_normal(a: &Self::VertAttrs, b: &Self::VertAttrs, c: &Self::VertAttrs) -> Self::Normal;

    /// The normal used when no triangle is given (the up axis).
    fn up_normal() -> Self::Normal;
}

/// Selection state of a mesh element.
#[derive(Clone, Copy, Debug, PartialEq, Eq, Structural)]
pub enum SelectState {
    Unselected,
    Hover,
    Selected,
}

impl Default for SelectState {
    fn default() -> (s: Self)
        ensures
            s == SelectState::Unselected,
    {
        SelectState::Unselected
    }
}

/// A vertex: its attributes and selection.
pub struct Vert<A> {
    pub attrs: A,
    pub select: SelectState,
}

/// An edge between two vertices, with the faces that use it.
#[derive(Clone, Debug)]
pub struct Edge {
    pub vert_ids: [u32; 2],
    pub face_ids: Vec<u32>,
    pub select: SelectState,
}

/// A polygon given by vertex indices, in order.
pub struct Face<N> {
    pub vertex_ids: Vec<u32>,
    pub normal: N,
    pub select: SelectState,
}

/// An indexed polygon mesh.
pub struct Mesh<G: MeshGeometry> {
    pub vertices: Vec<Vert<G::VertAttrs>>,
    pub edges: Vec<Edge>,
    pub faces: Vec<Face<G::Normal>>,
    pub name: String,
}

/// The vertex indices of the triangles `1..m` of the fan around corner 0 of
/// a polygon: triangle `i` is corners `0, i, i + 1`.
pub open spec fn fan_upto(ids: Seq<u32>, m: int) -> Seq<u32>
    decreases m,
{
    if m <= 1 {
        Seq::empty()
    } else {
        fan_upto(ids, m - 1) + seq![ids[0], ids[m - 1], ids[m]]
    }
}

/// The vertex indices of a polygon's triangle fan (none for fewer than three corners).
pub open spec fn fan_indices(ids: Seq<u32>) -> Seq<u32> {
    fan_upto(ids, ids.len() - 1)
}

/// A fan has three indices per triangle.
pub proof fn lemma_fan_len(ids: Seq<u32>, m: int)
    ensures
        fan_upto(ids, m).len() == if m <= 1 {
            0
        } else {
            3 * (m - 1)
        },
    decreases m,
{
    if m > 1 {
        lemma_fan_len(ids, m - 1);
    }
}

/// Number of triangles in the fans of polygons with the given corner counts
/// (each counts its corners minus two).
pub open spec fn sum_minus_two(lens: Seq<int>) -> int
    decreases lens.len(),
{
    if lens.len() == 0 {
        0
    } else {
        sum_minus_two(lens.drop_last()) + (lens.last() - 2)
    }
}

impl<G: MeshGeometry> Mesh<G> {
    /// The triangle fans of the first `n` faces, in order.
    pub open spec fn fans_upto(self, n: int) -> Seq<u32>
        decreases n,
    {
        if n <= 0 {
            Seq::empty()
        } else {
            self.fans_upto(n - 1) + fan_indices(self.faces@[n - 1].vertex_ids@)
        }
    }

    /// The vertex indices of all faces' triangle fans, three per triangle.
    pub open spec fn spec_index_buffer(self) -> Seq<u32> {
        self.fans_upto(self.faces@.len() as int)
    }

    /// The corner counts of the faces.
    pub open spec fn face_lens(self) -> Seq<int> {
        self.faces@.map_values(|f: Face<G::Normal>| f.vertex_ids@.len() as int)
    }

    proof fn lemma_fans_len(self, n: int)
        requires
            0 <= n <= self.faces@.len(),
            forall|f: int| 0 <= f < self.faces@.len() ==> (#[trigger] self.faces@[f]).vertex_ids@.len() >= 2,
        ensures
            self.fans_upto(n).len() == 3 * sum_minus_two(self.face_lens().take(n)),
        decreases n,
    {
        if n > 0 {
            self.lemma_fans_len(n - 1);
            let ids = self.faces@[n - 1].vertex_ids@;
            lemma_fan_len(ids, ids.len() - 1);
            assert(self.face_lens().take(n).drop_last() =~= self.face_lens().take(n - 1));
            assert(self.face_lens().take(n).last() == ids.len());
        } else {
            assert(self.face_lens().take(0) =~= Seq::<int>::empty());
        }
    }

    /// The index buffer holds three indices for every triangle counted by
    /// the triangle count: each face of `k >= 2` corners gives `k - 2`
    /// triangles.
    pub proof fn law_index_buffer_len(self)
        requires
            forall|f: int| 0 <= f < self.faces@.len() ==> (#[trigger] self.faces@[f]).vertex_ids@.len() >= 2,
        ensures
            self.spec_index_buffer().len() == 3 * sum_minus_two(self.face_lens()),
    {
        self.lemma_fans_len(self.faces@.len() as int);
        assert(self.face_lens().take(self.faces@.len() as int) =~= self.face_lens());
    }

    pub fn new() -> (m: Self)
        ensures
            m.vertices@.len() == 0,
            m.edges@.len() == 0,
            m.faces@.len() == 0,
            m.name@ == Seq::<char>::empty(),
    {
        Mesh { vertices: Vec::new(), edges: Vec::new(), faces: Vec::new(), name: String::new() }
    }

    /// Whether `a` are attributes the geometry gives a fresh vertex at `p`.
    pub open spec fn attrs_at(p: G::Position, a: G::VertAttrs) -> bool {
        call_ensures(G::vert_attrs, (p,), a)
    }

    /// Whether `p` is the position the geometry reads from attributes `a`.
    pub open spec fn position_in(a: G::VertAttrs, p: G::Position) -> bool {
        call_ensures(G::position_of, (&a,), p)
    }

    /// Whether `a` are the attributes of a fresh vertex at the position of a
    /// vertex with attributes `src`.
    pub open spec fn attrs_copied(src: G::VertAttrs, a: G::VertAttrs) -> bool {
        exists|p: G::Position| #[trigger] Self::position_in(src, p) && Self::attrs_at(p, a)
    }

    /// Appends an unselected vertex at `pos`; returns its index.
    pub fn add_vertex(&mut self, pos: G::Position) -> (id: u32)
        requires
            old(self).vertices@.len() < u32::MAX,
        ensures
            id == old(self).vertices@.len(),
            Self::attrs_at(pos, final(self).vertices@.last().attrs),
            final(self).vertices@.len() == old(self).vertices@.len() + 1,
            final(self).vertices@.drop_last() == old(self).vertices@,
            final(self).vertices@.last().select == SelectState::Unselected,
            *final(self) == (Mesh { vertices: final(self).vertices, ..*old(self) }),
    {
        let id = self.vertices.len() as u32;
        self.vertices.push(Vert { attrs: G::vert_attrs(pos), select: SelectState::Unselected });
        proof {
            assert(self.vertices@.drop_last() =~= old(self).vertices@);
        }
        id
    }

    /// Appends an unselected edge from `v0` to `v1` used by no face; returns its index.
    pub fn add_edge(&mut self, v0: u32, v1: u32) -> (id: u32)
        requires
            old(self).edges@.len() < u32::MAX,
        ensures
            id == old(self).edges@.len(),
            final(self).edges@.len() == old(self).edges@.len() + 1,
            final(self).edges@.drop_last() == old(self).edges@,
            final(self).edges@.last().vert_ids == [v0, v1],
            final(self).edges@.last().face_ids@ == Seq::<u32>::empty(),
            final(self).edges@.last().select == SelectState::Unselected,
            *final(self) == (Mesh { edges: final(self).edges, ..*old(self) }),
    {
        let id = self.edges.len() as u32;
        self.edges.push(Edge { vert_ids: [v0, v1], face_ids: Vec::new(), select: SelectState::Unselected });
        proof {
            assert(self.edges@.drop_last() =~= old(self).edges@);
        }
        id
    }

    /// Whether the normal of a face through `vert_ids` can be computed: it
    /// reads the first three vertices when there are that many.
    pub open spec fn normal_readable(self, vert_ids: Seq<u32>) -> bool {
        vert_ids.len() >= 3 ==> {
            &&& vert_ids[0] < self.vertices@.len()
            &&& vert_ids[1] < self.vertices@.len()
            &&& vert_ids[2] < self.vertices@.len()
        }
    }

    /// Whether `n` is a normal the geometry gives for a face through
    /// `vert_ids`: what its triangle normal returns for the attributes of the
    /// first three vertices, or what its up normal returns for fewer than
    /// three vertices.
    pub open spec fn is_face_normal(self, vert_ids: Seq<u32>, n: G::Normal) -> bool {
        if vert_ids.len() < 3 {
            call_ensures(G::up_normal, (), n)
        } else {
            call_ensures(
                G::triangle_normal,
                (
                    &self.vertices@[vert_ids[0] as int].attrs,
                    &self.vertices@[vert_ids[1] as int].attrs,
                    &self.vertices@[vert_ids[2] as int].attrs,
                ),
                n,
            )
        }
    }

    /// The normal of the triangle through the first three given vertices, or
    /// the up normal for fewer than three.
    pub fn calculate_face_normal(&self, vert_ids: &[u32]) -> (n: G::Normal)
        requires
            self.normal_readable(vert_ids@),
        ensures
            self.is_face_normal(vert_ids@, n),
    {
        if vert_ids.len() < 3 {
            return G::up_normal();
        }
        let v0 = &self.vertices[vert_ids[0] as usize].attrs;
        let v1 = &self.vertices[vert_ids[1] as usize].attrs;
        let v2 = &self.vertices[vert_ids[2] as usize].attrs;
        G::triangle_normal(v0, v1, v2)
    }

    /// Appends an unselected face through `vert_ids` with its computed
    /// normal; returns its index.
    pub fn add_face(&mut self, vert_ids: Vec<u32>) -> (id: u32)
        requires
            old(self).faces@.len() < u32::MAX,
            old(self).normal_readable(vert_ids@),
        ensures
            id == old(self).faces@.len(),
            final(self).faces@.len() == old(self).faces@.len() + 1,
            final(self).faces@.drop_last() == old(self).faces@,
            final(self).faces@.last().vertex_ids@ == vert_ids@,
            final(self).faces@.last().select == SelectState::Unselected,
            old(self).is_face_normal(vert_ids@, final(self).faces@.last().normal),
            *final(self) == (Mesh { faces: final(self).faces, ..*old(self) }),
    {
        let id = self.faces.len() as u32;
        let normal = self.calculate_face_normal(vert_ids.as_slice());
        self.faces.push(Face { vertex_ids: vert_ids, normal, select: SelectState::Unselected });
        proof {
            assert(self.faces@.drop_last() =~= old(self).faces@);
        }
        id
    }

    /// Triangle fan indices of one polygon.
    fn push_fan(indices: &mut Vec<u32>, ids: &Vec<u32>)
        ensures
            final(indices)@ == old(indices)@ + fan_indices(ids@),
    {
        let n = ids.len();
        if n < 3 {
            proof {
                assert(fan_indices(ids@) =~= Seq::<u32>::empty());
                assert(old(indices)@ + Seq::<u32>::empty() =~= old(indices)@);
            }
            return;
        }
        let mut i: usize = 1;
        while i < n - 1
            invariant
                n == ids@.len(),
                n >= 3,
                1 <= i <= n - 1,
                indices@ == old(indices)@ + fan_upto(ids@, i as int),
            decreases n - 1 - i,
        {
            indices.push(ids[0]);
            indices.push(ids[i]);
            indices.push(ids[i + 1]);
            proof {
                assert(indices@ =~= old(indices)@ + fan_upto(ids@, i + 1));
            }
            i = i + 1;
        }
    }

    /// Three vertex indices per triangle, fanning out every face from its
    /// first corner. Every face needs at least one corner.
    pub fn to_index_buffer(&self) -> (indices: Vec<u32>)
        requires
            forall|f: int| 0 <= f < self.faces@.len() ==> (#[trigger] self.faces@[f]).vertex_ids@.len() >= 1,
        ensures
            indices@ == self.spec_index_buffer(),
    {
        self.triangle_indices()
    }

    /// Three vertex indices per triangle, fanning out every face with at
    /// least three corners from its first corner.
    pub fn triangle_indices(&self) -> (indices: Vec<u32>)
        ensures
            indices@ == self.spec_index_buffer(),
    {
        let mut indices: Vec<u32> = Vec::new();
        let mut f: usize = 0;
        while f < self.faces.len()
            invariant
                f <= self.faces@.len(),
                indices@ == self.fans_upto(f as int),
            decreases self.faces@.len() - f,
        {
            Self::push_fan(&mut indices, &self.faces[f].vertex_ids);
            f = f + 1;
        }
        indices
    }

    /// Number of triangles in the faces' fans: every face counts its corners
    /// minus two. Every face needs at least two corners and the total must
    /// fit in `u32`.
    pub fn triangle_count(&self) -> (n: u32)
        requires
            forall|f: int|
                0 <= f < self.faces@.len() ==> 2 <= (#[trigger] self.faces@[f]).vertex_ids@.len() <= u32::MAX,
            forall|m: int| 0 <= m <= self.faces@.len() ==> #[trigger] sum_minus_two(self.face_lens().take(m)) <= u32::MAX,
        ensures
            n == sum_minus_two(self.face_lens()),
    {
        let mut n: u32 = 0;
        let mut f: usize = 0;
        while f < self.faces.len()
            invariant
                f <= self.faces@.len(),
                forall|g: int|
                    0 <= g < self.faces@.len() ==> 2 <= (#[trigger] self.faces@[g]).vertex_ids@.len() <= u32::MAX,
                forall|m: int| 0 <= m <= self.faces@.len() ==> #[trigger] sum_minus_two(self.face_lens().take(m)) <= u32::MAX,
                n == sum_minus_two(self.face_lens().take(f as int)),
            decreases self.faces@.len() - f,
        {
            proof {
                assert(self.face_lens().take(f + 1).drop_last() =~= self.face_lens().take(f as int));
                assert(self.faces@[f as int] == self.faces@[f as int]);
                assert(sum_minus_two(self.face_lens().take(f + 1)) <= u32::MAX);
                assert(self.face_lens().take(f + 1).last() == self.faces@[f as int].vertex_ids@.len());
            }
            let len = self.faces[f].vertex_ids.len();
            n = n + (len as u32 - 2);
            f = f + 1;
        }
        proof {
            assert(self.face_lens().take(f as int) =~= self.face_lens());
        }
        n
    }
}

} // verus!
