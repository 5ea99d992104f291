//! Index-level mesh edits: joining meshes, separating a vertex selection and
//! triangulating faces.
use vstd::prelude::*;
use super::{Edge, Face, Mesh, MeshGeometry, SelectState, Vert};

verus! {

/// Whether `k` is the first place where `x` occurs in `s`.
pub open spec fn is_first_index(s: Seq<u32>, x: u32, k: int) -> bool {
    &&& 0 <= k < s.len()
    &&& s[k] == x
    &&& forall|j: int| 0 <= j < k ==> s[j] != x
}

/// The first place where `x` occurs in `s` (meaningful when it occurs).
pub open spec fn first_index(s: Seq<u32>, x: u32) -> int {
    choose|k: int| is_first_index(s, x, k)
}

pub proof fn lemma_first_index(s: Seq<u32>, x: u32, k: int)
    requires
        is_first_index(s, x, k),
    ensures
        first_index(s, x) == k,
{
    let c = first_index(s, x);
    assert(is_first_index(s, x, c));
    if c < k {
        assert(s[c] != x);
    }
    if k < c {
        assert(s[k] != x);
    }
}

/// The corners of a face that lie in `sel`, renumbered by their first
/// place in `sel`.
pub open spec fn kept_corners(ids: Seq<u32>, sel: Seq<u32>) -> Seq<u32>
    decreases ids.len(),
{
    if ids.len() == 0 {
        Seq::empty()
    } else {
        let rest = kept_corners(ids.drop_last(), sel);
        if sel.contains(ids.last()) {
            rest.push(first_index(sel, ids.last()) as u32)
        } else {
            rest
        }
    }
}

/// The faces that keep at least three corners in `sel`, renumbered.
pub open spec fn separated_faces(faces: Seq<Seq<u32>>, sel: Seq<u32>) -> Seq<Seq<u32>>
    decreases faces.len(),
{
    if faces.len() == 0 {
        Seq::empty()
    } else {
        let rest = separated_faces(faces.drop_last(), sel);
        let kept = kept_corners(faces.last(), sel);
        if kept.len() >= 3 {
            rest.push(kept)
        } else {
            rest
        }
    }
}

/// The triangles of a face's fan around its first corner (the face itself
/// when it is a triangle, nothing for fewer corners).
pub open spec fn face_triangles(ids: Seq<u32>) -> Seq<Seq<u32>> {
    if ids.len() >= 3 {
        Seq::new((ids.len() - 2) as nat, |i: int| seq![ids[0], ids[i + 1], ids[i + 2]])
    } else {
        Seq::empty()
    }
}

/// The fan triangles of a list of faces, in order.
pub open spec fn all_triangles(faces: Seq<Seq<u32>>) -> Seq<Seq<u32>>
    decreases faces.len(),
{
    if faces.len() == 0 {
        Seq::empty()
    } else {
        all_triangles(faces.drop_last()) + face_triangles(faces.last())
    }
}

impl<G: MeshGeometry> Mesh<G> {
    /// The corner lists of the faces.
    pub open spec fn face_ids(self) -> Seq<Seq<u32>> {
        self.faces@.map_values(|f: Face<G::Normal>| f.vertex_ids@)
    }

    /// Adds one to every index.
    pub open spec fn shifted(ids: Seq<u32>, offset: u32) -> Seq<u32> {
        ids.map_values(|v: u32| (v + offset) as u32)
    }

    fn copy_ids(ids: &Vec<u32>) -> (r: Vec<u32>)
        ensures
            r@ == ids@,
    {
        let mut r: Vec<u32> = Vec::new();
        let mut i: usize = 0;
        while i < ids.len()
            invariant
                i <= ids@.len(),
                r@ == ids@.take(i as int),
            decreases ids@.len() - i,
        {
            r.push(ids[i]);
            proof {
                assert(r@ =~= ids@.take(i + 1));
            }
            i = i + 1;
        }
        proof {
            assert(ids@.take(i as int) =~= ids@);
        }
        r
    }

    /// Appends `other`'s vertices (fresh vertices at the same positions),
    /// edges and faces (with recomputed normals), shifting `other`'s indices
    /// past this mesh's vertices; all of them unselected, edges without faces.
    pub fn append_mesh(&mut self, other: &Mesh<G>)
        requires
            old(self).vertices@.len() + other.vertices@.len() < u32::MAX,
            old(self).edges@.len() + other.edges@.len() < u32::MAX,
            old(self).faces@.len() + other.faces@.len() < u32::MAX,
            forall|e: int|
                0 <= e < other.edges@.len() ==> {
                    &&& (#[trigger] other.edges@[e]).vert_ids[0] + old(self).vertices@.len() <= u32::MAX
                    &&& other.edges@[e].vert_ids[1] + old(self).vertices@.len() <= u32::MAX
                },
            forall|f: int|
                0 <= f < other.faces@.len() ==> {
                    &&& other.normal_readable((#[trigger] other.faces@[f]).vertex_ids@)
                    &&& forall|k: int|
                        0 <= k < other.faces@[f].vertex_ids@.len() ==> #[trigger] other.faces@[f].vertex_ids@[k]
                            + old(self).vertices@.len() <= u32::MAX
                },
        ensures
            final(self).name == old(self).name,
            final(self).vertices@.len() == old(self).vertices@.len() + other.vertices@.len(),
            final(self).vertices@.subrange(0, old(self).vertices@.len() as int) == old(self).vertices@,
            forall|v: int|
                old(self).vertices@.len() <= v < final(self).vertices@.len() ==> (#[trigger] final(self).vertices@[v]).select
                    == SelectState::Unselected,
            forall|v: int|
                0 <= v < other.vertices@.len() ==> Self::attrs_copied(
                    other.vertices@[v].attrs,
                    (#[trigger] final(self).vertices@[old(self).vertices@.len() + v]).attrs,
                ),
            final(self).edges@.len() == old(self).edges@.len() + other.edges@.len(),
            final(self).edges@.subrange(0, old(self).edges@.len() as int) == old(self).edges@,
            forall|e: int|
                0 <= e < other.edges@.len() ==> {
                    let ne = #[trigger] final(self).edges@[old(self).edges@.len() + e];
                    &&& ne.vert_ids[0] == other.edges@[e].vert_ids[0] + old(self).vertices@.len()
                    &&& ne.vert_ids[1] == other.edges@[e].vert_ids[1] + old(self).vertices@.len()
                    &&& ne.face_ids@ == Seq::<u32>::empty()
                    &&& ne.select == SelectState::Unselected
                },
            final(self).faces@.len() == old(self).faces@.len() + other.faces@.len(),
            final(self).faces@.subrange(0, old(self).faces@.len() as int) == old(self).faces@,
            forall|f: int|
                0 <= f < other.faces@.len() ==> {
                    let nf = #[trigger] final(self).faces@[old(self).faces@.len() + f];
                    &&& nf.vertex_ids@ == Self::shifted(other.faces@[f].vertex_ids@, old(self).vertices@.len() as u32)
                    &&& nf.select == SelectState::Unselected
                    &&& final(self).is_face_normal(nf.vertex_ids@, nf.normal)
                },
    {
        let offset = self.vertices.len() as u32;
        let ghost ov = old(self).vertices@.len() as int;
        let ghost oe = old(self).edges@.len() as int;
        let ghost of = old(self).faces@.len() as int;
        let mut i: usize = 0;
        while i < other.vertices.len()
            invariant
                offset == ov,
                ov == old(self).vertices@.len(),
                oe == old(self).edges@.len(),
                of == old(self).faces@.len(),
                ov + other.vertices@.len() < u32::MAX,
                i <= other.vertices@.len(),
                self.vertices@.len() == ov + i,
                self.vertices@.subrange(0, ov) == old(self).vertices@,
                forall|v: int| ov <= v < self.vertices@.len() ==> (#[trigger] self.vertices@[v]).select == SelectState::Unselected,
                forall|v: int| 0 <= v < i ==> Self::attrs_copied(other.vertices@[v].attrs, (#[trigger] self.vertices@[ov + v]).attrs),
                self.edges == old(self).edges,
                self.faces == old(self).faces,
                self.name == old(self).name,
            decreases other.vertices@.len() - i,
        {
            let ghost before = self.vertices@;
            let p = G::position_of(&other.vertices[i].attrs);
            proof {
                assert(Self::position_in(other.vertices@[i as int].attrs, p));
            }
            self.add_vertex(p);
            proof {
                assert forall|v: int| 0 <= v < i + 1 implies Self::attrs_copied(
                    other.vertices@[v].attrs,
                    (#[trigger] self.vertices@[ov + v]).attrs,
                ) by {
                    if v < i {
                        assert(self.vertices@.drop_last()[ov + v] == self.vertices@[ov + v]);
                    } else {
                        assert(Self::position_in(other.vertices@[v].attrs, p));
                    }
                }
                assert(self.vertices@.subrange(0, ov) =~= before.subrange(0, ov));
                assert forall|v: int| ov <= v < self.vertices@.len() implies (#[trigger] self.vertices@[v]).select
                    == SelectState::Unselected by {
                    if v < before.len() {
                        assert(self.vertices@.drop_last()[v] == self.vertices@[v]);
                    }
                }
            }
            i = i + 1;
        }
        let mut e: usize = 0;
        while e < other.edges.len()
            invariant
                offset == ov,
                ov == old(self).vertices@.len(),
                oe == old(self).edges@.len(),
                of == old(self).faces@.len(),
                oe + other.edges@.len() < u32::MAX,
                forall|k: int|
                    0 <= k < other.edges@.len() ==> {
                        &&& (#[trigger] other.edges@[k]).vert_ids[0] + ov <= u32::MAX
                        &&& other.edges@[k].vert_ids[1] + ov <= u32::MAX
                    },
                e <= other.edges@.len(),
                self.edges@.len() == oe + e,
                self.edges@.subrange(0, oe) == old(self).edges@,
                forall|k: int|
                    0 <= k < e ==> {
                        let ne = #[trigger] self.edges@[oe + k];
                        &&& ne.vert_ids[0] == other.edges@[k].vert_ids[0] + ov
                        &&& ne.vert_ids[1] == other.edges@[k].vert_ids[1] + ov
                        &&& ne.face_ids@ == Seq::<u32>::empty()
                        &&& ne.select == SelectState::Unselected
                    },
                self.vertices@.len() == ov + other.vertices@.len(),
                self.vertices@.subrange(0, ov) == old(self).vertices@,
                forall|v: int| ov <= v < self.vertices@.len() ==> (#[trigger] self.vertices@[v]).select == SelectState::Unselected,
                forall|v: int|
                    0 <= v < other.vertices@.len() ==> Self::attrs_copied(other.vertices@[v].attrs, (#[trigger] self.vertices@[ov + v]).attrs),
                self.faces == old(self).faces,
                self.name == old(self).name,
            decreases other.edges@.len() - e,
        {
            let ghost before = self.edges@;
            let v0 = other.edges[e].vert_ids[0] + offset;
            let v1 = other.edges[e].vert_ids[1] + offset;
            self.add_edge(v0, v1);
            proof {
                assert forall|q: int| 0 <= q < oe implies #[trigger] self.edges@[q] == old(self).edges@[q] by {
                    assert(self.edges@.drop_last()[q] == self.edges@[q]);
                    assert(before.subrange(0, oe)[q] == before[q]);
                }
                assert(self.edges@.subrange(0, oe) =~= old(self).edges@);
                assert forall|k: int| 0 <= k < e + 1 implies {
                    let ne = #[trigger] self.edges@[oe + k];
                    &&& ne.vert_ids[0] == other.edges@[k].vert_ids[0] + ov
                    &&& ne.vert_ids[1] == other.edges@[k].vert_ids[1] + ov
                    &&& ne.face_ids@ == Seq::<u32>::empty()
                    &&& ne.select == SelectState::Unselected
                } by {
                    if k < e {
                        assert(self.edges@.drop_last()[oe + k] == self.edges@[oe + k]);
                        assert(self.edges@.drop_last()[oe + k] == before[oe + k]);
                    }
                }
            }
            e = e + 1;
        }
        let mut f: usize = 0;
        while f < other.faces.len()
            invariant
                offset == ov,
                ov == old(self).vertices@.len(),
                oe == old(self).edges@.len(),
                of == old(self).faces@.len(),
                of + other.faces@.len() < u32::MAX,
                forall|g: int|
                    0 <= g < other.faces@.len() ==> {
                        &&& other.normal_readable((#[trigger] other.faces@[g]).vertex_ids@)
                        &&& forall|k: int|
                            0 <= k < other.faces@[g].vertex_ids@.len() ==> #[trigger] other.faces@[g].vertex_ids@[k] + ov
                                <= u32::MAX
                    },
                f <= other.faces@.len(),
                self.faces@.len() == of + f,
                self.faces@.subrange(0, of) == old(self).faces@,
                forall|k: int|
                    0 <= k < f ==> {
                        let nf = #[trigger] self.faces@[of + k];
                        &&& nf.vertex_ids@ == Self::shifted(other.faces@[k].vertex_ids@, ov as u32)
                        &&& nf.select == SelectState::Unselected
                        &&& self.is_face_normal(nf.vertex_ids@, nf.normal)
                    },
                self.vertices@.len() == ov + other.vertices@.len(),
                self.vertices@.subrange(0, ov) == old(self).vertices@,
                forall|v: int| ov <= v < self.vertices@.len() ==> (#[trigger] self.vertices@[v]).select == SelectState::Unselected,
                forall|v: int|
                    0 <= v < other.vertices@.len() ==> Self::attrs_copied(other.vertices@[v].attrs, (#[trigger] self.vertices@[ov + v]).attrs),
                self.edges@.len() == oe + other.edges@.len(),
                self.edges@.subrange(0, oe) == old(self).edges@,
                forall|k: int|
                    0 <= k < other.edges@.len() ==> {
                        let ne = #[trigger] self.edges@[oe + k];
                        &&& ne.vert_ids[0] == other.edges@[k].vert_ids[0] + ov
                        &&& ne.vert_ids[1] == other.edges@[k].vert_ids[1] + ov
                        &&& ne.face_ids@ == Seq::<u32>::empty()
                        &&& ne.select == SelectState::Unselected
                    },
                self.name == old(self).name,
            decreases other.faces@.len() - f,
        {
            let src = &other.faces[f].vertex_ids;
            let mut ids: Vec<u32> = Vec::new();
            let mut k: usize = 0;
            proof {
                assert(other.faces@[f as int] == other.faces@[f as int]);
            }
            while k < src.len()
                invariant
                    offset == ov,
                    src@ == other.faces@[f as int].vertex_ids@,
                    forall|q: int| 0 <= q < src@.len() ==> #[trigger] src@[q] + ov <= u32::MAX,
                    k <= src@.len(),
                    ids@ == Self::shifted(src@, offset).take(k as int),
                decreases src@.len() - k,
            {
                ids.push(src[k] + offset);
                proof {
                    assert(ids@ =~= Self::shifted(src@, offset).take(k + 1));
                }
                k = k + 1;
            }
            proof {
                assert(ids@ =~= Self::shifted(src@, offset));
            }
            let ghost before = self.faces@;
            let ghost pre = *self;
            self.add_face(ids);
            proof {
                assert forall|q: int| 0 <= q < of implies #[trigger] self.faces@[q] == old(self).faces@[q] by {
                    assert(self.faces@.drop_last()[q] == self.faces@[q]);
                    assert(before.subrange(0, of)[q] == before[q]);
                }
                assert(self.faces@.subrange(0, of) =~= old(self).faces@);
                assert(self.vertices == pre.vertices);
                assert forall|q: int| 0 <= q < f + 1 implies {
                    let nf = #[trigger] self.faces@[of + q];
                    &&& nf.vertex_ids@ == Self::shifted(other.faces@[q].vertex_ids@, ov as u32)
                    &&& nf.select == SelectState::Unselected
                    &&& self.is_face_normal(nf.vertex_ids@, nf.normal)
                } by {
                    if q < f {
                        assert(self.faces@.drop_last()[of + q] == self.faces@[of + q]);
                        assert(self.faces@.drop_last()[of + q] == before[of + q]);
                        assert(pre.is_face_normal(before[of + q].vertex_ids@, before[of + q].normal));
                    } else {
                        assert(pre.is_face_normal(self.faces@[of + q].vertex_ids@, self.faces@[of + q].normal));
                    }
                }
            }
            f = f + 1;
        }
    }

    /// A new mesh made of the vertices `vertex_ids` (fresh vertices at their
    /// positions, numbered in that order) and of every face that keeps at
    /// least three corners among them, its kept corners renumbered by their
    /// first place in `vertex_ids`.
    pub fn separated(&self, vertex_ids: &[u32]) -> (m: Mesh<G>)
        requires
            forall|k: int| 0 <= k < vertex_ids@.len() ==> (#[trigger] vertex_ids@[k]) < self.vertices@.len(),
            vertex_ids@.len() < u32::MAX,
            self.faces@.len() < u32::MAX,
        ensures
            m.vertices@.len() == vertex_ids@.len(),
            forall|v: int| 0 <= v < m.vertices@.len() ==> (#[trigger] m.vertices@[v]).select == SelectState::Unselected,
            forall|v: int|
                0 <= v < vertex_ids@.len() ==> Self::attrs_copied(
                    self.vertices@[vertex_ids@[v] as int].attrs,
                    (#[trigger] m.vertices@[v]).attrs,
                ),
            m.edges@.len() == 0,
            m.face_ids() == separated_faces(self.face_ids(), vertex_ids@),
            forall|f: int| 0 <= f < m.faces@.len() ==> (#[trigger] m.faces@[f]).select == SelectState::Unselected,
            m.name@ == Seq::<char>::empty(),
    {
        let mut new_mesh: Mesh<G> = Mesh::new();
        let mut i: usize = 0;
        while i < vertex_ids.len()
            invariant
                forall|k: int| 0 <= k < vertex_ids@.len() ==> (#[trigger] vertex_ids@[k]) < self.vertices@.len(),
                vertex_ids@.len() < u32::MAX,
                i <= vertex_ids@.len(),
                new_mesh.vertices@.len() == i,
                forall|v: int| 0 <= v < new_mesh.vertices@.len() ==> (#[trigger] new_mesh.vertices@[v]).select
                    == SelectState::Unselected,
                forall|v: int|
                    0 <= v < i ==> Self::attrs_copied(
                        self.vertices@[vertex_ids@[v] as int].attrs,
                        (#[trigger] new_mesh.vertices@[v]).attrs,
                    ),
                new_mesh.edges@.len() == 0,
                new_mesh.faces@.len() == 0,
                new_mesh.name@ == Seq::<char>::empty(),
            decreases vertex_ids@.len() - i,
        {
            let vid = vertex_ids[i];
            let ghost before = new_mesh.vertices@;
            let p = G::position_of(&self.vertices[vid as usize].attrs);
            proof {
                assert(Self::position_in(self.vertices@[vid as int].attrs, p));
            }
            new_mesh.add_vertex(p);
            proof {
                assert forall|v: int| 0 <= v < i + 1 implies Self::attrs_copied(
                    self.vertices@[vertex_ids@[v] as int].attrs,
                    (#[trigger] new_mesh.vertices@[v]).attrs,
                ) by {
                    if v < i {
                        assert(new_mesh.vertices@.drop_last()[v] == new_mesh.vertices@[v]);
                    } else {
                        assert(Self::position_in(self.vertices@[vertex_ids@[v] as int].attrs, p));
                    }
                }
                assert forall|v: int| 0 <= v < new_mesh.vertices@.len() implies (#[trigger] new_mesh.vertices@[v]).select
                    == SelectState::Unselected by {
                    if v < before.len() {
                        assert(new_mesh.vertices@.drop_last()[v] == new_mesh.vertices@[v]);
                    }
                }
            }
            i = i + 1;
        }
        let n = vertex_ids.len();
        let mut f: usize = 0;
        while f < self.faces.len()
            invariant
                n == vertex_ids@.len(),
                n < u32::MAX,
                self.faces@.len() < u32::MAX,
                f <= self.faces@.len(),
                new_mesh.vertices@.len() == n,
                forall|v: int| 0 <= v < new_mesh.vertices@.len() ==> (#[trigger] new_mesh.vertices@[v]).select
                    == SelectState::Unselected,
                forall|v: int|
                    0 <= v < n ==> Self::attrs_copied(
                        self.vertices@[vertex_ids@[v] as int].attrs,
                        (#[trigger] new_mesh.vertices@[v]).attrs,
                    ),
                new_mesh.edges@.len() == 0,
                new_mesh.face_ids() == separated_faces(self.face_ids().take(f as int), vertex_ids@),
                new_mesh.faces@.len() <= f,
                forall|g: int| 0 <= g < new_mesh.faces@.len() ==> (#[trigger] new_mesh.faces@[g]).select
                    == SelectState::Unselected,
                new_mesh.name@ == Seq::<char>::empty(),
            decreases self.faces@.len() - f,
        {
            let src = &self.faces[f].vertex_ids;
            let mut kept: Vec<u32> = Vec::new();
            let mut k: usize = 0;
            while k < src.len()
                invariant
                    n == vertex_ids@.len(),
                    n < u32::MAX,
                    k <= src@.len(),
                    kept@ == kept_corners(src@.take(k as int), vertex_ids@),
                    forall|q: int| 0 <= q < kept@.len() ==> #[trigger] kept@[q] < n,
                decreases src@.len() - k,
            {
                let vid = src[k];
                proof {
                    assert(src@.take(k + 1).drop_last() =~= src@.take(k as int));
                    assert(src@.take(k + 1).last() == vid);
                }
                let mut p: usize = 0;
                let mut found = false;
                while p < n
                    invariant_except_break
                        !found,
                    invariant
                        n == vertex_ids@.len(),
                        p <= n,
                        forall|j: int| 0 <= j < p ==> vertex_ids@[j] != vid,
                    ensures
                        found ==> is_first_index(vertex_ids@, vid, p as int),
                        !found ==> !vertex_ids@.contains(vid),
                    decreases n - p,
                {
                    if vertex_ids[p] == vid {
                        found = true;
                        break;
                    }
                    p = p + 1;
                }
                if found {
                    proof {
                        lemma_first_index(vertex_ids@, vid, p as int);
                        assert(vertex_ids@.contains(vid));
                    }
                    kept.push(p as u32);
                    proof {
                        assert(kept@ =~= kept_corners(src@.take(k + 1), vertex_ids@));
                    }
                } else {
                    proof {
                        assert(kept@ =~= kept_corners(src@.take(k + 1), vertex_ids@));
                    }
                }
                k = k + 1;
            }
            proof {
                assert(src@.take(k as int) =~= src@);
                assert(self.face_ids().take(f + 1).drop_last() =~= self.face_ids().take(f as int));
                assert(self.face_ids().take(f + 1).last() == src@);
            }
            if kept.len() >= 3 {
                let ghost before = new_mesh.faces@;
                new_mesh.add_face(kept);
                proof {
                    assert(new_mesh.face_ids() =~= separated_faces(self.face_ids().take(f + 1), vertex_ids@)) by {
                        assert(new_mesh.faces@.drop_last() == before);
                        assert forall|g: int| 0 <= g < before.len() implies new_mesh.face_ids()[g] == before.map_values(
                            |fc: Face<G::Normal>| fc.vertex_ids@,
                        )[g] by {
                            assert(new_mesh.faces@.drop_last()[g] == new_mesh.faces@[g]);
                        }
                    }
                    assert forall|g: int| 0 <= g < new_mesh.faces@.len() implies (#[trigger] new_mesh.faces@[g]).select
                        == SelectState::Unselected by {
                        if g < before.len() {
                            assert(new_mesh.faces@.drop_last()[g] == new_mesh.faces@[g]);
                        }
                    }
                }
            }
            f = f + 1;
        }
        proof {
            assert(self.face_ids().take(f as int) =~= self.face_ids());
        }
        new_mesh
    }

    /// A new mesh with fresh vertices at the same positions and, in order,
    /// every face's fan triangles as faces (triangles kept, faces with fewer
    /// than three corners dropped); no edges.
    pub fn triangulated(&self) -> (m: Mesh<G>)
        requires
            self.vertices@.len() < u32::MAX,
            all_triangles(self.face_ids()).len() < u32::MAX,
            forall|f: int, k: int|
                0 <= f < self.faces@.len() && 0 <= k < self.faces@[f].vertex_ids@.len() && self.faces@[f].vertex_ids@.len()
                    >= 3 ==> #[trigger] self.faces@[f].vertex_ids@[k] < self.vertices@.len(),
        ensures
            m.vertices@.len() == self.vertices@.len(),
            forall|v: int| 0 <= v < m.vertices@.len() ==> (#[trigger] m.vertices@[v]).select == SelectState::Unselected,
            forall|v: int|
                0 <= v < self.vertices@.len() ==> Self::attrs_copied(self.vertices@[v].attrs, (#[trigger] m.vertices@[v]).attrs),
            m.edges@.len() == 0,
            m.face_ids() == all_triangles(self.face_ids()),
            forall|f: int| 0 <= f < m.faces@.len() ==> (#[trigger] m.faces@[f]).select == SelectState::Unselected,
            m.name@ == Seq::<char>::empty(),
    {
        let mut result: Mesh<G> = Mesh::new();
        let mut i: usize = 0;
        while i < self.vertices.len()
            invariant
                self.vertices@.len() < u32::MAX,
                i <= self.vertices@.len(),
                result.vertices@.len() == i,
                forall|v: int| 0 <= v < result.vertices@.len() ==> (#[trigger] result.vertices@[v]).select
                    == SelectState::Unselected,
                forall|v: int| 0 <= v < i ==> Self::attrs_copied(self.vertices@[v].attrs, (#[trigger] result.vertices@[v]).attrs),
                result.edges@.len() == 0,
                result.faces@.len() == 0,
                result.name@ == Seq::<char>::empty(),
            decreases self.vertices@.len() - i,
        {
            let ghost before = result.vertices@;
            let p = G::position_of(&self.vertices[i].attrs);
            proof {
                assert(Self::position_in(self.vertices@[i as int].attrs, p));
            }
            result.add_vertex(p);
            proof {
                assert forall|v: int| 0 <= v < i + 1 implies Self::attrs_copied(
                    self.vertices@[v].attrs,
                    (#[trigger] result.vertices@[v]).attrs,
                ) by {
                    if v < i {
                        assert(result.vertices@.drop_last()[v] == result.vertices@[v]);
                    } else {
                        assert(Self::position_in(self.vertices@[v].attrs, p));
                    }
                }
                assert forall|v: int| 0 <= v < result.vertices@.len() implies (#[trigger] result.vertices@[v]).select
                    == SelectState::Unselected by {
                    if v < before.len() {
                        assert(result.vertices@.drop_last()[v] == result.vertices@[v]);
                    }
                }
            }
            i = i + 1;
        }
        proof {
            lemma_all_triangles_prefix(self.face_ids(), self.faces@.len() as int);
            assert(self.face_ids().take(self.faces@.len() as int) =~= self.face_ids());
            assert(self.face_ids().take(0) =~= Seq::<Seq<u32>>::empty());
            assert(result.face_ids() =~= Seq::<Seq<u32>>::empty());
        }
        let mut f: usize = 0;
        while f < self.faces.len()
            invariant
                f <= self.faces@.len(),
                result.vertices@.len() == self.vertices@.len(),
                forall|v: int| 0 <= v < result.vertices@.len() ==> (#[trigger] result.vertices@[v]).select
                    == SelectState::Unselected,
                forall|v: int|
                    0 <= v < self.vertices@.len() ==> Self::attrs_copied(self.vertices@[v].attrs, (#[trigger] result.vertices@[v]).attrs),
                result.edges@.len() == 0,
                result.face_ids() == all_triangles(self.face_ids().take(f as int)),
                forall|m: int|
                    0 <= m <= self.faces@.len() ==> #[trigger] all_triangles(self.face_ids().take(m)).len()
                        <= all_triangles(self.face_ids()).len(),
                all_triangles(self.face_ids()).len() < u32::MAX,
                forall|g: int, k: int|
                    0 <= g < self.faces@.len() && 0 <= k < self.faces@[g].vertex_ids@.len()
                        && self.faces@[g].vertex_ids@.len() >= 3 ==> #[trigger] self.faces@[g].vertex_ids@[k]
                        < self.vertices@.len(),
                forall|g: int| 0 <= g < result.faces@.len() ==> (#[trigger] result.faces@[g]).select
                    == SelectState::Unselected,
                result.name@ == Seq::<char>::empty(),
            decreases self.faces@.len() - f,
        {
            let ids = &self.faces[f].vertex_ids;
            let ghost start = result.face_ids();
            proof {
                assert(self.face_ids().take(f + 1).drop_last() =~= self.face_ids().take(f as int));
                assert(self.face_ids().take(f + 1).last() == ids@);
                assert(all_triangles(self.face_ids().take(f + 1)) == start + face_triangles(ids@));
                assert(all_triangles(self.face_ids().take(f + 1)).len() <= all_triangles(self.face_ids()).len());
            }
            let n = ids.len();
            if n >= 3 {
                let mut t: usize = 1;
                while t < n - 1
                    invariant
                        n == ids@.len(),
                        n >= 3,
                        1 <= t <= n - 1,
                        ids@ == self.faces@[f as int].vertex_ids@,
                        forall|k: int| 0 <= k < n ==> #[trigger] ids@[k] < result.vertices@.len(),
                        result.face_ids() == start + face_triangles(ids@).take(t - 1),
                        result.faces@.len() == start.len() + (t - 1),
                        start.len() + face_triangles(ids@).len() < u32::MAX,
                        forall|g: int| 0 <= g < result.faces@.len() ==> (#[trigger] result.faces@[g]).select
                            == SelectState::Unselected,
                        result.edges@.len() == 0,
                        result.vertices@.len() == self.vertices@.len(),
                        forall|v: int| 0 <= v < result.vertices@.len() ==> (#[trigger] result.vertices@[v]).select
                            == SelectState::Unselected,
                        forall|v: int|
                            0 <= v < self.vertices@.len() ==> Self::attrs_copied(
                                self.vertices@[v].attrs,
                                (#[trigger] result.vertices@[v]).attrs,
                            ),
                        result.name@ == Seq::<char>::empty(),
                    decreases n - 1 - t,
                {
                    let tri = vec![ids[0], ids[t], ids[t + 1]];
                    let ghost before = result.faces@;
                    proof {
                        assert(self.faces@[f as int].vertex_ids@[0] < self.vertices@.len());
                    }
                    result.add_face(tri);
                    proof {
                        assert(result.face_ids() =~= start + face_triangles(ids@).take(t as int)) by {
                            assert forall|g: int| 0 <= g < before.len() implies result.face_ids()[g] == before.map_values(
                                |fc: Face<G::Normal>| fc.vertex_ids@,
                            )[g] by {
                                assert(result.faces@.drop_last()[g] == result.faces@[g]);
                            }
                            assert(face_triangles(ids@)[t - 1] =~= seq![ids@[0], ids@[t as int], ids@[t + 1]]);
                        }
                        assert forall|g: int| 0 <= g < result.faces@.len() implies (#[trigger] result.faces@[g]).select
                            == SelectState::Unselected by {
                            if g < before.len() {
                                assert(result.faces@.drop_last()[g] == result.faces@[g]);
                            }
                        }
                    }
                    t = t + 1;
                }
                proof {
                    assert(face_triangles(ids@).take(t - 1) =~= face_triangles(ids@));
                }
            } else {
                proof {
                    assert(start + face_triangles(ids@) =~= start);
                }
            }
            f = f + 1;
        }
        proof {
            assert(self.face_ids().take(f as int) =~= self.face_ids());
        }
        result
    }
}

/// The triangles of a prefix of the faces are no more than those of all faces.
pub proof fn lemma_all_triangles_prefix(faces: Seq<Seq<u32>>, n: int)
    requires
        0 <= n <= faces.len(),
    ensures
        forall|m: int| 0 <= m <= n ==> #[trigger] all_triangles(faces.take(m)).len() <= all_triangles(faces.take(n)).len(),
    decreases n,
{
    if n > 0 {
        lemma_all_triangles_prefix(faces, n - 1);
        assert(faces.take(n).drop_last() =~= faces.take(n - 1));
    }
    if n == faces.len() {
        assert(faces.take(n) =~= faces);
    }
}

} // verus!
