//! Whole-mesh operations of a [`BMesh`]: selection flushing, hiding
//! ("dissolving"), merging, filling, flipping and triangulating.
use vstd::prelude::*;
use super::bmesh::{BMesh, BMeshGeometry, HEdge, HEdgeId, HFace, HFaceId, HLoop, HLoopId, HVert, HVertId, SelectMode, SelectState};

verus! {

/// How many entries of `s` are true.
pub open spec fn count_true(s: Seq<bool>) -> nat
    decreases s.len(),
{
    if s.len() == 0 {
        0
    } else {
        count_true(s.drop_last()) + if s.last() {
            1nat
        } else {
            0nat
        }
    }
}

/// Membership in a sequence grown by one element.
pub proof fn lemma_contains_push<T>(s: Seq<T>, x: T, y: T)
    ensures
        s.push(x).contains(y) <==> (s.contains(y) || y == x),
{
    if s.push(x).contains(y) {
        let t = choose|t: int| 0 <= t < s.push(x).len() && s.push(x)[t] == y;
        if t < s.len() {
            assert(s[t] == y);
        }
    }
    if s.contains(y) {
        let t = choose|t: int| 0 <= t < s.len() && s[t] == y;
        assert(s.push(x)[t] == y);
    }
    if y == x {
        assert(s.push(x)[s.len() as int] == y);
    }
}

pub proof fn lemma_count_true_le(s: Seq<bool>)
    ensures
        count_true(s) <= s.len(),
    decreases s.len(),
{
    if s.len() > 0 {
        lemma_count_true_le(s.drop_last());
    }
}

impl<G: BMeshGeometry> BMesh<G> {
    pub open spec fn visible_verts(self) -> Seq<bool> {
        self.verts@.map_values(|v: HVert<G::VertAttrs>| !v.hide)
    }

    pub open spec fn visible_edges(self) -> Seq<bool> {
        self.edges@.map_values(|e: HEdge| !e.hide)
    }

    pub open spec fn visible_faces(self) -> Seq<bool> {
        self.faces@.map_values(|f: HFace<G::Normal>| !f.hide)
    }

    pub open spec fn selected_verts(self) -> Seq<bool> {
        self.verts@.map_values(|v: HVert<G::VertAttrs>| v.select.spec_selected())
    }

    pub open spec fn selected_edges(self) -> Seq<bool> {
        self.edges@.map_values(|e: HEdge| e.select.spec_selected())
    }

    pub open spec fn selected_faces(self) -> Seq<bool> {
        self.faces@.map_values(|f: HFace<G::Normal>| f.select.spec_selected())
    }

    /// Number of vertices that are not hidden.
    pub fn vertex_count(&self) -> (n: u32)
        requires
            self.verts@.len() <= u32::MAX,
        ensures
            n == count_true(self.visible_verts()),
    {
        let mut n: u32 = 0;
        let mut i: usize = 0;
        while i < self.verts.len()
            invariant
                i <= self.verts@.len() <= u32::MAX,
                n == count_true(self.visible_verts().take(i as int)),
                n <= i,
            decreases self.verts@.len() - i,
        {
            proof {
                assert(self.visible_verts().take(i + 1).drop_last() =~= self.visible_verts().take(i as int));
            }
            if !self.verts[i].hide {
                n = n + 1;
            }
            i = i + 1;
        }
        assert(self.visible_verts().take(i as int) =~= self.visible_verts());
        n
    }

    /// Number of edges that are not hidden.
    pub fn edge_count(&self) -> (n: u32)
        requires
            self.edges@.len() <= u32::MAX,
        ensures
            n == count_true(self.visible_edges()),
    {
        let mut n: u32 = 0;
        let mut i: usize = 0;
        while i < self.edges.len()
            invariant
                i <= self.edges@.len() <= u32::MAX,
                n == count_true(self.visible_edges().take(i as int)),
                n <= i,
            decreases self.edges@.len() - i,
        {
            proof {
                assert(self.visible_edges().take(i + 1).drop_last() =~= self.visible_edges().take(i as int));
            }
            if !self.edges[i].hide {
                n = n + 1;
            }
            i = i + 1;
        }
        assert(self.visible_edges().take(i as int) =~= self.visible_edges());
        n
    }

    /// Number of faces that are not hidden.
    pub fn face_count(&self) -> (n: u32)
        requires
            self.faces@.len() <= u32::MAX,
        ensures
            n == count_true(self.visible_faces()),
    {
        let mut n: u32 = 0;
        let mut i: usize = 0;
        while i < self.faces.len()
            invariant
                i <= self.faces@.len() <= u32::MAX,
                n == count_true(self.visible_faces().take(i as int)),
                n <= i,
            decreases self.faces@.len() - i,
        {
            proof {
                assert(self.visible_faces().take(i + 1).drop_last() =~= self.visible_faces().take(i as int));
            }
            if !self.faces[i].hide {
                n = n + 1;
            }
            i = i + 1;
        }
        assert(self.visible_faces().take(i as int) =~= self.visible_faces());
        n
    }

    /// Selecting everything is not implemented: this does nothing.
    pub fn select_all() {
    }

    /// Whether a selected edge among the first `n` starts at vertex `v`.
    pub open spec fn flushed_by(self, v: int, n: int) -> bool {
        exists|j: int| 0 <= j < n && (#[trigger] self.edges@[j]).select.spec_selected() && self.edges@[j].vert.0 == v
    }

    /// Recounts the selection for the current select mode: selected vertices,
    /// selected edges (whose start vertices become selected too) or selected
    /// faces. The other two counts become zero.
    pub fn select_flush(&mut self)
        requires
            old(self).wf(),
        ensures
            final(self).wf(),
            final(self).select_mode == old(self).select_mode,
            final(self).edges == old(self).edges,
            final(self).faces == old(self).faces,
            final(self).loops == old(self).loops,
            final(self).total_select_verts == (if old(self).select_mode == SelectMode::Vertex {
                count_true(old(self).selected_verts())
            } else {
                0
            }),
            final(self).total_select_edges == (if old(self).select_mode == SelectMode::Edge {
                count_true(old(self).selected_edges())
            } else {
                0
            }),
            final(self).total_select_faces == (if old(self).select_mode == SelectMode::Face {
                count_true(old(self).selected_faces())
            } else {
                0
            }),
            final(self).verts@.len() == old(self).verts@.len(),
            forall|v: int|
                0 <= v < old(self).verts@.len() ==> #[trigger] final(self).verts@[v] == if old(self).select_mode
                    == SelectMode::Edge && old(self).flushed_by(v, old(self).edges@.len() as int) {
                    HVert { select: SelectState::Select, ..old(self).verts@[v] }
                } else {
                    old(self).verts@[v]
                },
    {
        self.total_select_verts = 0;
        self.total_select_edges = 0;
        self.total_select_faces = 0;
        match self.select_mode {
            SelectMode::Vertex => {
                let mut i: usize = 0;
                while i < self.verts.len()
                    invariant
                        self.wf(),
                        *self == (BMesh { total_select_verts: self.total_select_verts, total_select_edges: 0, total_select_faces: 0, ..*old(self) }),
                        self.select_mode == SelectMode::Vertex,
                        i <= self.verts@.len(),
                        self.total_select_verts == count_true(self.selected_verts().take(i as int)),
                        self.total_select_verts <= i,
                        self.total_select_edges == 0,
                        self.total_select_faces == 0,
                    decreases self.verts@.len() - i,
                {
                    proof {
                        assert(self.selected_verts().take(i + 1).drop_last() =~= self.selected_verts().take(i as int));
                    }
                    if self.verts[i].select.is_selected() {
                        self.total_select_verts = self.total_select_verts + 1;
                    }
                    i = i + 1;
                }
                assert(self.selected_verts().take(i as int) =~= self.selected_verts());
            },
            SelectMode::Edge => {
                let mut i: usize = 0;
                while i < self.edges.len()
                    invariant
                        self.wf(),
                        self.select_mode == SelectMode::Edge,
                        self.edges == old(self).edges,
                        self.faces == old(self).faces,
                        self.loops == old(self).loops,
                        self.verts@.len() == old(self).verts@.len(),
                        i <= self.edges@.len(),
                        self.total_select_edges == count_true(old(self).selected_edges().take(i as int)),
                        self.total_select_edges <= i,
                        self.total_select_verts == 0,
                        self.total_select_faces == 0,
                        forall|v: int|
                            0 <= v < old(self).verts@.len() ==> #[trigger] self.verts@[v] == if old(self).flushed_by(
                                v,
                                i as int,
                            ) {
                                HVert { select: SelectState::Select, ..old(self).verts@[v] }
                            } else {
                                old(self).verts@[v]
                            },
                    decreases self.edges@.len() - i,
                {
                    proof {
                        assert(old(self).selected_edges().take(i + 1).drop_last() =~= old(self).selected_edges().take(
                            i as int,
                        ));
                    }
                    if self.edges[i].select.is_selected() {
                        self.total_select_edges = self.total_select_edges + 1;
                        let v0 = self.edges[i].vert;
                        let ghost before = self.verts@;
                        self.vert_mut(v0).select = SelectState::Select;
                        proof {
                            assert forall|v: int| 0 <= v < old(self).verts@.len() implies #[trigger] self.verts@[v]
                                == if old(self).flushed_by(v, i + 1) {
                                HVert { select: SelectState::Select, ..old(self).verts@[v] }
                            } else {
                                old(self).verts@[v]
                            } by {
                                if v == v0.0 {
                                    assert(old(self).edges@[i as int].select.spec_selected());
                                    assert(old(self).flushed_by(v, i + 1));
                                } else {
                                    assert(self.verts@[v] == before[v]);
                                    if old(self).flushed_by(v, i + 1) {
                                        let j = choose|j: int|
                                            0 <= j < i + 1 && (#[trigger] old(self).edges@[j]).select.spec_selected()
                                                && old(self).edges@[j].vert.0 == v;
                                        assert(old(self).flushed_by(v, i as int));
                                    }
                                }
                            }
                            assert forall|j: int| 0 <= j < self.verts@.len() implies {
                                &&& (#[trigger] self.verts@[j]).id.0 == j
                                &&& self.opt_edge_ok(self.verts@[j].head_edge)
                            } by {
                                assert(before[j].id.0 == j);
                            }
                        }
                    } else {
                        proof {
                            assert forall|v: int| 0 <= v < old(self).verts@.len() implies #[trigger] self.verts@[v]
                                == if old(self).flushed_by(v, i + 1) {
                                HVert { select: SelectState::Select, ..old(self).verts@[v] }
                            } else {
                                old(self).verts@[v]
                            } by {
                                if old(self).flushed_by(v, i + 1) {
                                    let j = choose|j: int|
                                        0 <= j < i + 1 && (#[trigger] old(self).edges@[j]).select.spec_selected()
                                            && old(self).edges@[j].vert.0 == v;
                                    assert(old(self).flushed_by(v, i as int));
                                }
                            }
                        }
                    }
                    i = i + 1;
                }
                assert(old(self).selected_edges().take(i as int) =~= old(self).selected_edges());
            },
            SelectMode::Face => {
                let mut i: usize = 0;
                while i < self.faces.len()
                    invariant
                        self.wf(),
                        *self == (BMesh { total_select_faces: self.total_select_faces, total_select_edges: 0, total_select_verts: 0, ..*old(self) }),
                        self.select_mode == SelectMode::Face,
                        i <= self.faces@.len(),
                        self.total_select_faces == count_true(self.selected_faces().take(i as int)),
                        self.total_select_faces <= i,
                        self.total_select_edges == 0,
                        self.total_select_verts == 0,
                    decreases self.faces@.len() - i,
                {
                    proof {
                        assert(self.selected_faces().take(i + 1).drop_last() =~= self.selected_faces().take(i as int));
                    }
                    if self.faces[i].select.is_selected() {
                        self.total_select_faces = self.total_select_faces + 1;
                    }
                    i = i + 1;
                }
                assert(self.selected_faces().take(i as int) =~= self.selected_faces());
            },
        }
    }

    /// Hides the given vertices (their edges and faces stay).
    pub fn dissolve_verts(&mut self, vert_ids: &[HVertId])
        requires
            old(self).wf(),
            forall|k: int| 0 <= k < vert_ids@.len() ==> old(self).vert_ok(#[trigger] vert_ids@[k]),
        ensures
            final(self).wf(),
            *final(self) == (BMesh { verts: final(self).verts, ..*old(self) }),
            final(self).verts@.len() == old(self).verts@.len(),
            forall|v: int|
                0 <= v < old(self).verts@.len() ==> #[trigger] final(self).verts@[v] == if vert_ids@.contains(
                    HVertId(v as u32),
                ) {
                    HVert { hide: true, ..old(self).verts@[v] }
                } else {
                    old(self).verts@[v]
                },
    {
        let mut i: usize = 0;
        while i < vert_ids.len()
            invariant
                self.wf(),
                forall|k: int| 0 <= k < vert_ids@.len() ==> old(self).vert_ok(#[trigger] vert_ids@[k]),
                *self == (BMesh { verts: self.verts, ..*old(self) }),
                self.verts@.len() == old(self).verts@.len(),
                i <= vert_ids@.len(),
                forall|v: int|
                    0 <= v < old(self).verts@.len() ==> #[trigger] self.verts@[v] == if vert_ids@.take(i as int).contains(
                        HVertId(v as u32),
                    ) {
                        HVert { hide: true, ..old(self).verts@[v] }
                    } else {
                        old(self).verts@[v]
                    },
            decreases vert_ids@.len() - i,
        {
            let vid = vert_ids[i];
            let ghost before = self.verts@;
            self.vert_mut(vid).hide = true;
            proof {
                assert forall|v: int| 0 <= v < old(self).verts@.len() implies #[trigger] self.verts@[v]
                    == if vert_ids@.take(i + 1).contains(HVertId(v as u32)) {
                    HVert { hide: true, ..old(self).verts@[v] }
                } else {
                    old(self).verts@[v]
                } by {
                    assert(vert_ids@.take(i + 1) =~= vert_ids@.take(i as int).push(vid));
                    lemma_contains_push(vert_ids@.take(i as int), vid, HVertId(v as u32));
                    assert(old(self).verts@[v].id.0 == v);
                    if v != vid.0 {
                        assert(self.verts@[v] == before[v]);
                        assert(HVertId(v as u32) != vid);
                    } else {
                        assert(HVertId(v as u32) == vid);
                    }
                }
                assert forall|j: int| 0 <= j < self.verts@.len() implies {
                    &&& (#[trigger] self.verts@[j]).id.0 == j
                    &&& self.opt_edge_ok(self.verts@[j].head_edge)
                } by {
                    assert(before[j].id.0 == j);
                }
            }
            i = i + 1;
        }
        assert(vert_ids@.take(i as int) =~= vert_ids@);
    }

    /// Hides the given edges.
    pub fn dissolve_edges(&mut self, edge_ids: &[HEdgeId])
        requires
            old(self).wf(),
            forall|k: int| 0 <= k < edge_ids@.len() ==> old(self).edge_ok(#[trigger] edge_ids@[k]),
        ensures
            final(self).wf(),
            *final(self) == (BMesh { edges: final(self).edges, ..*old(self) }),
            final(self).edges@.len() == old(self).edges@.len(),
            forall|j: int|
                0 <= j < old(self).edges@.len() ==> #[trigger] final(self).edges@[j] == if edge_ids@.contains(
                    HEdgeId(j as u32),
                ) {
                    HEdge { hide: true, ..old(self).edges@[j] }
                } else {
                    old(self).edges@[j]
                },
    {
        let mut i: usize = 0;
        while i < edge_ids.len()
            invariant
                self.wf(),
                forall|k: int| 0 <= k < edge_ids@.len() ==> old(self).edge_ok(#[trigger] edge_ids@[k]),
                *self == (BMesh { edges: self.edges, ..*old(self) }),
                self.edges@.len() == old(self).edges@.len(),
                i <= edge_ids@.len(),
                forall|j: int|
                    0 <= j < old(self).edges@.len() ==> #[trigger] self.edges@[j] == if edge_ids@.take(i as int).contains(
                        HEdgeId(j as u32),
                    ) {
                        HEdge { hide: true, ..old(self).edges@[j] }
                    } else {
                        old(self).edges@[j]
                    },
            decreases edge_ids@.len() - i,
        {
            let eid = edge_ids[i];
            let ghost before = self.edges@;
            self.edge_mut(eid).hide = true;
            proof {
                assert forall|j: int| 0 <= j < old(self).edges@.len() implies #[trigger] self.edges@[j]
                    == if edge_ids@.take(i + 1).contains(HEdgeId(j as u32)) {
                    HEdge { hide: true, ..old(self).edges@[j] }
                } else {
                    old(self).edges@[j]
                } by {
                    assert(edge_ids@.take(i + 1) =~= edge_ids@.take(i as int).push(eid));
                    lemma_contains_push(edge_ids@.take(i as int), eid, HEdgeId(j as u32));
                    if j != eid.0 {
                        assert(self.edges@[j] == before[j]);
                        assert(HEdgeId(j as u32) != eid);
                    } else {
                        assert(HEdgeId(j as u32) == eid);
                    }
                }
                assert forall|j: int| 0 <= j < self.edges@.len() implies {
                    let e = #[trigger] self.edges@[j];
                    &&& e.id.0 == j
                    &&& self.vert_ok(e.vert)
                    &&& self.opt_edge_ok(e.next)
                    &&& self.opt_edge_ok(e.prev)
                    &&& self.opt_edge_ok(e.radial)
                } by {
                    assert(before[j].id.0 == j);
                }
                assert forall|j: int| 0 <= j < self.edges@.len() implies ((#[trigger] self.edges@[j]).face matches Some(
                    f,
                ) ==> f.0 < self.faces@.len()) by {
                    assert(before[j] == before[j]);
                }
            }
            i = i + 1;
        }
        assert(edge_ids@.take(i as int) =~= edge_ids@);
    }

    /// Hides the given faces.
    pub fn dissolve_faces(&mut self, face_ids: &[HFaceId])
        requires
            old(self).wf(),
            forall|k: int| 0 <= k < face_ids@.len() ==> (#[trigger] face_ids@[k]).0 < old(self).faces@.len(),
        ensures
            final(self).wf(),
            *final(self) == (BMesh { faces: final(self).faces, ..*old(self) }),
            final(self).faces@.len() == old(self).faces@.len(),
            forall|f: int|
                0 <= f < old(self).faces@.len() ==> #[trigger] final(self).faces@[f] == if face_ids@.contains(
                    HFaceId(f as u32),
                ) {
                    HFace { hide: true, ..old(self).faces@[f] }
                } else {
                    old(self).faces@[f]
                },
    {
        let mut i: usize = 0;
        while i < face_ids.len()
            invariant
                self.wf(),
                forall|k: int| 0 <= k < face_ids@.len() ==> (#[trigger] face_ids@[k]).0 < old(self).faces@.len(),
                *self == (BMesh { faces: self.faces, ..*old(self) }),
                self.faces@.len() == old(self).faces@.len(),
                i <= face_ids@.len(),
                forall|f: int|
                    0 <= f < old(self).faces@.len() ==> #[trigger] self.faces@[f] == if face_ids@.take(i as int).contains(
                        HFaceId(f as u32),
                    ) {
                        HFace { hide: true, ..old(self).faces@[f] }
                    } else {
                        old(self).faces@[f]
                    },
            decreases face_ids@.len() - i,
        {
            let fid = face_ids[i];
            let ghost before = self.faces@;
            self.face_mut(fid).hide = true;
            proof {
                assert forall|f: int| 0 <= f < old(self).faces@.len() implies #[trigger] self.faces@[f]
                    == if face_ids@.take(i + 1).contains(HFaceId(f as u32)) {
                    HFace { hide: true, ..old(self).faces@[f] }
                } else {
                    old(self).faces@[f]
                } by {
                    assert(face_ids@.take(i + 1) =~= face_ids@.take(i as int).push(fid));
                    lemma_contains_push(face_ids@.take(i as int), fid, HFaceId(f as u32));
                    if f != fid.0 {
                        assert(self.faces@[f] == before[f]);
                        assert(HFaceId(f as u32) != fid);
                    } else {
                        assert(HFaceId(f as u32) == fid);
                    }
                }
                assert forall|f: int, k: int|
                    0 <= f < self.faces@.len() && (#[trigger] self.faces@[f]).loop_start.unwrap().0 <= k
                        < self.faces@[f].loop_start.unwrap().0 + self.faces@[f].loop_total && 0 <= k
                        < self.loops@.len() implies (#[trigger] self.loops@[k]).face.0 == f by {
                    assert(before[f] == before[f]);
                }
                assert forall|f: int| 0 <= f < self.faces@.len() implies {
                    let face = #[trigger] self.faces@[f];
                    &&& face.id.0 == f
                    &&& face.loop_start is Some
                    &&& face.loop_total >= 1
                    &&& face.loop_start.unwrap().0 + face.loop_total <= self.loops@.len()
                } by {
                    assert(before[f] == before[f]);
                }
                assert forall|k: int| 0 <= k < self.loops@.len() implies {
                    let f = (#[trigger] self.loops@[k]).face.0 as int;
                    let face = self.faces@[f];
                    &&& 0 <= f < self.faces@.len()
                    &&& face.loop_start.unwrap().0 <= k < face.loop_start.unwrap().0 + face.loop_total
                } by {
                    let f = self.loops@[k].face.0 as int;
                    assert(before[f] == before[f]);
                }
            }
            i = i + 1;
        }
        assert(face_ids@.take(i as int) =~= face_ids@);
    }

    /// Cutting edge loops is not implemented: this leaves the mesh unchanged.
    pub fn loop_cut(&mut self, _edge_loop_id: HEdgeId, cuts: u32)
        ensures
            *final(self) == *old(self),
    {
        let _ = cuts;
    }

    /// Moves the edges that start at `source` (among those met walking from
    /// its first edge) to start at `target`, and hides `source`.
    pub fn merge_verts(&mut self, target: HVertId, source: HVertId)
        requires
            old(self).wf(),
            old(self).vert_ok(target),
            old(self).vert_ok(source),
        ensures
            final(self).wf(),
            *final(self) == (BMesh { verts: final(self).verts, edges: final(self).edges, ..*old(self) }),
            final(self).verts@ == old(self).verts@.update(
                source.0 as int,
                HVert { hide: true, ..old(self).verts@[source.0 as int] },
            ),
            final(self).edges@.len() == old(self).edges@.len(),
            forall|j: int|
                0 <= j < old(self).edges@.len() ==> #[trigger] final(self).edges@[j] == if old(self).spec_vert_edges(
                    source,
                ).contains(HEdgeId(j as u32)) && old(self).edges@[j].vert == source {
                    HEdge { vert: target, ..old(self).edges@[j] }
                } else {
                    old(self).edges@[j]
                },
    {
        let edges = self.vert_edges(source);
        proof {
            self.lemma_vert_edges_ok(source);
        }
        let mut i: usize = 0;
        while i < edges.len()
            invariant
                self.wf(),
                old(self).vert_ok(target),
                old(self).vert_ok(source),
                edges@ == old(self).spec_vert_edges(source),
                forall|k: int| 0 <= k < edges@.len() ==> old(self).edge_ok(#[trigger] edges@[k]),
                *self == (BMesh { edges: self.edges, ..*old(self) }),
                self.edges@.len() == old(self).edges@.len(),
                i <= edges@.len(),
                forall|j: int|
                    0 <= j < old(self).edges@.len() ==> #[trigger] self.edges@[j] == if edges@.take(i as int).contains(
                        HEdgeId(j as u32),
                    ) && old(self).edges@[j].vert == source {
                        HEdge { vert: target, ..old(self).edges@[j] }
                    } else {
                        old(self).edges@[j]
                    },
            decreases edges@.len() - i,
        {
            let eid = edges[i];
            let ghost before = self.edges@;
            proof {
                assert(edges@.take(i + 1) =~= edges@.take(i as int).push(eid));
            }
            if self.edge(eid).vert == source {
                self.edge_mut(eid).vert = target;
            }
            proof {
                assert forall|j: int| 0 <= j < old(self).edges@.len() implies #[trigger] self.edges@[j]
                    == if edges@.take(i + 1).contains(HEdgeId(j as u32)) && old(self).edges@[j].vert == source {
                    HEdge { vert: target, ..old(self).edges@[j] }
                } else {
                    old(self).edges@[j]
                } by {
                    lemma_contains_push(edges@.take(i as int), eid, HEdgeId(j as u32));
                    if j != eid.0 {
                        assert(self.edges@[j] == before[j]);
                        assert(HEdgeId(j as u32) != eid);
                    } else {
                        assert(HEdgeId(j as u32) == eid);
                    }
                }
                assert forall|j: int| 0 <= j < self.edges@.len() implies {
                    let e = #[trigger] self.edges@[j];
                    &&& e.id.0 == j
                    &&& self.vert_ok(e.vert)
                    &&& self.opt_edge_ok(e.next)
                    &&& self.opt_edge_ok(e.prev)
                    &&& self.opt_edge_ok(e.radial)
                } by {
                    assert(before[j].id.0 == j);
                }
                assert forall|j: int| 0 <= j < self.edges@.len() implies ((#[trigger] self.edges@[j]).face matches Some(
                    f,
                ) ==> f.0 < self.faces@.len()) by {
                    assert(before[j] == before[j]);
                }
            }
            i = i + 1;
        }
        proof {
            assert(edges@.take(i as int) =~= edges@);
        }
        let ghost before = self.verts@;
        self.vert_mut(source).hide = true;
        proof {
            assert forall|j: int| 0 <= j < self.verts@.len() implies {
                &&& (#[trigger] self.verts@[j]).id.0 == j
                &&& self.opt_edge_ok(self.verts@[j].head_edge)
            } by {
                assert(before[j].id.0 == j);
            }
        }
    }

    /// Recomputes every face normal from the face's first three corners.
    pub fn recalculate_face_normals(&mut self)
        requires
            old(self).wf(),
        ensures
            final(self).wf(),
            *final(self) == (BMesh { faces: final(self).faces, ..*old(self) }),
            final(self).faces@.len() == old(self).faces@.len(),
            forall|f: int|
                0 <= f < old(self).faces@.len() ==> #[trigger] final(self).faces@[f] == (HFace {
                    normal: final(self).faces@[f].normal,
                    ..old(self).faces@[f]
                }),
            forall|f: int|
                0 <= f < old(self).faces@.len() ==> old(self).is_face_normal(
                    old(self).spec_face_verts(HFaceId(f as u32)),
                    (#[trigger] final(self).faces@[f]).normal,
                ),
    {
        let n = self.faces.len();
        let mut i: usize = 0;
        while i < n
            invariant
                n == old(self).faces@.len(),
                self.wf(),
                *self == (BMesh { faces: self.faces, ..*old(self) }),
                self.faces@.len() == n,
                i <= n,
                forall|f: int|
                    0 <= f < n ==> #[trigger] self.faces@[f] == (HFace { normal: self.faces@[f].normal, ..old(self).faces@[f] }),
                forall|f: int|
                    0 <= f < i ==> old(self).is_face_normal(
                        old(self).spec_face_verts(HFaceId(f as u32)),
                        (#[trigger] self.faces@[f]).normal,
                    ),
            decreases n - i,
        {
            let fid = HFaceId(i as u32);
            proof {
                assert(self.faces@[i as int].id.0 == i);
            }
            let vids = self.face_verts(fid);
            proof {
                assert forall|k: int| 0 <= k < vids@.len() implies self.vert_ok(#[trigger] vids@[k]) by {
                    let s = self.faces@[i as int].loop_start.unwrap().0 as int;
                    assert(self.loops@[s + k] == self.loops@[s + k]);
                }
            }
            let normal = self.calculate_face_normal(vids.as_slice());
            proof {
                assert(self.verts == old(self).verts);
                assert(self.spec_face_verts(fid) =~= old(self).spec_face_verts(fid));
                assert(old(self).is_face_normal(old(self).spec_face_verts(fid), normal));
            }
            let ghost before = self.faces@;
            self.face_mut(fid).normal = normal;
            proof {
                assert forall|f: int|
                    0 <= f < i + 1 implies old(self).is_face_normal(
                        old(self).spec_face_verts(HFaceId(f as u32)),
                        (#[trigger] self.faces@[f]).normal,
                    ) by {
                    assert(before[f] == before[f]);
                }
                assert forall|f: int|
                    0 <= f < n implies #[trigger] self.faces@[f] == (HFace { normal: self.faces@[f].normal, ..old(self).faces@[f] }) by {
                    assert(before[f] == before[f]);
                }
                assert forall|f: int, k: int|
                    0 <= f < self.faces@.len() && (#[trigger] self.faces@[f]).loop_start.unwrap().0 <= k
                        < self.faces@[f].loop_start.unwrap().0 + self.faces@[f].loop_total && 0 <= k
                        < self.loops@.len() implies (#[trigger] self.loops@[k]).face.0 == f by {
                    assert(before[f] == before[f]);
                }
                assert forall|f: int| 0 <= f < self.faces@.len() implies {
                    let face = #[trigger] self.faces@[f];
                    &&& face.id.0 == f
                    &&& face.loop_start is Some
                    &&& face.loop_total >= 1
                    &&& face.loop_start.unwrap().0 + face.loop_total <= self.loops@.len()
                } by {
                    assert(before[f] == before[f]);
                }
                assert forall|k: int| 0 <= k < self.loops@.len() implies {
                    let f = (#[trigger] self.loops@[k]).face.0 as int;
                    let face = self.faces@[f];
                    &&& 0 <= f < self.faces@.len()
                    &&& face.loop_start.unwrap().0 <= k < face.loop_start.unwrap().0 + face.loop_total
                } by {
                    let f = self.loops@[k].face.0 as int;
                    assert(before[f] == before[f]);
                }
            }
            i = i + 1;
        }
    }

    /// The start vertices of the given edges.
    pub open spec fn starts_of(self, edge_ids: Seq<HEdgeId>) -> Seq<HVertId> {
        edge_ids.map_values(|e: HEdgeId| self.edges@[e.0 as int].vert)
    }

    /// Closes a hole bounded by `edge_loop` (at least three edges) with a
    /// face through the edges' start vertices; `None`, with nothing changed,
    /// for fewer than three edges.
    pub fn fill_hole(&mut self, edge_loop: &[HEdgeId]) -> (r: Option<HFaceId>)
        requires
            old(self).wf(),
            forall|k: int| 0 <= k < edge_loop@.len() ==> old(self).edge_ok(#[trigger] edge_loop@[k]),
            edge_loop@.len() >= 3 ==> {
                &&& old(self).faces@.len() < u32::MAX
                &&& old(self).loops@.len() + edge_loop@.len() <= u32::MAX
                &&& old(self).edges@.len() + edge_loop@.len() <= u32::MAX
            },
        ensures
            final(self).wf(),
            edge_loop@.len() < 3 ==> r is None && *final(self) == *old(self),
            edge_loop@.len() >= 3 ==> (r matches Some(fid) && Self::face_added(
                *old(self),
                *final(self),
                old(self).starts_of(edge_loop@),
                fid,
            )),
    {
        if edge_loop.len() < 3 {
            return None;
        }
        let mut verts: Vec<HVertId> = Vec::new();
        let mut i: usize = 0;
        while i < edge_loop.len()
            invariant
                self.wf(),
                forall|k: int| 0 <= k < edge_loop@.len() ==> self.edge_ok(#[trigger] edge_loop@[k]),
                i <= edge_loop@.len(),
                verts@ == self.starts_of(edge_loop@.take(i as int)),
            decreases edge_loop@.len() - i,
        {
            verts.push(self.edge(edge_loop[i]).vert);
            proof {
                assert(verts@ =~= self.starts_of(edge_loop@.take(i + 1)));
            }
            i = i + 1;
        }
        proof {
            assert(edge_loop@.take(i as int) =~= edge_loop@);
            assert forall|k: int| 0 <= k < verts@.len() implies self.vert_ok(#[trigger] verts@[k]) by {
                assert(self.edges@[edge_loop@[k].0 as int] == self.edges@[edge_loop@[k].0 as int]);
            }
        }
        Some(self.add_face(verts.as_slice()))
    }

    /// Where the corner that `flip_faces` puts at loop `k` comes from: the
    /// mirror position of `k` within its face's block of loops.
    pub open spec fn mirror_loop(self, k: int) -> int {
        let face = self.faces@[self.loops@[k].face.0 as int];
        let s = face.loop_start.unwrap().0 as int;
        s + face.loop_total - 1 - (k - s)
    }

    /// Reverses the corner order of every face (each corner takes the vertex
    /// of its mirror corner) and turns every face normal around.
    #[verifier::rlimit(40)]
    pub fn flip_faces(&mut self)
        requires
            old(self).wf(),
        ensures
            final(self).wf(),
            *final(self) == (BMesh { faces: final(self).faces, loops: final(self).loops, ..*old(self) }),
            final(self).faces@.len() == old(self).faces@.len(),
            forall|f: int|
                0 <= f < old(self).faces@.len() ==> #[trigger] final(self).faces@[f] == (HFace {
                    normal: final(self).faces@[f].normal,
                    ..old(self).faces@[f]
                }),
            final(self).loops@.len() == old(self).loops@.len(),
            forall|k: int|
                0 <= k < old(self).loops@.len() ==> #[trigger] final(self).loops@[k] == (HLoop {
                    vert: old(self).loops@[old(self).mirror_loop(k)].vert,
                    ..old(self).loops@[k]
                }),
    {
        let n = self.faces.len();
        let mut fi: usize = 0;
        while fi < n
            invariant
                n == old(self).faces@.len(),
                old(self).wf(),
                self.wf(),
                *self == (BMesh { faces: self.faces, loops: self.loops, ..*old(self) }),
                self.faces@.len() == n,
                fi <= n,
                forall|f: int|
                    0 <= f < n ==> #[trigger] self.faces@[f] == (HFace { normal: self.faces@[f].normal, ..old(self).faces@[f] }),
                self.loops@.len() == old(self).loops@.len(),
                forall|k: int|
                    0 <= k < old(self).loops@.len() ==> #[trigger] self.loops@[k] == if old(self).loops@[k].face.0 < fi {
                        HLoop { vert: old(self).loops@[old(self).mirror_loop(k)].vert, ..old(self).loops@[k] }
                    } else {
                        old(self).loops@[k]
                    },
            decreases n - fi,
        {
            let fid = HFaceId(fi as u32);
            proof {
                assert(self.faces@[fi as int].id.0 == fi);
            }
            let loop_start = self.face(fid).loop_start;
            let loop_total = self.face(fid).loop_total;
            let vids = self.face_verts(fid);
            let ghost s = loop_start.unwrap().0 as int;
            let ghost t = loop_total as int;
            proof {
                assert(old(self).faces@[fi as int] == old(self).faces@[fi as int]);
                assert forall|i: int| 0 <= i < t implies #[trigger] vids@[i] == old(self).loops@[s + i].vert by {
                    assert(old(self).loops@[s + i].face.0 == fi);
                    assert(self.loops@[s + i] == old(self).loops@[s + i]);
                }
            }
            let mut reversed: Vec<HVertId> = Vec::new();
            let mut r: usize = vids.len();
            while r > 0
                invariant
                    r <= vids@.len(),
                    reversed@.len() == vids@.len() - r,
                    forall|i: int| 0 <= i < reversed@.len() ==> #[trigger] reversed@[i] == vids@[vids@.len() - 1 - i],
                decreases r,
            {
                r = r - 1;
                reversed.push(vids[r]);
            }
            if let Some(start) = loop_start {
                let mut i: u32 = 0;
                while i < loop_total
                    invariant
                        old(self).wf(),
                        self.wf(),
                        *self == (BMesh { faces: self.faces, loops: self.loops, ..*old(self) }),
                        self.faces@.len() == n,
                        forall|f: int|
                            0 <= f < n ==> #[trigger] self.faces@[f] == (HFace {
                                normal: self.faces@[f].normal,
                                ..old(self).faces@[f]
                            }),
                        self.verts == old(self).verts,
                        self.edges == old(self).edges,
                        self.loops@.len() == old(self).loops@.len(),
                        s == start.0,
                        t == loop_total,
                        fi < n,
                        n == old(self).faces@.len(),
                        s + t <= old(self).loops@.len(),
                        old(self).faces@[fi as int].loop_start == Some(start),
                        old(self).faces@[fi as int].loop_total == loop_total,
                        reversed@.len() == t,
                        forall|q: int| 0 <= q < t ==> #[trigger] reversed@[q] == old(self).loops@[s + t - 1 - q].vert,
                        i <= loop_total,
                        forall|k: int|
                            0 <= k < old(self).loops@.len() ==> #[trigger] self.loops@[k] == if old(self).loops@[k].face.0
                                < fi || (old(self).loops@[k].face.0 == fi && k < s + i) {
                                HLoop { vert: old(self).loops@[old(self).mirror_loop(k)].vert, ..old(self).loops@[k] }
                            } else {
                                old(self).loops@[k]
                            },
                    decreases loop_total - i,
                {
                    let lid = HLoopId(start.0 + i);
                    let ghost before = self.loops@;
                    proof {
                        assert(old(self).faces@[fi as int] == old(self).faces@[fi as int]);
                        assert(old(self).loops@[s + i].face.0 == fi);
                        assert(old(self).mirror_loop(s + i) == s + t - 1 - i);
                        assert(old(self).vert_ok(old(self).loops@[s + t - 1 - i].vert));
                    }
                    self.loop_mut(lid).vert = reversed[i as usize];
                    proof {
                        assert forall|k: int|
                            0 <= k < old(self).loops@.len() implies #[trigger] self.loops@[k] == if old(self).loops@[k].face.0
                                < fi || (old(self).loops@[k].face.0 == fi && k < s + i + 1) {
                                HLoop { vert: old(self).loops@[old(self).mirror_loop(k)].vert, ..old(self).loops@[k] }
                            } else {
                                old(self).loops@[k]
                            } by {
                            if k != s + i {
                                assert(self.loops@[k] == before[k]);
                            }
                        }
                        assert forall|k: int| 0 <= k < self.loops@.len() implies {
                            let l = #[trigger] self.loops@[k];
                            &&& l.id.0 == k
                            &&& self.vert_ok(l.vert)
                            &&& self.edge_ok(l.edge)
                            &&& l.face.0 < self.faces@.len()
                        } by {
                            assert(old(self).loops@[k] == old(self).loops@[k]);
                            assert(old(self).vert_ok(old(self).loops@[old(self).mirror_loop(k)].vert)) by {
                                let f = old(self).loops@[k].face.0 as int;
                                assert(old(self).faces@[f] == old(self).faces@[f]);
                            }
                        }
                        assert forall|f: int, k: int|
                            0 <= f < self.faces@.len() && (#[trigger] self.faces@[f]).loop_start.unwrap().0 <= k
                                < self.faces@[f].loop_start.unwrap().0 + self.faces@[f].loop_total && 0 <= k
                                < self.loops@.len() implies (#[trigger] self.loops@[k]).face.0 == f by {
                            assert(old(self).faces@[f] == old(self).faces@[f]);
                            assert(old(self).loops@[k] == old(self).loops@[k]);
                        }
                        assert forall|k: int| 0 <= k < self.loops@.len() implies {
                            let f = (#[trigger] self.loops@[k]).face.0 as int;
                            let face = self.faces@[f];
                            &&& 0 <= f < self.faces@.len()
                            &&& face.loop_start.unwrap().0 <= k < face.loop_start.unwrap().0 + face.loop_total
                        } by {
                            assert(old(self).loops@[k] == old(self).loops@[k]);
                            let f = old(self).loops@[k].face.0 as int;
                            assert(old(self).faces@[f] == old(self).faces@[f]);
                        }
                    }
                    i = i + 1;
                }
            }
            let normal = G::negated_normal(&self.face(fid).normal);
            let ghost before = self.faces@;
            self.face_mut(fid).normal = normal;
            proof {
                assert forall|f: int|
                    0 <= f < n implies #[trigger] self.faces@[f] == (HFace { normal: self.faces@[f].normal, ..old(self).faces@[f] }) by {
                    assert(before[f] == before[f]);
                }
                assert forall|k: int|
                    0 <= k < old(self).loops@.len() implies #[trigger] self.loops@[k] == if old(self).loops@[k].face.0 < fi + 1 {
                        HLoop { vert: old(self).loops@[old(self).mirror_loop(k)].vert, ..old(self).loops@[k] }
                    } else {
                        old(self).loops@[k]
                    } by {
                    if old(self).loops@[k].face.0 == fi {
                        assert(old(self).faces@[fi as int] == old(self).faces@[fi as int]);
                        assert(s <= k < s + t);
                    }
                }
                assert forall|f: int, k: int|
                    0 <= f < self.faces@.len() && (#[trigger] self.faces@[f]).loop_start.unwrap().0 <= k
                        < self.faces@[f].loop_start.unwrap().0 + self.faces@[f].loop_total && 0 <= k
                        < self.loops@.len() implies (#[trigger] self.loops@[k]).face.0 == f by {
                    assert(before[f] == before[f]);
                }
                assert forall|f: int| 0 <= f < self.faces@.len() implies {
                    let face = #[trigger] self.faces@[f];
                    &&& face.id.0 == f
                    &&& face.loop_start is Some
                    &&& face.loop_total >= 1
                    &&& face.loop_start.unwrap().0 + face.loop_total <= self.loops@.len()
                } by {
                    assert(before[f] == before[f]);
                }
                assert forall|k: int| 0 <= k < self.loops@.len() implies {
                    let f = (#[trigger] self.loops@[k]).face.0 as int;
                    let face = self.faces@[f];
                    &&& 0 <= f < self.faces@.len()
                    &&& face.loop_start.unwrap().0 <= k < face.loop_start.unwrap().0 + face.loop_total
                } by {
                    let f = self.loops@[k].face.0 as int;
                    assert(before[f] == before[f]);
                }
            }
            fi = fi + 1;
        }
    }

    /// Changing faces in ways that keep their ids and loop blocks keeps the
    /// mesh well formed.
    pub proof fn lemma_wf_same_shape(pre: Self, post: Self)
        requires
            pre.wf(),
            post.verts == pre.verts,
            post.edges == pre.edges,
            post.loops == pre.loops,
            post.faces@.len() == pre.faces@.len(),
            forall|f: int|
                0 <= f < pre.faces@.len() ==> {
                    &&& (#[trigger] post.faces@[f]).id == pre.faces@[f].id
                    &&& post.faces@[f].loop_start == pre.faces@[f].loop_start
                    &&& post.faces@[f].loop_total == pre.faces@[f].loop_total
                },
        ensures
            post.wf(),
    {
        assert forall|f: int, k: int|
            0 <= f < post.faces@.len() && (#[trigger] post.faces@[f]).loop_start.unwrap().0 <= k
                < post.faces@[f].loop_start.unwrap().0 + post.faces@[f].loop_total && 0 <= k
                < post.loops@.len() implies (#[trigger] post.loops@[k]).face.0 == f by {
            assert(pre.faces@[f] == pre.faces@[f]);
        }
        assert forall|f: int| 0 <= f < post.faces@.len() implies {
            let face = #[trigger] post.faces@[f];
            &&& face.id.0 == f
            &&& face.loop_start is Some
            &&& face.loop_total >= 1
            &&& face.loop_start.unwrap().0 + face.loop_total <= post.loops@.len()
        } by {
            assert(pre.faces@[f] == pre.faces@[f]);
        }
        assert forall|k: int| 0 <= k < post.loops@.len() implies {
            let f = (#[trigger] post.loops@[k]).face.0 as int;
            let face = post.faces@[f];
            &&& 0 <= f < post.faces@.len()
            &&& face.loop_start.unwrap().0 <= k < face.loop_start.unwrap().0 + face.loop_total
        } by {
            let f = post.loops@[k].face.0 as int;
            assert(pre.faces@[f] == pre.faces@[f]);
        }
    }

    /// A face's corner vertices stay put while its loop block and the loops
    /// it covers stay put.
    pub proof fn lemma_face_verts_stable(pre: Self, post: Self, f: int)
        requires
            pre.wf(),
            0 <= f < pre.faces@.len(),
            f < post.faces@.len(),
            post.faces@[f].loop_start == pre.faces@[f].loop_start,
            post.faces@[f].loop_total == pre.faces@[f].loop_total,
            post.loops@.len() >= pre.loops@.len(),
            post.loops@.subrange(0, pre.loops@.len() as int) == pre.loops@,
        ensures
            post.spec_face_verts(HFaceId(f as u32)) == pre.spec_face_verts(HFaceId(f as u32)),
    {
        let face = pre.faces@[f];
        assert(face == pre.faces@[f]);
        let s = face.loop_start.unwrap().0 as int;
        assert forall|i: int| 0 <= i < face.loop_total implies #[trigger] post.loops@[s + i] == pre.loops@[s + i] by {
            assert(post.loops@.subrange(0, pre.loops@.len() as int)[s + i] == post.loops@[s + i]);
        }
        assert(post.spec_face_verts(HFaceId(f as u32)) =~= pre.spec_face_verts(HFaceId(f as u32)));
    }

    /// The triangles a fan split makes of a polygon with more than three
    /// corners: corner 0 with each pair of neighbouring later corners.
    pub open spec fn fan(vs: Seq<HVertId>) -> Seq<Seq<HVertId>> {
        if vs.len() > 3 {
            Seq::new((vs.len() - 2) as nat, |i: int| seq![vs[0], vs[i + 1], vs[i + 2]])
        } else {
            Seq::empty()
        }
    }

    /// The fan triangles of the first `m` faces, in face order.
    pub open spec fn fans_upto(self, m: int) -> Seq<Seq<HVertId>>
        decreases m,
    {
        if m <= 0 {
            Seq::empty()
        } else {
            self.fans_upto(m - 1) + Self::fan(self.spec_face_verts(HFaceId((m - 1) as u32)))
        }
    }

    /// The fan triangles of every face.
    pub open spec fn triangle_fans(self) -> Seq<Seq<HVertId>> {
        self.fans_upto(self.faces@.len() as int)
    }

    pub proof fn lemma_fans_grow(self, m: int, n: int)
        requires
            0 <= m <= n,
        ensures
            self.fans_upto(m).len() <= self.fans_upto(n).len(),
        decreases n - m,
    {
        if m < n {
            self.lemma_fans_grow(m, n - 1);
        }
    }

    /// Splits every face with more than three corners into a fan of
    /// triangles (appended as new faces, in order) and hides the polygon itself.
    #[verifier::rlimit(50)]
    pub fn triangulate(&mut self)
        requires
            old(self).wf(),
            old(self).faces@.len() + old(self).triangle_fans().len() <= u32::MAX,
            old(self).loops@.len() + 3 * old(self).triangle_fans().len() <= u32::MAX,
            old(self).edges@.len() + 3 * old(self).triangle_fans().len() <= u32::MAX,
        ensures
            final(self).wf(),
            final(self).faces@.len() == old(self).faces@.len() + old(self).triangle_fans().len(),
            forall|f: int|
                0 <= f < old(self).faces@.len() ==> #[trigger] final(self).faces@[f] == (HFace {
                    hide: old(self).faces@[f].hide || old(self).faces@[f].loop_total > 3,
                    ..old(self).faces@[f]
                }),
            forall|j: int|
                0 <= j < old(self).triangle_fans().len() ==> final(self).spec_face_verts(
                    HFaceId((old(self).faces@.len() + j) as u32),
                ) == #[trigger] old(self).triangle_fans()[j],
            final(self).loops@.subrange(0, old(self).loops@.len() as int) == old(self).loops@,
            final(self).verts@.len() == old(self).verts@.len(),
            forall|v: int|
                0 <= v < old(self).verts@.len() ==> Self::vert_kept(old(self).verts@[v], #[trigger] final(self).verts@[v]),
    {
        let n = self.faces.len();
        let ghost old_f = n as int;
        let ghost old_l = old(self).loops@.len() as int;
        let ghost old_e = old(self).edges@.len() as int;
        let ghost total = old(self).triangle_fans().len() as int;
        let mut fi: usize = 0;
        while fi < n
            invariant
                n == old_f,
                old_f == old(self).faces@.len(),
                old_l == old(self).loops@.len(),
                old_e == old(self).edges@.len(),
                total == old(self).triangle_fans().len(),
                old(self).wf(),
                old_f + total <= u32::MAX,
                old_l + 3 * total <= u32::MAX,
                old_e + 3 * total <= u32::MAX,
                self.wf(),
                fi <= n,
                old(self).fans_upto(fi as int).len() <= total,
                self.faces@.len() == old_f + old(self).fans_upto(fi as int).len(),
                self.loops@.len() == old_l + 3 * old(self).fans_upto(fi as int).len(),
                old_e <= self.edges@.len() <= old_e + 3 * old(self).fans_upto(fi as int).len(),
                self.loops@.subrange(0, old_l) == old(self).loops@,
                self.verts@.len() == old(self).verts@.len(),
                forall|v: int|
                    0 <= v < old(self).verts@.len() ==> Self::vert_kept(old(self).verts@[v], #[trigger] self.verts@[v]),
                forall|f: int|
                    0 <= f < old_f ==> #[trigger] self.faces@[f] == (HFace {
                        hide: old(self).faces@[f].hide || (f < fi && old(self).faces@[f].loop_total > 3),
                        ..old(self).faces@[f]
                    }),
                forall|j: int|
                    0 <= j < old(self).fans_upto(fi as int).len() ==> self.spec_face_verts(HFaceId((old_f + j) as u32))
                        == #[trigger] old(self).fans_upto(fi as int)[j],
            decreases n - fi,
        {
            let fid = HFaceId(fi as u32);
            proof {
                old(self).lemma_fans_grow(fi + 1, n as int);
                assert(self.faces@[fi as int] == self.faces@[fi as int]);
                assert(self.loops@.len() >= old_l);
                Self::lemma_face_verts_stable(*old(self), *self, fi as int);
            }
            let vids = self.face_verts(fid);
            let ghost fan_here = Self::fan(vids@);
            let ghost prev_fans = old(self).fans_upto(fi as int);
            proof {
                assert(old(self).fans_upto(fi + 1) == prev_fans + fan_here);
            }
            if vids.len() > 3 {
                let ghost before = *self;
                self.face_mut(fid).hide = true;
                proof {
                    Self::lemma_wf_same_shape(before, *self);
                    assert forall|j: int|
                        0 <= j < prev_fans.len() implies self.spec_face_verts(HFaceId((old_f + j) as u32))
                            == #[trigger] prev_fans[j] by {
                        assert(before.spec_face_verts(HFaceId((old_f + j) as u32)) == prev_fans[j]);
                        assert(self.faces@[old_f + j] == before.faces@[old_f + j]);
                        assert(self.spec_face_verts(HFaceId((old_f + j) as u32)) =~= before.spec_face_verts(
                            HFaceId((old_f + j) as u32),
                        ));
                    }
                }
                let m = vids.len();
                let mut i: usize = 1;
                while i < m - 1
                    invariant
                        m == vids@.len(),
                        m > 3,
                        1 <= i <= m - 1,
                        fan_here == Self::fan(vids@),
                        fan_here.len() == m - 2,
                        fi < n,
                        n == old_f,
                        old_f == old(self).faces@.len(),
                        old_l == old(self).loops@.len(),
                        old_e == old(self).edges@.len(),
                        prev_fans == old(self).fans_upto(fi as int),
                        prev_fans.len() + fan_here.len() <= total,
                        old_f + total <= u32::MAX,
                        old_l + 3 * total <= u32::MAX,
                        old_e + 3 * total <= u32::MAX,
                        old(self).wf(),
                        self.wf(),
                        forall|k: int| 0 <= k < m ==> self.vert_ok(#[trigger] vids@[k]),
                        self.faces@.len() == old_f + prev_fans.len() + (i - 1),
                        self.loops@.len() == old_l + 3 * (prev_fans.len() + (i - 1)),
                        old_e <= self.edges@.len() <= old_e + 3 * (prev_fans.len() + (i - 1)),
                        self.loops@.subrange(0, old_l) == old(self).loops@,
                        self.verts@.len() == old(self).verts@.len(),
                        forall|v: int|
                            0 <= v < old(self).verts@.len() ==> Self::vert_kept(old(self).verts@[v], #[trigger] self.verts@[v]),
                        forall|f: int|
                            0 <= f < old_f ==> #[trigger] self.faces@[f] == (HFace {
                                hide: old(self).faces@[f].hide || (f < fi + 1 && old(self).faces@[f].loop_total > 3),
                                ..old(self).faces@[f]
                            }),
                        forall|j: int|
                            0 <= j < prev_fans.len() + (i - 1) ==> self.spec_face_verts(HFaceId((old_f + j) as u32))
                                == #[trigger] (prev_fans + fan_here)[j],
                    decreases m - 1 - i,
                {
                    let tri = vec![vids[0], vids[i], vids[i + 1]];
                    let ghost before = *self;
                    proof {
                        assert forall|k: int| 0 <= k < tri@.len() implies self.vert_ok(#[trigger] tri@[k]) by {}
                    }
                    let new_fid = self.add_face(tri.as_slice());
                    proof {
                        let nf = (old_f + prev_fans.len() + (i - 1)) as int;
                        assert(self.faces@.drop_last()[0] == self.faces@[0]);
                        assert forall|f: int| 0 <= f < nf implies #[trigger] self.faces@[f] == before.faces@[f] by {
                            assert(self.faces@.drop_last()[f] == self.faces@[f]);
                        }
                        assert forall|j: int|
                            0 <= j < prev_fans.len() + i implies self.spec_face_verts(HFaceId((old_f + j) as u32))
                                == #[trigger] (prev_fans + fan_here)[j] by {
                            if j < prev_fans.len() + (i - 1) {
                                Self::lemma_face_verts_stable(before, *self, old_f + j);
                            } else {
                                assert(new_fid == HFaceId(nf as u32));
                                assert(self.spec_face_verts(new_fid) =~= tri@) by {
                                    let l0 = before.loops@.len() as int;
                                    assert(self.loops@[l0 + 0] == self.loops@[l0 + 0]);
                                    assert(self.loops@[l0 + 1] == self.loops@[l0 + 1]);
                                    assert(self.loops@[l0 + 2] == self.loops@[l0 + 2]);
                                }
                                assert((prev_fans + fan_here)[j] == fan_here[i - 1]);
                                assert(fan_here[i - 1] =~= tri@);
                            }
                        }
                        assert(self.loops@.subrange(0, old_l) =~= old(self).loops@) by {
                            assert forall|k: int| 0 <= k < old_l implies self.loops@[k] == old(self).loops@[k] by {
                                assert(self.loops@.subrange(0, before.loops@.len() as int)[k] == self.loops@[k]);
                                assert(before.loops@.subrange(0, old_l)[k] == before.loops@[k]);
                            }
                        }
                    }
                    i = i + 1;
                }
            } else {
                proof {
                    assert(fan_here =~= Seq::<Seq<HVertId>>::empty());
                    assert(prev_fans + fan_here =~= prev_fans);
                }
            }
            proof {
                assert forall|j: int|
                    0 <= j < old(self).fans_upto(fi + 1).len() implies self.spec_face_verts(HFaceId((old_f + j) as u32))
                        == #[trigger] old(self).fans_upto(fi + 1)[j] by {
                    assert((prev_fans + fan_here)[j] == old(self).fans_upto(fi + 1)[j]);
                }
            }
            fi = fi + 1;
        }
    }
}

} // verus!
