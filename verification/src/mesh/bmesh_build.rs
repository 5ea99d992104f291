//! Building faces of a [`BMesh`]: corner loops, side edges and their links.
use vstd::prelude::*;
use super::bmesh::{BMesh, BMeshGeometry, HEdge, HEdgeId, HFace, HLoop, HLoopId, HVert, HVertId, HFaceId, SelectState};

verus! {

impl<G: BMeshGeometry> BMesh<G> {
    /// The corner after corner `k` of an `n`-gon.
    pub open spec fn cyc_next(k: int, n: int) -> int {
        if k + 1 < n {
            k + 1
        } else {
            0
        }
    }

    pub proof fn lemma_cyc_next(k: int, n: int)
        requires
            0 <= k < n,
        ensures
            (k + 1) % n == Self::cyc_next(k, n),
    {
        if k + 1 < n {
            vstd::arithmetic::div_mod::lemma_small_mod((k + 1) as nat, n as nat);
        } else {
            vstd::arithmetic::div_mod::lemma_mod_self_0(n);
        }
    }

    /// Whether `e` is the edge side `k` of a face through `vert_ids` uses,
    /// judged against the mesh `pre` the face is added to. The side runs from
    /// `vert_ids[k]` to the next corner. An edge that was already there joins
    /// the two corners; and when the edges met walking from the side's first
    /// vertex include one that joins them, `e` is the first such.
    pub open spec fn side_edge_ok(pre: Self, vert_ids: Seq<HVertId>, k: int, e: HEdgeId) -> bool {
        let v0 = vert_ids[k];
        let v1 = vert_ids[Self::cyc_next(k, vert_ids.len() as int)];
        let es = pre.spec_vert_edges(v0);
        &&& (e.0 < pre.edges@.len() ==> pre.joins(e, v0, v1))
        &&& ((exists|i: int| 0 <= i < es.len() && pre.joins(#[trigger] es[i], v0, v1)) ==> exists|i: int|
            0 <= i < es.len() && #[trigger] es[i] == e && pre.joins(e, v0, v1) && forall|j: int|
                0 <= j < i ==> !pre.joins(#[trigger] es[j], v0, v1))
    }

    /// Whether no vertex appears twice.
    pub open spec fn distinct_verts(vert_ids: Seq<HVertId>) -> bool {
        forall|a: int, b: int| 0 <= a < b < vert_ids.len() ==> vert_ids[a] != vert_ids[b]
    }

    /// Whether an edge used by two sides is one that was already there: a
    /// new edge serves one side only.
    pub open spec fn new_edges_apart(pre: Self, edge_ids: Seq<HEdgeId>) -> bool {
        forall|a: int, b: int|
            0 <= a < b < edge_ids.len() && #[trigger] edge_ids[a] == #[trigger] edge_ids[b] ==> edge_ids[a].0 < pre.edges@.len()
    }

    /// Walking from an edge of `pre` gives the same edges in a mesh that
    /// only added edges and kept the links of the old ones.
    proof fn lemma_walk_same(pre: Self, s: Self, start: Option<HEdgeId>, k: nat)
        requires
            pre.topo_wf(),
            pre.opt_edge_ok(start),
            pre.edges@.len() <= s.edges@.len(),
            forall|j: int| 0 <= j < pre.edges@.len() ==> (#[trigger] s.edges@[j]).next == pre.edges@[j].next,
        ensures
            s.walk(start, k) == pre.walk(start, k),
        decreases k,
    {
        if k > 0 {
            Self::lemma_walk_same(pre, s, start, (k - 1) as nat);
            pre.lemma_walk_ok(start, (k - 1) as nat);
            match pre.walk(start, (k - 1) as nat) {
                Some(x) => {
                    assert(s.edges@[x.0 as int].next == pre.edges@[x.0 as int].next);
                },
                None => {},
            }
        }
    }

    /// Equal walks have equal lengths.
    proof fn lemma_walk_len_same(pre: Self, s: Self, start: Option<HEdgeId>, k: nat, fuel: nat)
        requires
            forall|q: nat| #[trigger] s.walk(start, q) == pre.walk(start, q),
        ensures
            s.walk_len(start, k, fuel) == pre.walk_len(start, k, fuel),
        decreases fuel,
    {
        assert(s.walk(start, k) == pre.walk(start, k));
        assert(s.walk(start, k + 1) == pre.walk(start, k + 1));
        if fuel > 0 {
            Self::lemma_walk_len_same(pre, s, start, k + 1, (fuel - 1) as nat);
        }
    }

    /// More fuel never shortens a walk.
    proof fn lemma_walk_len_mono(self, start: Option<HEdgeId>, k: nat, f0: nat, f1: nat)
        requires
            f0 <= f1,
        ensures
            self.walk_len(start, k, f0) <= self.walk_len(start, k, f1),
        decreases f0,
    {
        if f0 > 0 {
            self.lemma_walk_len_mono(start, k + 1, (f0 - 1) as nat, (f1 - 1) as nat);
        }
    }

    /// The edges `s` walks from `v` start with those `pre` walks, when `s`
    /// only added edges, kept the old ones' links and start vertices, and
    /// kept `v`'s first edge.
    proof fn lemma_vert_edges_prefix(pre: Self, s: Self, v: HVertId)
        requires
            pre.topo_wf(),
            pre.vert_ok(v),
            s.verts@[v.0 as int].head_edge == pre.verts@[v.0 as int].head_edge,
            pre.edges@.len() <= s.edges@.len(),
            forall|j: int| 0 <= j < pre.edges@.len() ==> (#[trigger] s.edges@[j]).next == pre.edges@[j].next,
        ensures
            pre.spec_vert_edges(v).len() <= s.spec_vert_edges(v).len(),
            forall|i: int|
                0 <= i < s.spec_vert_edges(v).len() ==> #[trigger] s.spec_vert_edges(v)[i] == pre.walk(
                    pre.verts@[v.0 as int].head_edge,
                    i as nat,
                ).unwrap() && pre.edge_ok(s.spec_vert_edges(v)[i]),
            forall|i: int|
                0 <= i < pre.spec_vert_edges(v).len() ==> #[trigger] pre.spec_vert_edges(v)[i] == s.spec_vert_edges(v)[i],
    {
        let start = pre.verts@[v.0 as int].head_edge;
        assert forall|q: nat| #[trigger] s.walk(start, q) == pre.walk(start, q) by {
            Self::lemma_walk_same(pre, s, start, q);
        }
        Self::lemma_walk_len_same(pre, s, start, 0, s.edges@.len());
        pre.lemma_walk_len_mono(start, 0, pre.edges@.len(), s.edges@.len());
        assert forall|i: int|
            0 <= i < s.spec_vert_edges(v).len() implies #[trigger] s.spec_vert_edges(v)[i] == pre.walk(start, i as nat).unwrap()
                && pre.edge_ok(s.spec_vert_edges(v)[i]) by {
            pre.lemma_walk_len_some(start, 0, s.edges@.len(), i as nat);
            pre.lemma_walk_ok(start, i as nat);
        }
    }

    /// An old edge joins the same vertices in `s` as in `pre` when `s` kept
    /// the old edges' links and start vertices.
    proof fn lemma_joins_same(pre: Self, s: Self, e: HEdgeId, v0: HVertId, v1: HVertId)
        requires
            pre.topo_wf(),
            pre.edge_ok(e),
            pre.edges@.len() <= s.edges@.len(),
            forall|j: int|
                0 <= j < pre.edges@.len() ==> (#[trigger] s.edges@[j]).next == pre.edges@[j].next && s.edges@[j].vert
                    == pre.edges@[j].vert,
        ensures
            s.joins(e, v0, v1) == pre.joins(e, v0, v1),
    {
        let ne = pre.edges@[e.0 as int].next.unwrap_or(e);
        assert(s.edges@[e.0 as int].next == pre.edges@[e.0 as int].next);
        assert(pre.edge_ok(ne));
        assert(s.edges@[ne.0 as int].vert == pre.edges@[ne.0 as int].vert);
    }

    /// What `add_face` keeps of a vertex: everything but a first edge it gains.
    pub open spec fn vert_kept(old_v: HVert<G::VertAttrs>, new_v: HVert<G::VertAttrs>) -> bool {
        &&& new_v == HVert { head_edge: new_v.head_edge, ..old_v }
        &&& (old_v.head_edge is Some ==> new_v.head_edge == old_v.head_edge)
    }

    /// What `add_face` keeps of an existing edge: everything but its face
    /// (which can only become the new face) and its face links.
    pub open spec fn edge_kept(old_e: HEdge, new_e: HEdge, fid: HFaceId) -> bool {
        &&& new_e == HEdge { face: new_e.face, next: new_e.next, prev: new_e.prev, ..old_e }
        &&& (new_e.face != old_e.face ==> new_e.face == Some(fid))
    }

    /// The loop record that `add_face` appends for corner `k`.
    pub open spec fn corner_ok(l: HLoop<G::LoopAttrs>, idx: int, v: HVertId, e: HEdgeId, fid: HFaceId) -> bool {
        &&& l.id.0 == idx
        &&& l.vert == v
        &&& l.face == fid
        &&& l.edge == e
    }

    /// The edge picked for side `k` (found walking from its first vertex in
    /// the mesh `head`, or else newly made, giving `added`) is the one
    /// [`BMesh::side_edge_ok`] asks for.
    #[verifier::rlimit(40)]
    proof fn lemma_side_chosen(
        pre: Self,
        head: Self,
        added: Self,
        vert_ids: Seq<HVertId>,
        k: int,
        found: Option<HEdgeId>,
        e: HEdgeId,
    )
        requires
            pre.wf(),
            head.topo_wf(),
            0 <= k < vert_ids.len(),
            forall|q: int| 0 <= q < vert_ids.len() ==> pre.vert_ok(#[trigger] vert_ids[q]),
            head.verts@.len() == pre.verts@.len(),
            forall|v: int| 0 <= v < pre.verts@.len() ==> Self::vert_kept(pre.verts@[v], #[trigger] head.verts@[v]),
            pre.edges@.len() <= head.edges@.len(),
            forall|j: int|
                0 <= j < pre.edges@.len() ==> (#[trigger] head.edges@[j]).next == pre.edges@[j].next && head.edges@[j].vert
                    == pre.edges@[j].vert,
            forall|j: int| pre.edges@.len() <= j < head.edges@.len() ==> (#[trigger] head.edges@[j]).next is None,
            forall|v: int|
                0 <= v < pre.verts@.len() && pre.verts@[v].head_edge is None ==> (#[trigger] head.verts@[v].head_edge matches Some(
                    x,
                ) ==> x.0 >= pre.edges@.len()),
            ({
                let v0 = vert_ids[k];
                let v1 = vert_ids[Self::cyc_next(k, vert_ids.len() as int)];
                let es = head.spec_vert_edges(v0);
                match found {
                    None => forall|i: int| 0 <= i < es.len() ==> !head.joins(#[trigger] es[i], v0, v1),
                    Some(f) => exists|i: int|
                        0 <= i < es.len() && es[i] == f && head.joins(f, v0, v1) && forall|j: int|
                            0 <= j < i ==> !head.joins(#[trigger] es[j], v0, v1),
                }
            }),
            found matches Some(f) ==> e == f,
            found is None ==> e.0 >= pre.edges@.len(),
            forall|v: int|
                0 <= v < pre.verts@.len() && pre.verts@[v].head_edge is None && head.verts@[v].head_edge is Some
                    ==> exists|a: int| 0 <= a < k && (#[trigger] vert_ids[a]).0 == v,
        ensures
            Self::side_edge_ok(pre, vert_ids, k, e),
            Self::distinct_verts(vert_ids) ==> (found matches Some(f) ==> f.0 < pre.edges@.len()),
    {
        let v0 = vert_ids[k];
        let v1 = vert_ids[Self::cyc_next(k, vert_ids.len() as int)];
        let es = head.spec_vert_edges(v0);
        let pes = pre.spec_vert_edges(v0);
        let start = pre.verts@[v0.0 as int].head_edge;
        assert(Self::vert_kept(pre.verts@[v0.0 as int], head.verts@[v0.0 as int]));
        if start is Some {
            Self::lemma_vert_edges_prefix(pre, head, v0);
            match found {
                Some(f) => {
                    let i = choose|i: int|
                        0 <= i < es.len() && es[i] == f && head.joins(f, v0, v1) && forall|j: int|
                            0 <= j < i ==> !head.joins(#[trigger] es[j], v0, v1);
                    assert(pre.edge_ok(es[i]));
                    Self::lemma_joins_same(pre, head, f, v0, v1);
                    assert forall|j: int| 0 <= j < pes.len() implies (#[trigger] pre.joins(pes[j], v0, v1)) == head.joins(
                        es[j],
                        v0,
                        v1,
                    ) by {
                        assert(pes[j] == es[j]);
                        assert(pre.edge_ok(es[j]));
                        Self::lemma_joins_same(pre, head, es[j], v0, v1);
                    }
                    if exists|i0: int| 0 <= i0 < pes.len() && pre.joins(#[trigger] pes[i0], v0, v1) {
                        let i0 = choose|i0: int| 0 <= i0 < pes.len() && pre.joins(#[trigger] pes[i0], v0, v1);
                        assert(head.joins(es[i0], v0, v1));
                        assert(i <= i0);
                        assert(pes[i] == f);
                        assert forall|j: int| 0 <= j < i implies !pre.joins(#[trigger] pes[j], v0, v1) by {
                            assert(!head.joins(es[j], v0, v1));
                        }
                    }
                },
                None => {
                    assert forall|j: int| 0 <= j < pes.len() implies !pre.joins(#[trigger] pes[j], v0, v1) by {
                        assert(pes[j] == es[j]);
                        assert(pre.edge_ok(es[j]));
                        Self::lemma_joins_same(pre, head, es[j], v0, v1);
                        assert(!head.joins(es[j], v0, v1));
                    }
                },
            }
        } else {
            assert(pes.len() == 0);
            if Self::distinct_verts(vert_ids) && head.verts@[v0.0 as int].head_edge is Some {
                let a = choose|a: int| 0 <= a < k && (#[trigger] vert_ids[a]).0 == v0.0;
                assert(vert_ids[a] == v0);
            }
            match found {
                Some(f) => {
                    let hs = head.verts@[v0.0 as int].head_edge;
                    let i = choose|i: int|
                        0 <= i < es.len() && es[i] == f && head.joins(f, v0, v1) && forall|j: int|
                            0 <= j < i ==> !head.joins(#[trigger] es[j], v0, v1);
                    assert(hs is Some);
                    let x = hs.unwrap();
                    assert(x.0 >= pre.edges@.len());
                    assert(head.edge_ok(x));
                    assert(head.edges@[x.0 as int].next is None);
                    assert(head.walk(hs, 0) == hs);
                    assert(head.walk(hs, 1) == head.next_of(hs));
                    assert(head.walk(hs, 1) is None);
                    assert(head.walk_len(hs, 1, (head.edges@.len() - 1) as nat) == 0);
                    assert(es.len() == 1);
                    assert(es[0] == x);
                },
                None => {},
            }
        }
    }

    /// What `add_corners` does: see its doc.
    #[verifier::opaque]
    pub open spec fn corners_added(
        pre: Self,
        post: Self,
        vert_ids: Seq<HVertId>,
        edge_ids: Seq<HEdgeId>,
        face_id: HFaceId,
    ) -> bool {
        &&& post.topo_wf()
        &&& post.faces == pre.faces
        &&& post.verts@.len() == pre.verts@.len()
        &&& forall|v: int|
                0 <= v < pre.verts@.len() ==> Self::vert_kept(pre.verts@[v], #[trigger] post.verts@[v])
        &&& post.loops@.len() == pre.loops@.len() + vert_ids.len()
        &&& post.loops@.subrange(0, pre.loops@.len() as int) == pre.loops@
        &&& edge_ids.len() == vert_ids.len()
        &&& pre.edges@.len() <= post.edges@.len() <= pre.edges@.len() + vert_ids.len()
        &&& forall|k: int|
                0 <= k < vert_ids.len() ==> Self::corner_ok(
                    #[trigger] post.loops@[pre.loops@.len() + k],
                    pre.loops@.len() + k,
                    vert_ids[k],
                    edge_ids[k],
                    face_id,
                )
        &&& forall|k: int|
                0 <= k < vert_ids.len() ==> {
                    let e = #[trigger] edge_ids[k];
                    &&& post.edge_ok(e)
                    &&& post.edges@[e.0 as int].face == Some(face_id)
                }
        &&& forall|j: int|
                0 <= j < pre.edges@.len() ==> Self::edge_kept(
                    pre.edges@[j],
                    #[trigger] post.edges@[j],
                    face_id,
                )
        &&& forall|j: int|
                #![trigger post.edges@[j]]
                pre.edges@.len() <= j < post.edges@.len() ==> exists|k: int|
                    0 <= k < vert_ids.len() && (#[trigger] edge_ids[k]).0 == j && post.edges@[j].vert
                        == vert_ids[k]
        &&& forall|j: int|
                pre.edges@.len() <= j < post.edges@.len() ==> ((#[trigger] post.edges@[j]).face is None
                    || post.edges@[j].face == Some(face_id))
        &&& forall|k: int| 0 <= k < vert_ids.len() ==> Self::side_edge_ok(pre, vert_ids, k, #[trigger] edge_ids[k])
        &&& Self::distinct_verts(vert_ids) ==> Self::new_edges_apart(pre, edge_ids)
        &&& forall|j: int|
            pre.edges@.len() <= j < post.edges@.len() ==> #[trigger] post.edges@[j] == (HEdge {
                face: post.edges@[j].face,
                ..Self::fresh_edge(HEdgeId(j as u32), post.edges@[j].vert)
            })
    }

    /// First half of `add_face`: finds or makes the side edges, appends the
    /// corner loops and gives the side edges the new face `face_id`.
    #[verifier::rlimit(40)]
    fn add_corners(&mut self, vert_ids: &[HVertId], face_id: HFaceId) -> (edge_ids: Vec<HEdgeId>)
        requires
            old(self).wf(),
            vert_ids@.len() >= 3,
            forall|k: int| 0 <= k < vert_ids@.len() ==> old(self).vert_ok(#[trigger] vert_ids@[k]),
            old(self).faces@.len() < u32::MAX,
            face_id == HFaceId(old(self).faces@.len() as u32),
            old(self).loops@.len() + vert_ids@.len() <= u32::MAX,
            old(self).edges@.len() + vert_ids@.len() <= u32::MAX,
        ensures
            final(self).topo_wf(),
            Self::corners_added(*old(self), *final(self), vert_ids@, edge_ids@, face_id),
            edge_ids@.len() == vert_ids@.len(),
            forall|k: int| 0 <= k < vert_ids@.len() ==> final(self).edge_ok(#[trigger] edge_ids@[k]),
            final(self).verts@.len() == old(self).verts@.len(),
    {
        let n = vert_ids.len();
        let ghost old_l = old(self).loops@.len();
        let ghost old_e = old(self).edges@.len();
        let mut edge_ids: Vec<HEdgeId> = Vec::new();
        let ghost mut created: Seq<int> = Seq::empty();
        let mut i: usize = 0;
        while i < n
            invariant
                n == vert_ids@.len(),
                n >= 3,
                i <= n,
                forall|k: int| 0 <= k < n ==> old(self).vert_ok(#[trigger] vert_ids@[k]),
                old_l == old(self).loops@.len(),
                old_e == old(self).edges@.len(),
                old_l + n <= u32::MAX,
                old_e + n <= u32::MAX,
                self.topo_wf(),
                self.faces == old(self).faces,
                self.verts@.len() == old(self).verts@.len(),
                forall|v: int|
                    0 <= v < old(self).verts@.len() ==> Self::vert_kept(old(self).verts@[v], #[trigger] self.verts@[v]),
                self.loops@.len() == old_l + i,
                self.loops@.subrange(0, old_l as int) == old(self).loops@,
                edge_ids@.len() == i,
                old_e <= self.edges@.len() <= old_e + i,
                forall|k: int|
                    0 <= k < i ==> Self::corner_ok(
                        #[trigger] self.loops@[old_l + k],
                        old_l + k,
                        vert_ids@[k],
                        edge_ids@[k],
                        face_id,
                    ),
                forall|k: int|
                    0 <= k < i ==> {
                        let e = #[trigger] edge_ids@[k];
                        &&& self.edge_ok(e)
                        &&& self.edges@[e.0 as int].face == Some(face_id)
                    },
                forall|j: int| 0 <= j < old_e ==> Self::edge_kept(old(self).edges@[j], #[trigger] self.edges@[j], face_id),
                created.len() == self.edges@.len() - old_e,
                forall|t: int|
                    0 <= t < created.len() ==> 0 <= #[trigger] created[t] < i && edge_ids@[created[t]].0 == old_e + t
                        && self.edges@[old_e + t].vert == vert_ids@[created[t]],
                forall|j: int|
                    old_e <= j < self.edges@.len() ==> ((#[trigger] self.edges@[j]).face is None || self.edges@[j].face
                        == Some(face_id)),
                old(self).wf(),
                forall|j: int|
                    0 <= j < old_e ==> (#[trigger] self.edges@[j]).next == old(self).edges@[j].next && self.edges@[j].vert
                        == old(self).edges@[j].vert,
                forall|j: int| old_e <= j < self.edges@.len() ==> (#[trigger] self.edges@[j]).next is None,
                forall|v: int|
                    0 <= v < old(self).verts@.len() && old(self).verts@[v].head_edge is None ==> (#[trigger] self.verts@[v].head_edge matches Some(
                        x,
                    ) ==> x.0 >= old_e),
                forall|k: int| 0 <= k < i ==> Self::side_edge_ok(*old(self), vert_ids@, k, #[trigger] edge_ids@[k]),
                forall|v: int|
                    0 <= v < old(self).verts@.len() && old(self).verts@[v].head_edge is None && self.verts@[v].head_edge is Some
                        ==> exists|a: int| 0 <= a < i && (#[trigger] vert_ids@[a]).0 == v,
                Self::distinct_verts(vert_ids@) ==> Self::new_edges_apart(*old(self), edge_ids@),
                forall|j: int|
                    old_e <= j < self.edges@.len() ==> #[trigger] self.edges@[j] == (HEdge {
                        face: self.edges@[j].face,
                        ..Self::fresh_edge(HEdgeId(j as u32), self.edges@[j].vert)
                    }),
            decreases n - i,
        {
            let ghost head = *self;
            let ghost head_ids = edge_ids@;
            let v0 = vert_ids[i];
            proof {
                Self::lemma_cyc_next(i as int, n as int);
            }
            let v1 = vert_ids[(i + 1) % n];
            let existing_edge = self.find_edge(v0, v1);
            let edge_id = match existing_edge {
                Some(eid) => {
                    proof {
                        self.lemma_vert_edges_ok(v0);
                    }
                    eid
                },
                None => self.add_edge(v0, v1),
            };
            let ghost added = *self;
            proof {
                Self::lemma_side_chosen(*old(self), head, added, vert_ids@, i as int, existing_edge, edge_id);
            }
            let attrs = G::loop_attrs(&self.vert(v0).attrs);
            let lid = HLoopId(self.loops.len() as u32);
            self.loops.push(HLoop { id: lid, vert: v0, edge: edge_id, face: face_id, attrs });
            let edge = self.edge_mut(edge_id);
            edge.face = Some(face_id);
            edge_ids.push(edge_id);
            proof {
                assert(self.loops@.subrange(0, old_l as int) =~= head.loops@.subrange(0, old_l as int));
                assert forall|k: int| 0 <= k < i + 1 implies Self::corner_ok(
                    #[trigger] self.loops@[old_l + k],
                    old_l + k,
                    vert_ids@[k],
                    edge_ids@[k],
                    face_id,
                ) by {
                    if k < i {
                        assert(head.loops@[old_l + k] == self.loops@[old_l + k]);
                        assert(head_ids[k] == edge_ids@[k]);
                    }
                }
                if added.edges@.len() > head.edges@.len() {
                    created = created.push(i as int);
                }
                assert forall|t: int|
                    0 <= t < created.len() implies 0 <= #[trigger] created[t] < i + 1 && edge_ids@[created[t]].0 == old_e + t
                        && self.edges@[old_e + t].vert == vert_ids@[created[t]] by {
                    if t < created.len() - 1 || added.edges@.len() == head.edges@.len() {
                        assert(edge_ids@[created[t]] == head_ids[created[t]]);
                        assert(added.edges@[old_e + t] == head.edges@[old_e + t]);
                        assert(self.edges@[old_e + t].vert == added.edges@[old_e + t].vert);
                    }
                }
                assert forall|k: int| 0 <= k < i + 1 implies {
                    let e = #[trigger] edge_ids@[k];
                    &&& self.edge_ok(e)
                    &&& self.edges@[e.0 as int].face == Some(face_id)
                } by {
                    if k < i {
                        let e = head_ids[k];
                        assert(edge_ids@[k] == e);
                        assert(head.edge_ok(e));
                        assert(added.edges@[e.0 as int] == head.edges@[e.0 as int]);
                        if e != edge_id {
                            assert(self.edges@[e.0 as int] == added.edges@[e.0 as int]);
                        }
                    }
                }
                assert forall|j: int| 0 <= j < old_e implies Self::edge_kept(
                    old(self).edges@[j],
                    #[trigger] self.edges@[j],
                    face_id,
                ) by {
                    assert(added.edges@[j] == head.edges@[j]);
                }
                assert forall|j: int|
                    old_e <= j < self.edges@.len() implies ((#[trigger] self.edges@[j]).face is None
                        || self.edges@[j].face == Some(face_id)) by {
                    if j < head.edges@.len() {
                        assert(added.edges@[j] == head.edges@[j]);
                    }
                }
                assert forall|j: int|
                    0 <= j < old_e implies (#[trigger] self.edges@[j]).next == old(self).edges@[j].next && self.edges@[j].vert
                        == old(self).edges@[j].vert by {
                    assert(added.edges@[j] == head.edges@[j]);
                }
                assert forall|j: int| old_e <= j < self.edges@.len() implies (#[trigger] self.edges@[j]).next is None by {
                    if j < head.edges@.len() {
                        assert(added.edges@[j] == head.edges@[j]);
                    }
                }
                assert forall|j: int|
                    old_e <= j < self.edges@.len() implies #[trigger] self.edges@[j] == (HEdge {
                        face: self.edges@[j].face,
                        ..Self::fresh_edge(HEdgeId(j as u32), self.edges@[j].vert)
                    }) by {
                    if j < head.edges@.len() {
                        assert(added.edges@[j] == head.edges@[j]);
                    } else {
                        assert(added.edges@[j] == Self::fresh_edge(HEdgeId(j as u32), v0));
                    }
                }
                assert forall|v: int|
                    0 <= v < old(self).verts@.len() && old(self).verts@[v].head_edge is None implies (#[trigger] self.verts@[v].head_edge matches Some(
                        x,
                    ) ==> x.0 >= old_e) by {
                    assert(head.verts@[v] == head.verts@[v]);
                }
                assert forall|k: int| 0 <= k < i + 1 implies Self::side_edge_ok(*old(self), vert_ids@, k, #[trigger] edge_ids@[k]) by {
                    if k < i {
                        assert(head_ids[k] == edge_ids@[k]);
                    }
                }
                assert forall|v: int|
                    0 <= v < old(self).verts@.len() && old(self).verts@[v].head_edge is None && self.verts@[v].head_edge is Some
                        implies exists|a: int| 0 <= a < i + 1 && (#[trigger] vert_ids@[a]).0 == v by {
                    if head.verts@[v].head_edge is Some {
                        let a = choose|a: int| 0 <= a < i && (#[trigger] vert_ids@[a]).0 == v;
                        assert(vert_ids@[a].0 == v);
                    } else {
                        assert(added.verts@[v].head_edge is Some);
                        assert(v == v0.0);
                        assert(vert_ids@[i as int].0 == v);
                    }
                }
                if Self::distinct_verts(vert_ids@) {
                    assert forall|a: int, b: int|
                        0 <= a < b < edge_ids@.len() && #[trigger] edge_ids@[a] == #[trigger] edge_ids@[b] implies edge_ids@[a].0
                            < old_e by {
                        if b < i {
                            assert(head_ids[a] == edge_ids@[a] && head_ids[b] == edge_ids@[b]);
                        } else {
                            assert(head_ids[a] == edge_ids@[a]);
                            assert(head.edge_ok(head_ids[a]));
                            if existing_edge is None {
                                assert(edge_id.0 == head.edges@.len());
                            }
                        }
                    }
                }
            }
            i = i + 1;
        }
        proof {
            assert forall|j: int|
                #![trigger self.edges@[j]]
                old_e <= j < self.edges@.len() implies exists|k: int| 0 <= k < n && (#[trigger] edge_ids@[k]).0 == j
                    && self.edges@[j].vert == vert_ids@[k] by {
                let k = created[j - old_e];
                assert(0 <= k < n && edge_ids@[k].0 == j && self.edges@[j].vert == vert_ids@[k]);
            }
            assert(Self::corners_added(*old(self), *self, vert_ids@, edge_ids@, face_id)) by {
                reveal(BMesh::corners_added);
            }
        }
        edge_ids
    }

    /// What `link_around` does: see its doc.
    #[verifier::opaque]
    pub open spec fn links_made(pre: Self, post: Self, edge_ids: Seq<HEdgeId>) -> bool {
        &&& post.topo_wf()
        &&& post.verts == pre.verts
        &&& post.faces == pre.faces
        &&& post.loops == pre.loops
        &&& post.edges@.len() == pre.edges@.len()
        &&& forall|j: int|
                0 <= j < pre.edges@.len() ==> #[trigger] post.edges@[j] == (HEdge {
                    next: post.edges@[j].next,
                    prev: post.edges@[j].prev,
                    ..pre.edges@[j]
                })
        &&& ({
                let n = edge_ids.len() as int;
                (forall|a: int, b: int| 0 <= a < b < n ==> edge_ids[a] != edge_ids[b]) ==> forall|k: int|
                    0 <= k < n ==> {
                        &&& post.edges@[(#[trigger] edge_ids[k]).0 as int].next == Some(edge_ids[Self::cyc_next(k, n)])
                        &&& post.edges@[edge_ids[Self::cyc_next(k, n)].0 as int].prev == Some(edge_ids[k])
                    }
            })
    }

    /// Second half of `add_face`: links the side edges `next`/`prev` around
    /// the face, in order.
    #[verifier::rlimit(40)]
    fn link_around(&mut self, edge_ids: &Vec<HEdgeId>)
        requires
            old(self).topo_wf(),
            edge_ids@.len() >= 1,
            forall|k: int| 0 <= k < edge_ids@.len() ==> old(self).edge_ok(#[trigger] edge_ids@[k]),
        ensures
            final(self).topo_wf(),
            Self::links_made(*old(self), *final(self), edge_ids@),
            final(self).verts == old(self).verts,
    {
        let n = edge_ids.len();
        let ghost distinct = forall|a: int, b: int| 0 <= a < b < n ==> edge_ids@[a] != edge_ids@[b];
        let mut i: usize = 0;
        while i < n
            invariant
                n == edge_ids@.len(),
                n >= 1,
                i <= n,
                self.topo_wf(),
                forall|k: int| 0 <= k < n ==> self.edge_ok(#[trigger] edge_ids@[k]),
                self.edges@.len() == old(self).edges@.len(),
                self.verts == old(self).verts,
                self.loops == old(self).loops,
                self.faces == old(self).faces,
                forall|j: int|
                    0 <= j < old(self).edges@.len() ==> #[trigger] self.edges@[j] == (HEdge {
                        next: self.edges@[j].next,
                        prev: self.edges@[j].prev,
                        ..old(self).edges@[j]
                    }),
                distinct ==> forall|k: int|
                    0 <= k < i ==> self.edges@[(#[trigger] edge_ids@[k]).0 as int].next == Some(edge_ids@[Self::cyc_next(k, n as int)]),
                distinct ==> forall|k: int|
                    0 <= k < i ==> self.edges@[(#[trigger] edge_ids@[Self::cyc_next(k, n as int)]).0 as int].prev == Some(edge_ids@[k]),
                distinct == (forall|a: int, b: int| 0 <= a < b < n ==> edge_ids@[a] != edge_ids@[b]),
            decreases n - i,
        {
            proof {
                Self::lemma_cyc_next(i as int, n as int);
            }
            let next_idx = (i + 1) % n;
            let curr = edge_ids[i];
            let next = edge_ids[next_idx];
            let ghost before = self.edges@;
            self.edge_mut(curr).next = Some(next);
            self.edge_mut(next).prev = Some(curr);
            proof {
                assert forall|j: int| 0 <= j < self.edges@.len() implies {
                    let e = #[trigger] self.edges@[j];
                    &&& e.id.0 == j
                    &&& self.vert_ok(e.vert)
                    &&& self.opt_edge_ok(e.next)
                    &&& self.opt_edge_ok(e.prev)
                    &&& self.opt_edge_ok(e.radial)
                } by {
                    assert(before[j].id.0 == j);
                }
                assert forall|j: int| 0 <= j < old(self).edges@.len() implies #[trigger] self.edges@[j] == (HEdge {
                    next: self.edges@[j].next,
                    prev: self.edges@[j].prev,
                    ..old(self).edges@[j]
                }) by {
                    assert(before[j] == before[j]);
                }
                if distinct {
                    assert forall|k: int| 0 <= k < i + 1 implies self.edges@[(#[trigger] edge_ids@[k]).0 as int].next
                        == Some(edge_ids@[Self::cyc_next(k, n as int)]) by {
                        if k < i {
                            assert(edge_ids@[k] != curr);
                            assert(before[edge_ids@[k].0 as int].next == Some(edge_ids@[Self::cyc_next(k, n as int)]));
                        }
                    }
                    assert forall|k: int| 0 <= k < i + 1 implies self.edges@[(#[trigger] edge_ids@[Self::cyc_next(k, n as int)]).0 as int].prev
                        == Some(edge_ids@[k]) by {
                        if k < i {
                            let kn = Self::cyc_next(k, n as int);
                            assert(kn != next_idx);
                            assert(edge_ids@[kn] != next);
                            assert(before[edge_ids@[kn].0 as int].prev == Some(edge_ids@[k]));
                        }
                    }
                }
            }
            i = i + 1;
        }
        assert(Self::links_made(*old(self), *self, edge_ids@)) by {
            reveal(BMesh::links_made);
        }
    }

    /// Which edges the sides of a face through `vert_ids` added to `pre`
    /// (giving `post`) use: for side `k`, the edge of its corner loop is the
    /// one [`BMesh::side_edge_ok`] asks for; a new edge serves one side only
    /// when no vertex repeats; and every new edge is a fresh record (see
    /// [`BMesh::fresh_edge`]: unselected, visible, without seam, sharpness or
    /// radial link) but for its face and its `next`/`prev` links.
    #[verifier::opaque]
    pub open spec fn sides_chosen(pre: Self, post: Self, vert_ids: Seq<HVertId>) -> bool {
        &&& forall|k: int|
            0 <= k < vert_ids.len() ==> Self::side_edge_ok(
                pre,
                vert_ids,
                k,
                (#[trigger] post.loops@[pre.loops@.len() + k]).edge,
            )
        &&& Self::distinct_verts(vert_ids) ==> Self::new_edges_apart(
            pre,
            Seq::new(vert_ids.len(), |k: int| post.loops@[pre.loops@.len() + k].edge),
        )
        &&& forall|j: int|
            pre.edges@.len() <= j < post.edges@.len() ==> #[trigger] post.edges@[j] == (HEdge {
                face: post.edges@[j].face,
                next: post.edges@[j].next,
                prev: post.edges@[j].prev,
                ..Self::fresh_edge(HEdgeId(j as u32), post.edges@[j].vert)
            })
    }

    /// What `add_face` does to the mesh `pre`, giving `post` and the face `fid`.
    pub open spec fn face_added(pre: Self, post: Self, vert_ids: Seq<HVertId>, fid: HFaceId) -> bool {
        &&& fid == HFaceId(pre.faces@.len() as u32)
        &&& post.faces@.len() == pre.faces@.len() + 1
        &&& post.faces@.drop_last() == pre.faces@
        &&& post.faces@.last().id == fid
        &&& post.faces@.last().loop_start == Some(HLoopId(pre.loops@.len() as u32))
        &&& post.faces@.last().loop_total == vert_ids.len()
        &&& post.faces@.last().select == SelectState::Unselected
        &&& !post.faces@.last().hide
        &&& post.faces@.last().material_index == 0
        &&& !post.faces@.last().smooth
        &&& post.loops@.len() == pre.loops@.len() + vert_ids.len()
        &&& post.loops@.subrange(0, pre.loops@.len() as int) == pre.loops@
        &&& forall|k: int|
            0 <= k < vert_ids.len() ==> {
                let l = #[trigger] post.loops@[pre.loops@.len() + k];
                &&& l.vert == vert_ids[k]
                &&& l.face == fid
                &&& post.edges@[l.edge.0 as int].face == Some(fid)
            }
        &&& post.verts@.len() == pre.verts@.len()
        &&& forall|i: int| 0 <= i < pre.verts@.len() ==> Self::vert_kept(pre.verts@[i], #[trigger] post.verts@[i])
        &&& pre.edges@.len() <= post.edges@.len() <= pre.edges@.len() + vert_ids.len()
        &&& forall|j: int| 0 <= j < pre.edges@.len() ==> Self::edge_kept(pre.edges@[j], #[trigger] post.edges@[j], fid)
        &&& forall|j: int|
            #![trigger post.edges@[j]]
            pre.edges@.len() <= j < post.edges@.len() ==> exists|k: int|
                0 <= k < vert_ids.len() && (#[trigger] post.loops@[pre.loops@.len() + k]).edge.0 == j
                    && post.edges@[j].vert == vert_ids[k]
        &&& Self::sides_chosen(pre, post, vert_ids)
        &&& post.is_face_normal(vert_ids, post.faces@.last().normal)
        &&& ({
            let es = Seq::new(vert_ids.len(), |k: int| post.loops@[pre.loops@.len() + k].edge);
            let n = vert_ids.len() as int;
            (forall|a: int, b: int| 0 <= a < b < n ==> es[a] != es[b]) ==> forall|k: int|
                0 <= k < n ==> {
                    &&& post.edges@[(#[trigger] es[k]).0 as int].next == Some(es[Self::cyc_next(k, n)])
                    &&& post.edges@[es[Self::cyc_next(k, n)].0 as int].prev == Some(es[k])
                }
        })
    }

    /// Adds a face through `vert_ids` (at least three, in order): for each
    /// side an existing edge between its two vertices is reused (the first
    /// one found walking from the side's first vertex, see
    /// [`BMesh::side_edge_ok`]) or a new edge is made; one corner loop is
    /// appended per vertex; the side edges are given the new face and linked
    /// `next`/`prev` around it; the face's normal is the geometry's normal
    /// for its first three vertices (spelled out in [`BMesh::face_added`]).
    pub fn add_face(&mut self, vert_ids: &[HVertId]) -> (fid: HFaceId)
        requires
            old(self).wf(),
            vert_ids@.len() >= 3,
            forall|k: int| 0 <= k < vert_ids@.len() ==> old(self).vert_ok(#[trigger] vert_ids@[k]),
            old(self).faces@.len() < u32::MAX,
            old(self).loops@.len() + vert_ids@.len() <= u32::MAX,
            old(self).edges@.len() + vert_ids@.len() <= u32::MAX,
        ensures
            final(self).wf(),
            Self::face_added(*old(self), *final(self), vert_ids@, fid),
    {
        let n = vert_ids.len();
        let face_id = HFaceId(self.faces.len() as u32);
        let loop_start = HLoopId(self.loops.len() as u32);
        let edge_ids = self.add_corners(vert_ids, face_id);
        let ghost mid = *self;
        self.link_around(&edge_ids);
        let normal = self.calculate_face_normal(vert_ids);
        let ghost linked = *self;
        self.faces.push(HFace {
            id: face_id,
            loop_start: Some(loop_start),
            loop_total: n as u32,
            normal,
            select: SelectState::Unselected,
            hide: false,
            material_index: 0,
            smooth: false,
        });
        proof {
            assert(self.faces@.drop_last() =~= linked.faces@);
            Self::lemma_add_face(*old(self), mid, linked, *self, vert_ids@, edge_ids@, face_id);
        }
        face_id
    }

    /// The proof of `add_face` from what its two halves and the final push do.
    #[verifier::rlimit(100)]
    #[verifier::spinoff_prover]
    proof fn lemma_add_face(
        pre: Self,
        mid: Self,
        linked: Self,
        post: Self,
        vert_ids: Seq<HVertId>,
        edge_ids: Seq<HEdgeId>,
        face_id: HFaceId,
    )
        requires
            pre.wf(),
            vert_ids.len() >= 3,
            forall|k: int| 0 <= k < vert_ids.len() ==> pre.vert_ok(#[trigger] vert_ids[k]),
            pre.faces@.len() < u32::MAX,
            face_id == HFaceId(pre.faces@.len() as u32),
            Self::corners_added(pre, mid, vert_ids, edge_ids, face_id),
            linked.topo_wf(),
            Self::links_made(mid, linked, edge_ids),
            post.verts == linked.verts,
            post.edges == linked.edges,
            post.loops == linked.loops,
            post.faces@.len() == linked.faces@.len() + 1,
            post.faces@.drop_last() == linked.faces@,
            post.faces@.last().id == face_id,
            post.faces@.last().loop_start == Some(HLoopId(pre.loops@.len() as u32)),
            post.faces@.last().loop_total == vert_ids.len(),
            post.faces@.last().select == SelectState::Unselected,
            !post.faces@.last().hide,
            post.faces@.last().material_index == 0,
            !post.faces@.last().smooth,
            linked.is_face_normal(vert_ids, post.faces@.last().normal),
        ensures
            post.wf(),
            Self::face_added(pre, post, vert_ids, face_id),
    {
        reveal(BMesh::corners_added);
        reveal(BMesh::links_made);
        let n = vert_ids.len();
        let old_l = pre.loops@.len();
        let old_e = pre.edges@.len();
        assert forall|i: int| 0 <= i < post.faces@.len() - 1 implies #[trigger] post.faces@[i] == pre.faces@[i] by {
            assert(post.faces@.drop_last()[i] == post.faces@[i]);
        }
        assert forall|j: int| 0 <= j < old_e implies Self::edge_kept(pre.edges@[j], #[trigger] post.edges@[j], face_id) by {
            assert(mid.edges@[j] == mid.edges@[j]);
        }
        assert forall|k: int| 0 <= k < n implies {
            let l = #[trigger] post.loops@[old_l + k];
            &&& l.vert == vert_ids[k]
            &&& l.face == face_id
            &&& post.edges@[l.edge.0 as int].face == Some(face_id)
        } by {
            assert(Self::corner_ok(mid.loops@[old_l + k], old_l + k, vert_ids[k], edge_ids[k], face_id));
            assert(mid.edges@[edge_ids[k].0 as int] == mid.edges@[edge_ids[k].0 as int]);
        }
        assert forall|j: int|
            #![trigger post.edges@[j]]
            old_e <= j < post.edges@.len() implies exists|k: int|
                0 <= k < n && (#[trigger] post.loops@[old_l + k]).edge.0 == j && post.edges@[j].vert == vert_ids[k] by {
            assert(mid.edges@[j] == mid.edges@[j]);
            let k = choose|k: int| 0 <= k < n && (#[trigger] edge_ids[k]).0 == j && mid.edges@[j].vert == vert_ids[k];
            assert(Self::corner_ok(mid.loops@[old_l + k], old_l + k, vert_ids[k], edge_ids[k], face_id));
        }
        assert forall|k: int| 0 <= k < n implies Self::side_edge_ok(
            pre,
            vert_ids,
            k,
            (#[trigger] post.loops@[old_l + k]).edge,
        ) by {
            assert(Self::corner_ok(mid.loops@[old_l + k], old_l + k, vert_ids[k], edge_ids[k], face_id));
            assert(Self::side_edge_ok(pre, vert_ids, k, edge_ids[k]));
        }
        let es = Seq::new(n as nat, |k: int| post.loops@[old_l + k].edge);
        assert(es =~= edge_ids) by {
            assert forall|k: int| 0 <= k < n implies es[k] == edge_ids[k] by {
                assert(Self::corner_ok(mid.loops@[old_l + k], old_l + k, vert_ids[k], edge_ids[k], face_id));
            }
        }
        assert forall|j: int| 0 <= j < mid.edges@.len() implies (#[trigger] post.edges@[j]).face == mid.edges@[j].face by {
            assert(linked.edges@[j] == linked.edges@[j]);
        }
        assert forall|i: int| 0 <= i < pre.faces@.len() implies #[trigger] post.faces@[i] == pre.faces@[i] by {
            assert(post.faces@.drop_last()[i] == post.faces@[i]);
        }
        assert(Self::sides_chosen(pre, post, vert_ids)) by {
            reveal(BMesh::sides_chosen);
            assert forall|j: int|
                old_e <= j < post.edges@.len() implies #[trigger] post.edges@[j] == (HEdge {
                    face: post.edges@[j].face,
                    next: post.edges@[j].next,
                    prev: post.edges@[j].prev,
                    ..Self::fresh_edge(HEdgeId(j as u32), post.edges@[j].vert)
                }) by {
                assert(mid.edges@[j] == mid.edges@[j]);
                assert(linked.edges@[j] == linked.edges@[j]);
            }
        }
        post.lemma_face_appended_wf(pre, mid, vert_ids, edge_ids, face_id);
    }

    /// The well-formedness half of `add_face`'s proof.
    proof fn lemma_face_appended_wf(
        self,
        pre: Self,
        mid: Self,
        vert_ids: Seq<HVertId>,
        edge_ids: Seq<HEdgeId>,
        face_id: HFaceId,
    )
        requires
            pre.wf(),
            vert_ids.len() >= 3,
            face_id == HFaceId(pre.faces@.len() as u32),
            pre.faces@.len() < u32::MAX,
            self.topo_wf(),
            self.loops == mid.loops,
            self.verts == mid.verts,
            mid.verts@.len() == pre.verts@.len(),
            self.edges@.len() == mid.edges@.len(),
            forall|j: int|
                0 <= j < mid.edges@.len() ==> (#[trigger] self.edges@[j]).face == mid.edges@[j].face,
            mid.loops@.len() == pre.loops@.len() + vert_ids.len(),
            mid.loops@.subrange(0, pre.loops@.len() as int) == pre.loops@,
            forall|k: int|
                0 <= k < vert_ids.len() ==> Self::corner_ok(
                    #[trigger] mid.loops@[pre.loops@.len() + k],
                    pre.loops@.len() + k,
                    vert_ids[k],
                    edge_ids[k],
                    face_id,
                ),
            forall|k: int| 0 <= k < vert_ids.len() ==> mid.edge_ok(#[trigger] edge_ids[k]),
            forall|k: int| 0 <= k < vert_ids.len() ==> pre.vert_ok(#[trigger] vert_ids[k]),
            pre.edges@.len() <= mid.edges@.len(),
            forall|j: int| 0 <= j < pre.edges@.len() ==> Self::edge_kept(pre.edges@[j], #[trigger] mid.edges@[j], face_id),
            forall|j: int|
                pre.edges@.len() <= j < mid.edges@.len() ==> ((#[trigger] mid.edges@[j]).face is None
                    || mid.edges@[j].face == Some(face_id)),
            self.faces@.len() == pre.faces@.len() + 1,
            forall|i: int| 0 <= i < pre.faces@.len() ==> #[trigger] self.faces@[i] == pre.faces@[i],
            ({
                let f = self.faces@.last();
                &&& f.id == face_id
                &&& f.loop_start == Some(HLoopId(pre.loops@.len() as u32))
                &&& f.loop_total == vert_ids.len()
            }),
        ensures
            self.wf(),
    {
        let old_l = pre.loops@.len();
        let old_e = pre.edges@.len();
        let old_f = pre.faces@.len();
        assert forall|i: int| 0 <= i < self.edges@.len() implies ((#[trigger] self.edges@[i]).face matches Some(
            f,
        ) ==> f.0 < self.faces@.len()) by {
            assert(mid.edges@[i] == mid.edges@[i]);
            if i < old_e {
                assert(pre.edges@[i] == pre.edges@[i]);
            }
        }
        assert forall|i: int| 0 <= i < self.loops@.len() implies {
            let l = #[trigger] self.loops@[i];
            &&& l.id.0 == i
            &&& self.vert_ok(l.vert)
            &&& self.edge_ok(l.edge)
            &&& l.face.0 < self.faces@.len()
        } by {
            if i < old_l {
                assert(mid.loops@.subrange(0, old_l as int)[i] == pre.loops@[i]);
            } else {
                assert(Self::corner_ok(mid.loops@[old_l + (i - old_l)], old_l + (i - old_l), vert_ids[i - old_l], edge_ids[i - old_l], face_id));
            }
        }
        assert forall|f: int, k: int|
            0 <= f < self.faces@.len() && (#[trigger] self.faces@[f]).loop_start.unwrap().0 <= k
                < self.faces@[f].loop_start.unwrap().0 + self.faces@[f].loop_total && 0 <= k
                < self.loops@.len() implies (#[trigger] self.loops@[k]).face.0 == f by {
            if f < old_f {
                assert(pre.faces@[f] == self.faces@[f]);
                assert(mid.loops@.subrange(0, old_l as int)[k] == pre.loops@[k]);
            } else {
                assert(Self::corner_ok(mid.loops@[old_l + (k - old_l)], old_l + (k - old_l), vert_ids[k - old_l], edge_ids[k - old_l], face_id));
            }
        }
        assert forall|f: int| 0 <= f < self.faces@.len() implies {
            let face = #[trigger] self.faces@[f];
            &&& face.id.0 == f
            &&& face.loop_start is Some
            &&& face.loop_total >= 1
            &&& face.loop_start.unwrap().0 + face.loop_total <= self.loops@.len()
        } by {
            if f < old_f {
                assert(pre.faces@[f] == self.faces@[f]);
            }
        }
        assert forall|k: int| 0 <= k < self.loops@.len() implies {
            let f = (#[trigger] self.loops@[k]).face.0 as int;
            let face = self.faces@[f];
            &&& 0 <= f < self.faces@.len()
            &&& face.loop_start.unwrap().0 <= k < face.loop_start.unwrap().0 + face.loop_total
        } by {
            if k < old_l {
                assert(mid.loops@.subrange(0, old_l as int)[k] == pre.loops@[k]);
                let f = pre.loops@[k].face.0 as int;
                assert(pre.faces@[f] == self.faces@[f]);
            } else {
                assert(Self::corner_ok(mid.loops@[old_l + (k - old_l)], old_l + (k - old_l), vert_ids[k - old_l], edge_ids[k - old_l], face_id));
            }
        }
    }
}

} // verus!
