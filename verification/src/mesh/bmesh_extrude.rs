//! Extruding a region of faces of a [`BMesh`]: each corner vertex is copied
//! once, moved by an offset, each face is copied through the copies, and
//! every side of every face is bridged to its copy by a quad.
use vstd::prelude::*;
use super::bmesh::{BMesh, BMeshGeometry, HFaceId, HLoopId, HVertId};

verus! {

/// The distinct vertices of `s`, in the order they are first met.
pub open spec fn firsts(s: Seq<HVertId>) -> Seq<HVertId>
    decreases s.len(),
{
    if s.len() == 0 {
        Seq::empty()
    } else {
        let r = firsts(s.drop_last());
        if r.contains(s.last()) {
            r
        } else {
            r.push(s.last())
        }
    }
}

/// Where `v` first stands in `r`.
pub open spec fn first_index(r: Seq<HVertId>, v: HVertId) -> int
    decreases r.len(),
{
    if r.len() == 0 {
        0
    } else if r.drop_last().contains(v) {
        first_index(r.drop_last(), v)
    } else {
        r.len() - 1
    }
}

proof fn lemma_first_index(r: Seq<HVertId>, v: HVertId)
    requires
        r.contains(v),
    ensures
        0 <= first_index(r, v) < r.len(),
        r[first_index(r, v)] == v,
    decreases r.len(),
{
    if r.drop_last().contains(v) {
        lemma_first_index(r.drop_last(), v);
    } else {
        let i = choose|i: int| 0 <= i < r.len() && r[i] == v;
        if i < r.len() - 1 {
            assert(r.drop_last()[i] == v);
        }
    }
}

proof fn lemma_first_index_push(r: Seq<HVertId>, w: HVertId, v: HVertId)
    requires
        r.contains(v),
    ensures
        first_index(r.push(w), v) == first_index(r, v),
{
    assert(r.push(w).drop_last() =~= r);
}

proof fn lemma_first_index_new(r: Seq<HVertId>, w: HVertId)
    requires
        !r.contains(w),
    ensures
        first_index(r.push(w), w) == r.len(),
        r.push(w).contains(w),
{
    assert(r.push(w).drop_last() =~= r);
    assert(r.push(w)[r.len() as int] == w);
}

proof fn lemma_firsts_contains(s: Seq<HVertId>, x: HVertId)
    ensures
        firsts(s).contains(x) <==> s.contains(x),
    decreases s.len(),
{
    if s.len() > 0 {
        lemma_firsts_contains(s.drop_last(), x);
        let r = firsts(s.drop_last());
        if s.contains(x) && !s.drop_last().contains(x) {
            let i = choose|i: int| 0 <= i < s.len() && s[i] == x;
            if i < s.len() - 1 {
                assert(s.drop_last()[i] == x);
            }
            if !r.contains(s.last()) {
                assert(r.push(s.last())[r.len() as int] == x);
            }
        }
        if s.drop_last().contains(x) {
            let i = choose|i: int| 0 <= i < s.len() - 1 && s.drop_last()[i] == x;
            assert(s[i] == x);
            if !r.contains(s.last()) {
                let j = choose|j: int| 0 <= j < r.len() && r[j] == x;
                assert(r.push(s.last())[j] == x);
            }
        }
        if firsts(s).contains(x) && !r.contains(x) {
            assert(s.last() == x);
            assert(s[s.len() - 1] == x);
        }
    }
}

proof fn lemma_first_index_prefix(r: Seq<HVertId>, m: int, v: HVertId)
    requires
        0 <= m <= r.len(),
        r.subrange(0, m).contains(v),
    ensures
        first_index(r, v) == first_index(r.subrange(0, m), v),
    decreases r.len(),
{
    if r.len() > m {
        assert(r.drop_last().subrange(0, m) =~= r.subrange(0, m));
        let i = choose|i: int| 0 <= i < m && r.subrange(0, m)[i] == v;
        assert(r.drop_last()[i] == v);
        lemma_first_index_prefix(r.drop_last(), m, v);
    } else {
        assert(r.subrange(0, m) =~= r);
    }
}

proof fn lemma_firsts_prefix(s: Seq<HVertId>, t: Seq<HVertId>)
    ensures
        firsts(s).len() <= firsts(s + t).len(),
        firsts(s + t).subrange(0, firsts(s).len() as int) == firsts(s),
    decreases t.len(),
{
    if t.len() == 0 {
        assert(s + t =~= s);
        assert(firsts(s).subrange(0, firsts(s).len() as int) =~= firsts(s));
    } else {
        lemma_firsts_prefix(s, t.drop_last());
        assert((s + t).drop_last() =~= s + t.drop_last());
        let r = firsts(s + t.drop_last());
        assert(firsts(s + t).subrange(0, firsts(s).len() as int) =~= r.subrange(0, firsts(s).len() as int));
    }
}

proof fn lemma_firsts_len(s: Seq<HVertId>)
    ensures
        firsts(s).len() <= s.len(),
    decreases s.len(),
{
    if s.len() > 0 {
        lemma_firsts_len(s.drop_last());
    }
}

/// The order of `firsts` over a prefix of `all` is the start of that over `all`.
proof fn lemma_firsts_of_prefix(all: Seq<HVertId>, n: int)
    requires
        0 <= n <= all.len(),
    ensures
        firsts(all.subrange(0, n)).len() <= firsts(all).len(),
        firsts(all).subrange(0, firsts(all.subrange(0, n)).len() as int) == firsts(all.subrange(0, n)),
{
    let p = all.subrange(0, n);
    let t = all.subrange(n, all.len() as int);
    assert(p + t =~= all);
    lemma_firsts_prefix(p, t);
}

proof fn lemma_firsts_push(s: Seq<HVertId>, x: HVertId)
    ensures
        firsts(s.push(x)) == (if firsts(s).contains(x) {
            firsts(s)
        } else {
            firsts(s).push(x)
        }),
{
    assert(s.push(x).drop_last() =~= s);
}

impl<G: BMeshGeometry> BMesh<G> {
    /// The corners of the first `k` of the faces `fids`, one after another.
    pub open spec fn corners_upto(self, fids: Seq<HFaceId>, k: nat) -> Seq<HVertId>
        decreases k,
    {
        if k == 0 {
            Seq::empty()
        } else {
            self.corners_upto(fids, (k - 1) as nat) + self.spec_face_verts(fids[k - 1])
        }
    }

    /// Whether `b` are the attributes of a fresh vertex at the position of a
    /// vertex with attributes `a` moved by `off`.
    pub open spec fn offset_copied(a: G::VertAttrs, off: G::Offset, b: G::VertAttrs) -> bool {
        exists|p: G::Position|
            #[trigger] call_ensures(G::offset_position, (&a, &off), p) && call_ensures(G::vert_attrs, (p,), b)
    }

    /// The copy of `v` among copies numbered from `v0` in the order `order`.
    pub open spec fn copy_of(v0: nat, order: Seq<HVertId>, v: HVertId) -> HVertId {
        HVertId((v0 + first_index(order, v)) as u32)
    }

    /// The corners of a face through the copies of `vs`.
    pub open spec fn copies(v0: nat, order: Seq<HVertId>, vs: Seq<HVertId>) -> Seq<HVertId> {
        vs.map_values(|v: HVertId| Self::copy_of(v0, order, v))
    }

    /// The side quad of corner `c` of a face through `vs`: the corner, its
    /// copy, the next corner's copy and the next corner.
    pub open spec fn side_quad(v0: nat, order: Seq<HVertId>, vs: Seq<HVertId>, c: int) -> Seq<HVertId> {
        let a = vs[c];
        let b = vs[Self::cyc_next(c, vs.len() as int)];
        seq![a, Self::copy_of(v0, order, a), Self::copy_of(v0, order, b), b]
    }

    /// Whether every given face exists and has at least three corners.
    pub open spec fn extrudable(self, fids: Seq<HFaceId>) -> bool {
        forall|k: int|
            0 <= k < fids.len() ==> (#[trigger] fids[k]).0 < self.faces@.len() && self.faces@[fids[k].0 as int].loop_total
                >= 3
    }

    proof fn lemma_face_verts_ok(self, fid: HFaceId)
        requires
            self.wf(),
            fid.0 < self.faces@.len(),
        ensures
            forall|c: int|
                0 <= c < self.spec_face_verts(fid).len() ==> self.vert_ok(#[trigger] self.spec_face_verts(fid)[c]),
            self.spec_face_verts(fid).len() == self.faces@[fid.0 as int].loop_total,
    {
        let face = self.faces@[fid.0 as int];
        assert forall|c: int| 0 <= c < self.spec_face_verts(fid).len() implies self.vert_ok(
            #[trigger] self.spec_face_verts(fid)[c],
        ) by {
            let s = face.loop_start.unwrap().0 as int;
            assert(self.loops@[s + c] == self.loops@[s + c]);
        }
    }

    /// The face `add_face` added goes through the given corners.
    proof fn lemma_added_face_verts(pre: Self, post: Self, vids: Seq<HVertId>, fid: HFaceId)
        requires
            Self::face_added(pre, post, vids, fid),
            pre.faces@.len() < u32::MAX,
            pre.loops@.len() <= u32::MAX,
        ensures
            post.spec_face_verts(fid) == vids,
    {
        let face = post.faces@[fid.0 as int];
        assert(post.faces@.len() == pre.faces@.len() + 1);
        assert(fid.0 == pre.faces@.len());
        assert(face == post.faces@.last());
        assert(face.loop_start == Some(HLoopId(pre.loops@.len() as u32)));
        assert(face.loop_start.unwrap().0 == pre.loops@.len());
        assert forall|k: int| 0 <= k < vids.len() implies #[trigger] post.spec_face_verts(fid)[k] == vids[k] by {
            assert(post.loops@[pre.loops@.len() + k].vert == vids[k]);
        }
        assert(post.spec_face_verts(fid) =~= vids);
    }

    proof fn lemma_corners_len(self, fids: Seq<HFaceId>, j: nat, k: nat)
        requires
            j <= k <= fids.len(),
        ensures
            self.corners_upto(fids, j).len() <= self.corners_upto(fids, k).len(),
            self.corners_upto(fids, j) == self.corners_upto(fids, k).subrange(0, self.corners_upto(fids, j).len() as int),
        decreases k - j,
    {
        if j < k {
            self.lemma_corners_len(fids, j, (k - 1) as nat);
            assert(self.corners_upto(fids, (k - 1) as nat) =~= self.corners_upto(fids, k).subrange(
                0,
                self.corners_upto(fids, (k - 1) as nat).len() as int,
            ));
            assert(self.corners_upto(fids, j) =~= self.corners_upto(fids, k).subrange(
                0,
                self.corners_upto(fids, j).len() as int,
            ));
        }
    }

    /// The vertices `pre` had keep all but a first edge they may gain, and
    /// after them stand the copies of `firsts(s)`, in that order: fresh,
    /// unselected, visible vertices at the original's position moved by
    /// `off`. `firsts(s)` begins `order`.
    #[verifier::opaque]
    pub open spec fn verts_copied(self, pre: Self, order: Seq<HVertId>, s: Seq<HVertId>, off: G::Offset) -> bool {
        let v0 = pre.verts@.len();
        let fs = firsts(s);
        &&& self.verts@.len() == v0 + fs.len()
        &&& fs.len() <= order.len()
        &&& order.subrange(0, fs.len() as int) == fs
        &&& forall|v: int| 0 <= v < v0 ==> Self::vert_kept(pre.verts@[v], #[trigger] self.verts@[v])
        &&& forall|j: int|
            0 <= j < fs.len() ==> {
                let nv = #[trigger] self.verts@[v0 + j];
                &&& Self::offset_copied(pre.verts@[order[j].0 as int].attrs, off, nv.attrs)
                &&& nv.select == super::bmesh::SelectState::Unselected
                &&& !nv.hide
            }
    }

    /// The copy of every vertex of `firsts(s)`, none for the others.
    #[verifier::opaque]
    spec fn map_ok(map: Seq<Option<HVertId>>, pre: Self, order: Seq<HVertId>, s: Seq<HVertId>) -> bool {
        let v0 = pre.verts@.len();
        &&& map.len() == v0
        &&& forall|v: int|
            0 <= v < v0 ==> #[trigger] map[v] == if firsts(s).contains(HVertId(v as u32)) {
                Some(Self::copy_of(v0, order, HVertId(v as u32)))
            } else {
                None
            }
    }

    /// One corner of the copy of a face: the copy of `vid`, made if this is
    /// its first meeting.
    #[verifier::rlimit(40)]
    fn copy_corner(
        &mut self,
        map: &mut Vec<Option<HVertId>>,
        vid: HVertId,
        offset: &G::Offset,
        pre: Ghost<Self>,
        order: Ghost<Seq<HVertId>>,
        s: Ghost<Seq<HVertId>>,
    ) -> (copy: HVertId)
        requires
            old(self).wf(),
            pre@.topo_wf(),
            pre@.vert_ok(vid),
            old(self).verts_copied(pre@, order@, s@, *offset),
            Self::map_ok(old(map)@, pre@, order@, s@),
            firsts(s@.push(vid)).len() <= order@.len(),
            order@.subrange(0, firsts(s@.push(vid)).len() as int) == firsts(s@.push(vid)),
            pre@.verts@.len() + order@.len() < u32::MAX,
        ensures
            final(self).wf(),
            final(self).verts_copied(pre@, order@, s@.push(vid), *offset),
            Self::map_ok(final(map)@, pre@, order@, s@.push(vid)),
            copy == Self::copy_of(pre@.verts@.len(), order@, vid),
            firsts(s@.push(vid)).contains(vid),
            final(self).edges == old(self).edges,
            final(self).faces == old(self).faces,
            final(self).loops == old(self).loops,
    {
        let ghost v0 = pre@.verts@.len();
        let ghost fs = firsts(s@);
        proof {
            reveal(BMesh::verts_copied);
            reveal(BMesh::map_ok);
            lemma_firsts_push(s@, vid);
            lemma_firsts_contains(s@, vid);
        }
        let idx = vid.0 as usize;
        match map[idx] {
            Some(c) => {
                proof {
                    assert(map[idx as int] == Some(Self::copy_of(v0, order@, HVertId(idx as u32))));
                    assert(HVertId(idx as u32) == vid);
                    assert(fs.contains(vid));
                }
                c
            },
            None => {
                proof {
                    assert(HVertId(idx as u32) == vid);
                    assert(!fs.contains(vid));
                    lemma_first_index_new(fs, vid);
                    lemma_first_index_prefix(order@, (fs.len() + 1) as int, vid);
                    assert(order@.subrange(0, (fs.len() + 1) as int) == fs.push(vid));
                }
                let pos = G::offset_position(&self.vert(vid).attrs, offset);
                proof {
                    assert(self.verts@[vid.0 as int].attrs == pre@.verts@[vid.0 as int].attrs);
                }
                let ghost before = *self;
                let c = self.add_vert(pos);
                map.set(idx, Some(c));
                proof {
                    let ns = s@.push(vid);
                    let nfs = firsts(ns);
                    assert(nfs == fs.push(vid));
                    assert(order@[fs.len() as int] == vid) by {
                        assert(order@.subrange(0, (fs.len() + 1) as int)[fs.len() as int] == vid);
                    }
                    assert(c == Self::copy_of(v0, order@, vid));
                    assert forall|v: int| 0 <= v < v0 implies Self::vert_kept(pre@.verts@[v], #[trigger] self.verts@[v]) by {
                        assert(self.verts@[v] == before.verts@[v]);
                    }
                    assert forall|j: int|
                        0 <= j < nfs.len() implies {
                            let nv = #[trigger] self.verts@[v0 + j];
                            &&& Self::offset_copied(pre@.verts@[order@[j].0 as int].attrs, *offset, nv.attrs)
                            &&& nv.select == super::bmesh::SelectState::Unselected
                            &&& !nv.hide
                        } by {
                        if j < fs.len() {
                            assert(self.verts@[v0 + j] == before.verts@[v0 + j]);
                        } else {
                            assert(order@[j] == vid);
                            assert(call_ensures(G::offset_position, (&pre@.verts@[vid.0 as int].attrs, offset), pos));
                        }
                    }
                    assert forall|v: int| 0 <= v < v0 implies #[trigger] map@[v] == if nfs.contains(HVertId(v as u32)) {
                        Some(Self::copy_of(v0, order@, HVertId(v as u32)))
                    } else {
                        None
                    } by {
                        lemma_firsts_contains(s@, HVertId(v as u32));
                        lemma_firsts_contains(ns, HVertId(v as u32));
                        if v != idx {
                            assert(HVertId(v as u32) != vid);
                            if fs.contains(HVertId(v as u32)) {
                                assert(nfs.contains(HVertId(v as u32))) by {
                                    let q = choose|q: int| 0 <= q < fs.len() && fs[q] == HVertId(v as u32);
                                    assert(nfs[q] == fs[q]);
                                }
                            } else {
                                if nfs.contains(HVertId(v as u32)) {
                                    let q = choose|q: int| 0 <= q < nfs.len() && nfs[q] == HVertId(v as u32);
                                    if q < fs.len() {
                                        assert(fs[q] == nfs[q]);
                                    }
                                }
                            }
                        }
                    }
                }
                c
            },
        }
    }

    /// The copies of the corners `vids` of the next face, made on their
    /// first meeting after the corners `ck` of the faces before.
    #[verifier::rlimit(40)]
    fn copy_corners(
        &mut self,
        map: &mut Vec<Option<HVertId>>,
        vids: &Vec<HVertId>,
        offset: &G::Offset,
        pre: Ghost<Self>,
        order: Ghost<Seq<HVertId>>,
        ck: Ghost<Seq<HVertId>>,
        all: Ghost<Seq<HVertId>>,
    ) -> (copied: Vec<HVertId>)
        requires
            old(self).wf(),
            pre@.topo_wf(),
            forall|q: int| 0 <= q < vids@.len() ==> pre@.vert_ok(#[trigger] vids@[q]),
            (ck@ + vids@).len() <= all@.len(),
            all@.subrange(0, (ck@ + vids@).len() as int) == ck@ + vids@,
            order@ == firsts(all@),
            pre@.verts@.len() + all@.len() < u32::MAX,
            order@.len() <= all@.len(),
            old(self).verts_copied(pre@, order@, ck@, *offset),
            Self::map_ok(old(map)@, pre@, order@, ck@),
        ensures
            final(self).wf(),
            final(self).verts_copied(pre@, order@, ck@ + vids@, *offset),
            Self::map_ok(final(map)@, pre@, order@, ck@ + vids@),
            final(self).edges == old(self).edges,
            final(self).faces == old(self).faces,
            final(self).loops == old(self).loops,
            copied@ == Self::copies(pre@.verts@.len(), order@, vids@),
            forall|q: int| 0 <= q < copied@.len() ==> final(self).vert_ok(#[trigger] copied@[q]),
    {
        let ghost pv = vids@;
        let ghost v0 = pre@.verts@.len();
        let mut copied: Vec<HVertId> = Vec::new();
        let mut c: usize = 0;
        let ghost start = *self;
        proof {
            assert(pv.take(0) =~= Seq::<HVertId>::empty());
            assert(ck@ + pv.take(0) =~= ck@);
        }
        while c < vids.len()
            invariant
                vids@ == pv,
                c <= pv.len(),
                forall|q: int| 0 <= q < pv.len() ==> pre@.vert_ok(#[trigger] pv[q]),
                pre@.topo_wf(),
                (ck@ + pv).len() <= all@.len(),
                all@.subrange(0, (ck@ + pv).len() as int) == ck@ + pv,
                order@ == firsts(all@),
                v0 == pre@.verts@.len(),
                v0 + all@.len() < u32::MAX,
                order@.len() <= all@.len(),
                self.wf(),
                self.verts_copied(pre@, order@, ck@ + pv.take(c as int), *offset),
                Self::map_ok(map@, pre@, order@, ck@ + pv.take(c as int)),
                self.edges == start.edges,
                self.faces == start.faces,
                self.loops == start.loops,
                copied@ == Self::copies(v0, order@, pv.take(c as int)),
                forall|q: int| 0 <= q < c ==> firsts(ck@ + pv.take(c as int)).contains(#[trigger] pv[q]),
            decreases pv.len() - c,
        {
            let vid = vids[c];
            let ghost s = ck@ + pv.take(c as int);
            proof {
                assert(s.push(vid) =~= ck@ + pv.take(c + 1));
                assert((ck@ + pv).subrange(0, (s.len() + 1) as int) =~= s.push(vid));
                assert(all@.subrange(0, (s.len() + 1) as int) =~= s.push(vid));
                lemma_firsts_of_prefix(all@, (s.len() + 1) as int);
            }
            let cp = self.copy_corner(map, vid, offset, pre, order, Ghost(s));
            copied.push(cp);
            proof {
                assert(copied@ =~= Self::copies(v0, order@, pv.take(c + 1)));
                assert forall|q: int| 0 <= q < c + 1 implies firsts(ck@ + pv.take(c + 1)).contains(#[trigger] pv[q]) by {
                    lemma_firsts_contains(ck@ + pv.take(c + 1), pv[q]);
                    assert((ck@ + pv.take(c + 1))[ck@.len() + q] == pv[q]);
                }
            }
            c = c + 1;
        }
        proof {
            reveal(BMesh::verts_copied);
            assert(pv.take(c as int) =~= pv);
            let fs = firsts(ck@ + pv);
            assert forall|q: int| 0 <= q < copied@.len() implies self.vert_ok(#[trigger] copied@[q]) by {
                assert(fs.contains(pv[q]));
                lemma_first_index(fs, pv[q]);
                lemma_first_index_prefix(order@, fs.len() as int, pv[q]);
            }
        }
        copied
    }

    /// What adding the copy of face `k` keeps and gives.
    #[verifier::rlimit(40)]
    proof fn lemma_face_appended(
        pre: Self,
        mid: Self,
        post: Self,
        copied: Seq<HVertId>,
        nf: HFaceId,
        fids: Seq<HFaceId>,
        order: Seq<HVertId>,
        off: G::Offset,
        s: Seq<HVertId>,
        k: int,
    )
        requires
            mid.wf(),
            0 <= k,
            Self::face_added(mid, post, copied, nf),
            mid.faces@.len() == pre.faces@.len() + k,
            mid.faces@.len() < u32::MAX,
            mid.loops@.len() <= u32::MAX,
            mid.loops@.len() >= pre.loops@.len(),
            mid.loops@.subrange(0, pre.loops@.len() as int) == pre.loops@,
            forall|f: int| 0 <= f < pre.faces@.len() ==> #[trigger] mid.faces@[f] == pre.faces@[f],
            forall|q: int|
                0 <= q < k ==> #[trigger] mid.spec_face_verts(HFaceId((pre.faces@.len() + q) as u32)) == Self::copies(
                    pre.verts@.len(),
                    order,
                    pre.spec_face_verts(fids[q]),
                ),
            copied == Self::copies(pre.verts@.len(), order, pre.spec_face_verts(fids[k])),
            mid.verts_copied(pre, order, s, off),
        ensures
            post.verts_copied(pre, order, s, off),
            forall|f: int| 0 <= f < pre.faces@.len() ==> #[trigger] post.faces@[f] == pre.faces@[f],
            post.loops@.subrange(0, pre.loops@.len() as int) == pre.loops@,
            forall|q: int|
                0 <= q < k + 1 ==> #[trigger] post.spec_face_verts(HFaceId((pre.faces@.len() + q) as u32)) == Self::copies(
                    pre.verts@.len(),
                    order,
                    pre.spec_face_verts(fids[q]),
                ),
            nf == HFaceId((pre.faces@.len() + k) as u32),
    {
        reveal(BMesh::verts_copied);
        let f0 = pre.faces@.len();
        let v0 = pre.verts@.len();
        Self::lemma_added_face_verts(mid, post, copied, nf);
        assert(post.faces@.drop_last() == mid.faces@);
        assert forall|f: int| 0 <= f < f0 implies #[trigger] post.faces@[f] == pre.faces@[f] by {
            assert(post.faces@.drop_last()[f] == post.faces@[f]);
        }
        assert forall|q: int|
            0 <= q < k + 1 implies #[trigger] post.spec_face_verts(HFaceId((f0 + q) as u32)) == Self::copies(
                v0,
                order,
                pre.spec_face_verts(fids[q]),
            ) by {
            if q < k {
                assert(post.faces@.drop_last()[f0 + q] == post.faces@[f0 + q]);
                Self::lemma_face_verts_stable(mid, post, f0 + q);
            }
        }
        assert forall|v: int| 0 <= v < v0 implies Self::vert_kept(pre.verts@[v], #[trigger] post.verts@[v]) by {
            assert(Self::vert_kept(mid.verts@[v], post.verts@[v]));
            assert(Self::vert_kept(pre.verts@[v], mid.verts@[v]));
        }
        assert forall|j: int|
            0 <= j < firsts(s).len() implies {
                let nv = #[trigger] post.verts@[v0 + j];
                &&& Self::offset_copied(pre.verts@[order[j].0 as int].attrs, off, nv.attrs)
                &&& nv.select == super::bmesh::SelectState::Unselected
                &&& !nv.hide
            } by {
            assert(Self::vert_kept(mid.verts@[v0 + j], post.verts@[v0 + j]));
            assert(mid.verts@[v0 + j] == mid.verts@[v0 + j]);
        }
        assert(post.loops@.subrange(0, pre.loops@.len() as int) =~= mid.loops@.subrange(0, pre.loops@.len() as int));
    }

    /// First half of an extrusion: the copy of every given face, through
    /// the copies of its corners (made on their first meeting).
    #[verifier::rlimit(60)]
    fn copy_faces(&mut self, face_ids: &[HFaceId], offset: &G::Offset, order: Ghost<Seq<HVertId>>) -> (r: (
        Vec<HFaceId>,
        Vec<Option<HVertId>>,
    ))
        requires
            old(self).wf(),
            old(self).extrudable(face_ids@),
            order@ == firsts(old(self).corners_upto(face_ids@, face_ids@.len())),
            old(self).verts@.len() + old(self).corners_upto(face_ids@, face_ids@.len()).len() < u32::MAX,
            old(self).faces@.len() + face_ids@.len() < u32::MAX,
            old(self).loops@.len() + old(self).corners_upto(face_ids@, face_ids@.len()).len() <= u32::MAX,
            old(self).edges@.len() + old(self).corners_upto(face_ids@, face_ids@.len()).len() <= u32::MAX,
        ensures
            final(self).wf(),
            final(self).verts_copied(*old(self), order@, old(self).corners_upto(face_ids@, face_ids@.len()), *offset),
            Self::map_ok(r.1@, *old(self), order@, old(self).corners_upto(face_ids@, face_ids@.len())),
            final(self).faces@.len() == old(self).faces@.len() + face_ids@.len(),
            forall|f: int| 0 <= f < old(self).faces@.len() ==> #[trigger] final(self).faces@[f] == old(self).faces@[f],
            final(self).loops@.len() <= old(self).loops@.len() + old(self).corners_upto(face_ids@, face_ids@.len()).len(),
            final(self).loops@.subrange(0, old(self).loops@.len() as int) == old(self).loops@,
            final(self).loops@.len() >= old(self).loops@.len(),
            final(self).edges@.len() <= old(self).edges@.len() + old(self).corners_upto(face_ids@, face_ids@.len()).len(),
            r.0@.len() == face_ids@.len(),
            forall|k: int| 0 <= k < face_ids@.len() ==> #[trigger] r.0@[k] == HFaceId((old(self).faces@.len() + k) as u32),
            forall|k: int|
                0 <= k < face_ids@.len() ==> #[trigger] final(self).spec_face_verts(HFaceId((old(self).faces@.len() + k) as u32))
                    == Self::copies(old(self).verts@.len(), order@, old(self).spec_face_verts(face_ids@[k])),
    {
        let ghost pre = *self;
        let ghost fids = face_ids@;
        let ghost n = fids.len();
        let ghost all = pre.corners_upto(fids, n as nat);
        let ghost v0 = pre.verts@.len();
        let ghost f0 = pre.faces@.len();
        let ghost l0 = pre.loops@.len();
        let ghost e0 = pre.edges@.len();
        proof {
            lemma_firsts_len(all);
        }
        let mut map: Vec<Option<HVertId>> = Vec::new();
        let mut v: usize = 0;
        while v < self.verts.len()
            invariant
                self.verts@.len() == v0,
                v <= v0,
                map@.len() == v,
                forall|q: int| 0 <= q < v ==> #[trigger] map@[q] == None::<HVertId>,
            decreases v0 - v,
        {
            map.push(None);
            v = v + 1;
        }
        proof {
            reveal(BMesh::verts_copied);
            reveal(BMesh::map_ok);
            assert(all.subrange(0, 0) =~= Seq::<HVertId>::empty());
            lemma_firsts_of_prefix(all, 0);
            assert(firsts(Seq::<HVertId>::empty()) =~= Seq::<HVertId>::empty());
            assert(self.verts_copied(pre, order@, Seq::<HVertId>::empty(), *offset)) by {
                assert(order@.subrange(0, 0) =~= Seq::<HVertId>::empty());
            }
            assert(Self::map_ok(map@, pre, order@, Seq::<HVertId>::empty())) by {
                assert forall|q: int| 0 <= q < v0 implies #[trigger] map@[q] == if firsts(Seq::<HVertId>::empty()).contains(
                    HVertId(q as u32),
                ) {
                    Some(Self::copy_of(v0, order@, HVertId(q as u32)))
                } else {
                    None
                } by {
                    assert(!Seq::<HVertId>::empty().contains(HVertId(q as u32)));
                }
            }
            assert(self.loops@.subrange(0, l0 as int) =~= pre.loops@);
        }
        let mut new_faces: Vec<HFaceId> = Vec::new();
        let mut k: usize = 0;
        while k < face_ids.len()
            invariant
                fids == face_ids@,
                n == fids.len(),
                k <= n,
                pre.wf(),
                pre.extrudable(fids),
                order@ == firsts(all),
                all == pre.corners_upto(fids, n as nat),
                v0 == pre.verts@.len(),
                f0 == pre.faces@.len(),
                l0 == pre.loops@.len(),
                e0 == pre.edges@.len(),
                v0 + all.len() < u32::MAX,
                f0 + n < u32::MAX,
                l0 + all.len() <= u32::MAX,
                e0 + all.len() <= u32::MAX,
                order@.len() <= all.len(),
                self.wf(),
                self.verts_copied(pre, order@, pre.corners_upto(fids, k as nat), *offset),
                Self::map_ok(map@, pre, order@, pre.corners_upto(fids, k as nat)),
                self.faces@.len() == f0 + k,
                forall|f: int| 0 <= f < f0 ==> #[trigger] self.faces@[f] == pre.faces@[f],
                self.loops@.len() <= l0 + pre.corners_upto(fids, k as nat).len(),
                self.loops@.len() >= l0,
                self.loops@.subrange(0, l0 as int) == pre.loops@,
                self.edges@.len() <= e0 + pre.corners_upto(fids, k as nat).len(),
                new_faces@.len() == k,
                forall|q: int| 0 <= q < k ==> #[trigger] new_faces@[q] == HFaceId((f0 + q) as u32),
                forall|q: int|
                    0 <= q < k ==> #[trigger] self.spec_face_verts(HFaceId((f0 + q) as u32)) == Self::copies(
                        v0,
                        order@,
                        pre.spec_face_verts(fids[q]),
                    ),
            decreases n - k,
        {
            let fid = face_ids[k];
            let ghost ck = pre.corners_upto(fids, k as nat);
            let ghost pv = pre.spec_face_verts(fid);
            proof {
                assert(fid == fids[k as int]);
                pre.lemma_corners_len(fids, k as nat, (k + 1) as nat);
                pre.lemma_corners_len(fids, (k + 1) as nat, n as nat);
                assert(pre.corners_upto(fids, (k + 1) as nat) == ck + pv);
                Self::lemma_face_verts_stable(pre, *self, fid.0 as int);
                pre.lemma_face_verts_ok(fid);
            }
            let vids = self.face_verts(fid);
            let ghost st = *self;
            let copied = self.copy_corners(&mut map, &vids, offset, Ghost(pre), order, Ghost(ck), Ghost(all));
            let ghost mid = *self;
            let nf = self.add_face(copied.as_slice());
            new_faces.push(nf);
            proof {
                assert forall|q: int| 0 <= q < k implies #[trigger] mid.spec_face_verts(HFaceId((f0 + q) as u32))
                    == st.spec_face_verts(HFaceId((f0 + q) as u32)) by {
                    assert(mid.spec_face_verts(HFaceId((f0 + q) as u32)) =~= st.spec_face_verts(HFaceId((f0 + q) as u32)));
                }
                Self::lemma_face_appended(pre, mid, *self, copied@, nf, fids, order@, *offset, ck + pv, k as int);
                assert forall|q: int| 0 <= q < k + 1 implies #[trigger] new_faces@[q] == HFaceId((f0 + q) as u32) by {
                    if q < k {
                        assert(new_faces@.drop_last()[q] == new_faces@[q]);
                    }
                }
            }
            k = k + 1;
        }
        (new_faces, map)
    }

    /// What adding a face keeps: the faces before, with their corners, the
    /// loops before, and every vertex but a first edge it gains.
    pub proof fn lemma_face_kept(mid: Self, post: Self, vids: Seq<HVertId>, nf: HFaceId)
        requires
            mid.wf(),
            Self::face_added(mid, post, vids, nf),
            mid.faces@.len() < u32::MAX,
            mid.loops@.len() <= u32::MAX,
        ensures
            nf == HFaceId(mid.faces@.len() as u32),
            post.faces@.len() == mid.faces@.len() + 1,
            post.spec_face_verts(nf) == vids,
            forall|f: int| 0 <= f < mid.faces@.len() ==> #[trigger] post.faces@[f] == mid.faces@[f],
            forall|f: int|
                0 <= f < mid.faces@.len() ==> #[trigger] post.spec_face_verts(HFaceId(f as u32)) == mid.spec_face_verts(
                    HFaceId(f as u32),
                ),
            post.loops@.len() == mid.loops@.len() + vids.len(),
            post.loops@.subrange(0, mid.loops@.len() as int) == mid.loops@,
            post.verts@.len() == mid.verts@.len(),
            forall|v: int| 0 <= v < mid.verts@.len() ==> Self::vert_kept(mid.verts@[v], #[trigger] post.verts@[v]),
            post.edges@.len() <= mid.edges@.len() + vids.len(),
    {
        Self::lemma_added_face_verts(mid, post, vids, nf);
        assert forall|f: int| 0 <= f < mid.faces@.len() implies #[trigger] post.faces@[f] == mid.faces@[f] by {
            assert(post.faces@.drop_last()[f] == post.faces@[f]);
        }
        assert forall|f: int|
            0 <= f < mid.faces@.len() implies #[trigger] post.spec_face_verts(HFaceId(f as u32)) == mid.spec_face_verts(
                HFaceId(f as u32),
            ) by {
            assert(post.faces@.drop_last()[f] == post.faces@[f]);
            Self::lemma_face_verts_stable(mid, post, f);
        }
    }

    proof fn lemma_verts_copied_kept(pre: Self, mid: Self, post: Self, order: Seq<HVertId>, s: Seq<HVertId>, off: G::Offset)
        requires
            mid.verts_copied(pre, order, s, off),
            post.verts@.len() == mid.verts@.len(),
            forall|v: int| 0 <= v < mid.verts@.len() ==> Self::vert_kept(mid.verts@[v], #[trigger] post.verts@[v]),
        ensures
            post.verts_copied(pre, order, s, off),
    {
        reveal(BMesh::verts_copied);
        let v0 = pre.verts@.len();
        assert forall|v: int| 0 <= v < v0 implies Self::vert_kept(pre.verts@[v], #[trigger] post.verts@[v]) by {
            assert(Self::vert_kept(mid.verts@[v], post.verts@[v]));
            assert(Self::vert_kept(pre.verts@[v], mid.verts@[v]));
        }
        assert forall|j: int|
            0 <= j < firsts(s).len() implies {
                let nv = #[trigger] post.verts@[v0 + j];
                &&& Self::offset_copied(pre.verts@[order[j].0 as int].attrs, off, nv.attrs)
                &&& nv.select == super::bmesh::SelectState::Unselected
                &&& !nv.hide
            } by {
            assert(Self::vert_kept(mid.verts@[v0 + j], post.verts@[v0 + j]));
            assert(mid.verts@[v0 + j] == mid.verts@[v0 + j]);
        }
    }

    /// The copy of a corner vertex of the region, by the map.
    proof fn lemma_map_copy(map: Seq<Option<HVertId>>, pre: Self, order: Seq<HVertId>, all: Seq<HVertId>, v: HVertId)
        requires
            Self::map_ok(map, pre, order, all),
            all.contains(v),
            v.0 < pre.verts@.len(),
            order == firsts(all),
        ensures
            map.len() == pre.verts@.len(),
            map[v.0 as int] == Some(Self::copy_of(pre.verts@.len(), order, v)),
            0 <= first_index(order, v) < order.len(),
    {
        reveal(BMesh::map_ok);
        lemma_firsts_contains(all, v);
        lemma_first_index(order, v);
        assert(HVertId(v.0 as int as u32) == v);
    }

    /// Second half of an extrusion: a quad for every side of every given
    /// face, from the side to its copy.
    #[verifier::rlimit(100)]
    #[verifier::spinoff_prover]
    fn bridge_sides(
        &mut self,
        face_ids: &[HFaceId],
        map: &Vec<Option<HVertId>>,
        pre: Ghost<Self>,
        order: Ghost<Seq<HVertId>>,
        off: Ghost<G::Offset>,
    )
        requires
            old(self).wf(),
            pre@.wf(),
            pre@.extrudable(face_ids@),
            order@ == firsts(pre@.corners_upto(face_ids@, face_ids@.len())),
            old(self).verts_copied(pre@, order@, pre@.corners_upto(face_ids@, face_ids@.len()), off@),
            Self::map_ok(map@, pre@, order@, pre@.corners_upto(face_ids@, face_ids@.len())),
            old(self).faces@.len() == pre@.faces@.len() + face_ids@.len(),
            forall|f: int| 0 <= f < pre@.faces@.len() ==> #[trigger] old(self).faces@[f] == pre@.faces@[f],
            old(self).loops@.len() >= pre@.loops@.len(),
            old(self).loops@.subrange(0, pre@.loops@.len() as int) == pre@.loops@,
            old(self).faces@.len() + pre@.corners_upto(face_ids@, face_ids@.len()).len() < u32::MAX,
            old(self).loops@.len() + 4 * pre@.corners_upto(face_ids@, face_ids@.len()).len() <= u32::MAX,
            old(self).edges@.len() + 4 * pre@.corners_upto(face_ids@, face_ids@.len()).len() <= u32::MAX,
        ensures
            final(self).wf(),
            final(self).verts_copied(pre@, order@, pre@.corners_upto(face_ids@, face_ids@.len()), off@),
            final(self).faces@.len() == old(self).faces@.len() + pre@.corners_upto(face_ids@, face_ids@.len()).len(),
            final(self).loops@.len() >= pre@.loops@.len(),
            final(self).loops@.subrange(0, pre@.loops@.len() as int) == pre@.loops@,
            forall|f: int| 0 <= f < old(self).faces@.len() ==> #[trigger] final(self).faces@[f] == old(self).faces@[f],
            forall|f: int|
                0 <= f < old(self).faces@.len() ==> #[trigger] final(self).spec_face_verts(HFaceId(f as u32))
                    == old(self).spec_face_verts(HFaceId(f as u32)),
            forall|k: int, c: int|
                0 <= k < face_ids@.len() && 0 <= c < pre@.spec_face_verts(face_ids@[k]).len() ==> #[trigger] final(self).spec_face_verts(
                    HFaceId((old(self).faces@.len() + pre@.corners_upto(face_ids@, k as nat).len() + c) as u32),
                ) == Self::side_quad(pre@.verts@.len(), order@, pre@.spec_face_verts(face_ids@[k]), c),
    {
        let ghost fids = face_ids@;
        let ghost n = fids.len();
        let ghost all = pre@.corners_upto(fids, n as nat);
        let ghost v0 = pre@.verts@.len();
        let ghost f1 = self.faces@.len();
        let ghost l1 = self.loops@.len();
        let ghost e1 = self.edges@.len();
        let ghost start = *self;
        let mut k: usize = 0;
        while k < face_ids.len()
            invariant
                fids == face_ids@,
                n == fids.len(),
                k <= n,
                pre@.wf(),
                pre@.extrudable(fids),
                all == pre@.corners_upto(fids, n as nat),
                order@ == firsts(all),
                v0 == pre@.verts@.len(),
                Self::map_ok(map@, pre@, order@, all),
                f1 == start.faces@.len(),
                f1 + all.len() < u32::MAX,
                l1 + 4 * all.len() <= u32::MAX,
                e1 + 4 * all.len() <= u32::MAX,
                f1 >= pre@.faces@.len(),
                self.wf(),
                self.verts_copied(pre@, order@, all, off@),
                self.faces@.len() == f1 + pre@.corners_upto(fids, k as nat).len(),
                forall|f: int| 0 <= f < pre@.faces@.len() ==> #[trigger] self.faces@[f] == pre@.faces@[f],
                forall|f: int| 0 <= f < f1 ==> #[trigger] self.faces@[f] == start.faces@[f],
                forall|f: int|
                    0 <= f < f1 ==> #[trigger] self.spec_face_verts(HFaceId(f as u32)) == start.spec_face_verts(HFaceId(f as u32)),
                self.loops@.len() <= l1 + 4 * pre@.corners_upto(fids, k as nat).len(),
                self.loops@.len() >= pre@.loops@.len(),
                self.loops@.subrange(0, pre@.loops@.len() as int) == pre@.loops@,
                self.edges@.len() <= e1 + 4 * pre@.corners_upto(fids, k as nat).len(),
                forall|kk: int, c: int|
                    0 <= kk < k && 0 <= c < pre@.spec_face_verts(fids[kk]).len() ==> #[trigger] self.spec_face_verts(
                        HFaceId((f1 + pre@.corners_upto(fids, kk as nat).len() + c) as u32),
                    ) == Self::side_quad(v0, order@, pre@.spec_face_verts(fids[kk]), c),
            decreases n - k,
        {
            let fid = face_ids[k];
            let ghost ck = pre@.corners_upto(fids, k as nat);
            let ghost pv = pre@.spec_face_verts(fid);
            proof {
                assert(fid == fids[k as int]);
                pre@.lemma_corners_len(fids, k as nat, (k + 1) as nat);
                pre@.lemma_corners_len(fids, (k + 1) as nat, n as nat);
                assert(pre@.corners_upto(fids, (k + 1) as nat) == ck + pv);
                Self::lemma_face_verts_stable(pre@, *self, fid.0 as int);
                pre@.lemma_face_verts_ok(fid);
                reveal(BMesh::verts_copied);
            }
            let vids = self.face_verts(fid);
            let nc = vids.len();
            let mut c: usize = 0;
            while c < nc
                invariant
                    fids == face_ids@,
                    n == fids.len(),
                    k < n,
                    vids@ == pv,
                    nc == pv.len(),
                    c <= nc,
                    nc >= 3,
                    pv == pre@.spec_face_verts(fids[k as int]),
                    forall|q: int| 0 <= q < pv.len() ==> pre@.vert_ok(#[trigger] pv[q]),
                    ck == pre@.corners_upto(fids, k as nat),
                    ck + pv == pre@.corners_upto(fids, (k + 1) as nat),
                    all.subrange(0, (ck + pv).len() as int) == ck + pv,
                    (ck + pv).len() <= all.len(),
                    pre@.wf(),
                    all == pre@.corners_upto(fids, n as nat),
                    order@ == firsts(all),
                    v0 == pre@.verts@.len(),
                    Self::map_ok(map@, pre@, order@, all),
                    f1 + all.len() < u32::MAX,
                    l1 + 4 * all.len() <= u32::MAX,
                    e1 + 4 * all.len() <= u32::MAX,
                    f1 >= pre@.faces@.len(),
                    self.wf(),
                    self.verts_copied(pre@, order@, all, off@),
                    self.faces@.len() == f1 + ck.len() + c,
                    forall|f: int| 0 <= f < pre@.faces@.len() ==> #[trigger] self.faces@[f] == pre@.faces@[f],
                    forall|f: int| 0 <= f < f1 ==> #[trigger] self.faces@[f] == start.faces@[f],
                    forall|f: int|
                        0 <= f < f1 ==> #[trigger] self.spec_face_verts(HFaceId(f as u32)) == start.spec_face_verts(HFaceId(f as u32)),
                    self.loops@.len() <= l1 + 4 * (ck.len() + c),
                    self.loops@.len() >= pre@.loops@.len(),
                    self.loops@.subrange(0, pre@.loops@.len() as int) == pre@.loops@,
                    self.edges@.len() <= e1 + 4 * (ck.len() + c),
                    forall|kk: int, cc: int|
                        0 <= kk < k && 0 <= cc < pre@.spec_face_verts(fids[kk]).len() ==> #[trigger] self.spec_face_verts(
                            HFaceId((f1 + pre@.corners_upto(fids, kk as nat).len() + cc) as u32),
                        ) == Self::side_quad(v0, order@, pre@.spec_face_verts(fids[kk]), cc),
                    forall|cc: int|
                        0 <= cc < c ==> #[trigger] self.spec_face_verts(HFaceId((f1 + ck.len() + cc) as u32)) == Self::side_quad(
                            v0,
                            order@,
                            pv,
                            cc,
                        ),
                decreases nc - c,
            {
                let a = vids[c];
                let b = vids[(c + 1) % nc];
                let ghost cn = Self::cyc_next(c as int, nc as int);
                proof {
                    Self::lemma_cyc_next(c as int, nc as int);
                    assert((ck + pv)[ck.len() + c] == a);
                    assert((ck + pv)[ck.len() + cn] == b);
                    assert(all[ck.len() + c] == a);
                    assert(all[ck.len() + cn] == b);
                    Self::lemma_map_copy(map@, pre@, order@, all, a);
                    Self::lemma_map_copy(map@, pre@, order@, all, b);
                    reveal(BMesh::verts_copied);
                }
                let na = map[a.0 as usize].unwrap();
                let nb = map[b.0 as usize].unwrap();
                let quad = [a, na, nb, b];
                let ghost mid = *self;
                proof {
                    assert(quad@ =~= Self::side_quad(v0, order@, pv, c as int));
                }
                let nf = self.add_face(&quad);
                proof {
                    Self::lemma_face_kept(mid, *self, quad@, nf);
                    Self::lemma_verts_copied_kept(pre@, mid, *self, order@, all, off@);
                    assert forall|f: int| 0 <= f < f1 implies #[trigger] self.spec_face_verts(HFaceId(f as u32))
                        == start.spec_face_verts(HFaceId(f as u32)) by {
                        assert(self.spec_face_verts(HFaceId(f as u32)) == mid.spec_face_verts(HFaceId(f as u32)));
                    }
                    assert forall|kk: int, cc: int|
                        0 <= kk < k && 0 <= cc < pre@.spec_face_verts(fids[kk]).len() implies #[trigger] self.spec_face_verts(
                            HFaceId((f1 + pre@.corners_upto(fids, kk as nat).len() + cc) as u32),
                        ) == Self::side_quad(v0, order@, pre@.spec_face_verts(fids[kk]), cc) by {
                        pre@.lemma_corners_len(fids, (kk + 1) as nat, k as nat);
                        assert(pre@.corners_upto(fids, (kk + 1) as nat) == pre@.corners_upto(fids, kk as nat) + pre@.spec_face_verts(fids[kk]));
                        let g = f1 + pre@.corners_upto(fids, kk as nat).len() + cc;
                        assert(self.spec_face_verts(HFaceId(g as u32)) == mid.spec_face_verts(HFaceId(g as u32)));
                    }
                    assert forall|cc: int| 0 <= cc < c + 1 implies #[trigger] self.spec_face_verts(
                        HFaceId((f1 + ck.len() + cc) as u32),
                    ) == Self::side_quad(v0, order@, pv, cc) by {
                        if cc < c {
                            let g = f1 + ck.len() + cc;
                            assert(self.spec_face_verts(HFaceId(g as u32)) == mid.spec_face_verts(HFaceId(g as u32)));
                        }
                    }
                    assert(self.loops@.subrange(0, pre@.loops@.len() as int) =~= mid.loops@.subrange(0, pre@.loops@.len() as int));
                }
                c = c + 1;
            }
            proof {
                assert(self.faces@.len() == f1 + pre@.corners_upto(fids, (k + 1) as nat).len());
                assert(self.loops@.len() <= l1 + 4 * pre@.corners_upto(fids, (k + 1) as nat).len());
                assert(self.edges@.len() <= e1 + 4 * pre@.corners_upto(fids, (k + 1) as nat).len());
                assert forall|kk: int, cc: int|
                    0 <= kk < k + 1 && 0 <= cc < pre@.spec_face_verts(fids[kk]).len() implies #[trigger] self.spec_face_verts(
                        HFaceId((f1 + pre@.corners_upto(fids, kk as nat).len() + cc) as u32),
                    ) == Self::side_quad(v0, order@, pre@.spec_face_verts(fids[kk]), cc) by {
                    if kk == k {
                        assert(self.spec_face_verts(HFaceId((f1 + ck.len() + cc) as u32)) == Self::side_quad(v0, order@, pv, cc));
                    }
                }
            }
            k = k + 1;
        }
        proof {
            assert forall|f: int| 0 <= f < f1 implies #[trigger] self.faces@[f] == start.faces@[f] by {}
        }
    }

    /// Extrudes the faces `face_ids` (each with at least three corners):
    /// every vertex met at their corners is copied once, in the order first
    /// met, to a fresh vertex at its position moved by `offset` (see
    /// [`BMesh::verts_copied`]); then each face is copied through the copies
    /// of its corners, and returned in order; then every side of every face,
    /// from corner `c` to the next, is bridged by the quad through the
    /// corner, its copy, the next corner's copy and the next corner. The
    /// faces and loops already there are kept. The ids made must fit in
    /// `u32`.
    pub fn extrude_face_region(&mut self, face_ids: &[HFaceId], offset: &G::Offset) -> (r: Vec<HFaceId>)
        requires
            old(self).wf(),
            old(self).extrudable(face_ids@),
            old(self).verts@.len() + old(self).corners_upto(face_ids@, face_ids@.len()).len() < u32::MAX,
            old(self).faces@.len() + face_ids@.len() + old(self).corners_upto(face_ids@, face_ids@.len()).len() < u32::MAX,
            old(self).loops@.len() + 5 * old(self).corners_upto(face_ids@, face_ids@.len()).len() <= u32::MAX,
            old(self).edges@.len() + 5 * old(self).corners_upto(face_ids@, face_ids@.len()).len() <= u32::MAX,
        ensures
            final(self).wf(),
            final(self).verts_copied(
                *old(self),
                firsts(old(self).corners_upto(face_ids@, face_ids@.len())),
                old(self).corners_upto(face_ids@, face_ids@.len()),
                *offset,
            ),
            final(self).faces@.len() == old(self).faces@.len() + face_ids@.len() + old(self).corners_upto(
                face_ids@,
                face_ids@.len(),
            ).len(),
            forall|f: int| 0 <= f < old(self).faces@.len() ==> #[trigger] final(self).faces@[f] == old(self).faces@[f],
            final(self).loops@.subrange(0, old(self).loops@.len() as int) == old(self).loops@,
            r@.len() == face_ids@.len(),
            forall|k: int| 0 <= k < face_ids@.len() ==> #[trigger] r@[k] == HFaceId((old(self).faces@.len() + k) as u32),
            forall|k: int|
                0 <= k < face_ids@.len() ==> #[trigger] final(self).spec_face_verts(r@[k]) == Self::copies(
                    old(self).verts@.len(),
                    firsts(old(self).corners_upto(face_ids@, face_ids@.len())),
                    old(self).spec_face_verts(face_ids@[k]),
                ),
            forall|k: int, c: int|
                0 <= k < face_ids@.len() && 0 <= c < old(self).spec_face_verts(face_ids@[k]).len() ==> #[trigger] final(self).spec_face_verts(
                    HFaceId(
                        (old(self).faces@.len() + face_ids@.len() + old(self).corners_upto(face_ids@, k as nat).len() + c) as u32,
                    ),
                ) == Self::side_quad(
                    old(self).verts@.len(),
                    firsts(old(self).corners_upto(face_ids@, face_ids@.len())),
                    old(self).spec_face_verts(face_ids@[k]),
                    c,
                ),
    {
        let ghost pre = *self;
        let ghost all = pre.corners_upto(face_ids@, face_ids@.len());
        let ghost order = firsts(all);
        let (new_faces, map) = self.copy_faces(face_ids, offset, Ghost(order));
        let ghost mid = *self;
        proof {
            assert forall|f: int| 0 <= f < pre.faces@.len() implies #[trigger] mid.faces@[f] == pre.faces@[f] by {}
        }
        self.bridge_sides(face_ids, &map, Ghost(pre), Ghost(order), Ghost(*offset));
        proof {
            assert forall|k: int| 0 <= k < face_ids@.len() implies #[trigger] self.spec_face_verts(new_faces@[k]) == Self::copies(
                pre.verts@.len(),
                order,
                pre.spec_face_verts(face_ids@[k]),
            ) by {
                let g = pre.faces@.len() + k;
                assert(new_faces@[k] == HFaceId(g as u32));
                assert(self.spec_face_verts(HFaceId(g as u32)) == mid.spec_face_verts(HFaceId(g as u32)));
            }
            assert forall|f: int| 0 <= f < pre.faces@.len() implies #[trigger] self.faces@[f] == pre.faces@[f] by {
                assert(self.faces@[f] == mid.faces@[f]);
            }
            assert(self.loops@.subrange(0, pre.loops@.len() as int) == pre.loops@) by {
                assert(self.loops@.subrange(0, pre.loops@.len() as int) =~= pre.loops@);
            }
        }
        new_faces
    }
}

} // verus!