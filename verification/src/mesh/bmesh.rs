//! Half-edge style editable mesh ("BMesh"): topology, selection and id pools.
//!
//! The floating-point attributes of the elements (positions, normals, uvs,
//! colours, weights) are held in the generic attribute slots of the elements
//! and computed by the implementor of [`BMeshGeometry`]; everything that is
//! integer topology is verified here.
use vstd::prelude::*;
use vstd::std_specs::convert::FromSpec;

verus! {

/// Id of a half edge: its index in `BMesh::edges`.
#[derive(Clone, Copy, Debug, PartialEq, Eq, Hash, Structural)]
pub struct HEdgeId(pub u32);

impl From<u32> for HEdgeId {
    fn from(v: u32) -> Self {
        Self(v)
    }
}

impl vstd::std_specs::convert::FromSpecImpl<u32> for HEdgeId {
    open spec fn obeys_from_spec() -> bool {
        true
    }

    open spec fn from_spec(v: u32) -> Self {
        HEdgeId(v)
    }
}

/// Id of a vertex: its index in `BMesh::verts`.
#[derive(Clone, Copy, Debug, PartialEq, Eq, Hash, Structural)]
pub struct HVertId(pub u32);

impl From<u32> for HVertId {
    fn from(v: u32) -> Self {
        Self(v)
    }
}

impl vstd::std_specs::convert::FromSpecImpl<u32> for HVertId {
    open spec fn obeys_from_spec() -> bool {
        true
    }

    open spec fn from_spec(v: u32) -> Self {
        HVertId(v)
    }
}

/// Id of a face: its index in `BMesh::faces`.
#[derive(Clone, Copy, Debug, PartialEq, Eq, Hash, Structural)]
pub struct HFaceId(pub u32);

impl From<u32> for HFaceId {
    fn from(v: u32) -> Self {
        Self(v)
    }
}

impl vstd::std_specs::convert::FromSpecImpl<u32> for HFaceId {
    open spec fn obeys_from_spec() -> bool {
        true
    }

    open spec fn from_spec(v: u32) -> Self {
        HFaceId(v)
    }
}

/// Id of a face corner ("loop"): its index in `BMesh::loops`.
#[derive(Clone, Copy, Debug, PartialEq, Eq, Hash, Structural)]
pub struct HLoopId(pub u32);

impl From<u32> for HLoopId {
    fn from(v: u32) -> Self {
        Self(v)
    }
}

impl vstd::std_specs::convert::FromSpecImpl<u32> for HLoopId {
    open spec fn obeys_from_spec() -> bool {
        true
    }

    open spec fn from_spec(v: u32) -> Self {
        HLoopId(v)
    }
}

/// Selection state of a mesh element.
#[derive(Clone, Copy, Debug, PartialEq, Eq, Structural)]
pub enum SelectState {
    Unselected,
    Select,
    SelectFlush,
}

impl Default for SelectState {
    fn default() -> (s: Self)
        ensures
            s == SelectState::Unselected,
    {
        SelectState::Unselected
    }
}

impl SelectState {
    /// Both selected states count as selected.
    pub open spec fn spec_selected(self) -> bool {
        self is Select || self is SelectFlush
    }

    pub fn is_selected(&self) -> (b: bool)
        ensures
            b == self.spec_selected(),
    {
        *self == SelectState::Select || *self == SelectState::SelectFlush
    }
}

/// Which kind of element a selection works on.
#[derive(Clone, Copy, Debug, PartialEq, Eq, Structural)]
pub enum SelectMode {
    Vertex,
    Edge,
    Face,
}

impl Default for SelectMode {
    fn default() -> (m: Self)
        ensures
            m == SelectMode::Vertex,
    {
        SelectMode::Vertex
    }
}

/// Allocator of element ids: freed ids are handed out again (last freed
/// first), otherwise ids are counted up from zero.
#[derive(Clone, Debug)]
pub struct SlotPool<T: Clone> {
    free: Vec<T>,
    next_id: u32,
}

impl<T: Clone> SlotPool<T> {
    /// Ids waiting to be handed out again; the next one handed out is the last.
    pub closed spec fn free_view(&self) -> Seq<T> {
        self.free@
    }

    /// The id that is counted up to next.
    pub closed spec fn next_view(&self) -> u32 {
        self.next_id
    }
}

impl<T: Clone + From<u32>> SlotPool<T> {
    pub fn new() -> (p: Self)
        ensures
            p.free_view() == Seq::<T>::empty(),
            p.next_view() == 0,
    {
        SlotPool { free: Vec::new(), next_id: 0 }
    }

    /// Hands out the most recently freed id, or else the next counted id.
    pub fn allocate(&mut self) -> (id: T)
        requires
            old(self).free_view().len() > 0 || old(self).next_view() < u32::MAX,
        ensures
            old(self).free_view().len() > 0 ==> {
                &&& id == old(self).free_view().last()
                &&& final(self).free_view() == old(self).free_view().drop_last()
                &&& final(self).next_view() == old(self).next_view()
            },
            old(self).free_view().len() == 0 ==> {
                &&& (T::obeys_from_spec() ==> id == T::from_spec(old(self).next_view()))
                &&& final(self).free_view() == old(self).free_view()
                &&& final(self).next_view() == old(self).next_view() + 1
            },
    {
        if let Some(id) = self.free.pop() {
            id
        } else {
            let id = T::from(self.next_id);
            self.next_id += 1;
            id
        }
    }

    /// Returns `id` to the pool.
    pub fn free(&mut self, id: T)
        ensures
            final(self).free_view() == old(self).free_view().push(id),
            final(self).next_view() == old(self).next_view(),
    {
        self.free.push(id);
    }
}

/// Whether `id` is one of the first `next` counted ids.
pub open spec fn issued<T: From<u32>>(next: u32, id: T) -> bool {
    exists|n: u32| n < next && T::from_spec(n) == id
}

/// A sound pool: no id waits twice, and every waiting id was counted out.
pub open spec fn pool_ok<T: From<u32>>(free: Seq<T>, next: u32) -> bool {
    &&& free.no_duplicates()
    &&& forall|k: int| 0 <= k < free.len() ==> issued(next, #[trigger] free[k])
}

/// Whether `id` is in use: counted out and not waiting to be handed out again.
pub open spec fn live<T: From<u32>>(free: Seq<T>, next: u32, id: T) -> bool {
    issued(next, id) && !free.contains(id)
}

/// Allocating from a sound pool never hands out an id in use: the id was
/// not live before and is live after, and the pool stays sound. (The ids
/// must be told apart by the numbers they are made from.)
pub proof fn law_allocate_fresh<T: From<u32>>(free: Seq<T>, next: u32)
    requires
        T::obeys_from_spec(),
        forall|a: u32, b: u32| T::from_spec(a) == T::from_spec(b) ==> a == b,
        pool_ok(free, next),
        free.len() > 0 || next < u32::MAX,
    ensures
        free.len() > 0 ==> {
            &&& !live(free, next, free.last())
            &&& live(free.drop_last(), next, free.last())
            &&& pool_ok(free.drop_last(), next)
        },
        free.len() == 0 ==> {
            &&& !live(free, next, T::from_spec(next))
            &&& live(free, (next + 1) as u32, T::from_spec(next))
            &&& pool_ok(free, (next + 1) as u32)
        },
{
    if free.len() > 0 {
        let id = free.last();
        assert(free.contains(id)) by {
            assert(free[free.len() - 1] == id);
        }
        assert(issued(next, free[free.len() - 1]));
        assert(!free.drop_last().contains(id)) by {
            if free.drop_last().contains(id) {
                let k = choose|k: int| 0 <= k < free.drop_last().len() && free.drop_last()[k] == id;
                assert(free[k] == free[free.len() - 1]);
            }
        }
        assert forall|k: int| 0 <= k < free.drop_last().len() implies issued(next, #[trigger] free.drop_last()[k]) by {
            assert(free.drop_last()[k] == free[k]);
        }
        assert(free.drop_last().no_duplicates()) by {
            assert forall|i: int, j: int|
                0 <= i < free.drop_last().len() && 0 <= j < free.drop_last().len() && i != j implies free.drop_last()[i]
                != free.drop_last()[j] by {
                assert(free.drop_last()[i] == free[i]);
                assert(free.drop_last()[j] == free[j]);
            }
        }
    } else {
        let id = T::from_spec(next);
        assert(!issued(next, id));
        assert(issued((next + 1) as u32, id)) by {
            assert(next < (next + 1) as u32);
        }
    }
}

/// Freeing an id in use keeps the pool sound, and the id is no longer in use.
pub proof fn law_free_live<T: From<u32>>(free: Seq<T>, next: u32, id: T)
    requires
        pool_ok(free, next),
        live(free, next, id),
    ensures
        pool_ok(free.push(id), next),
        !live(free.push(id), next, id),
{
    let f2 = free.push(id);
    assert(f2[free.len() as int] == id);
    assert forall|k: int| 0 <= k < f2.len() implies issued(next, #[trigger] f2[k]) by {
        if k < free.len() {
            assert(f2[k] == free[k]);
        }
    }
    assert(f2.no_duplicates()) by {
        assert forall|i: int, j: int| 0 <= i < f2.len() && 0 <= j < f2.len() && i != j implies f2[i] != f2[j] by {
            if i < free.len() && j < free.len() {
                assert(f2[i] == free[i] && f2[j] == free[j]);
            } else if i < free.len() {
                assert(f2[i] == free[i]);
                assert(free.contains(free[i]));
            } else if j < free.len() {
                assert(f2[j] == free[j]);
                assert(free.contains(free[j]));
            }
        }
    }
    assert(f2.contains(id));
}

impl Default for SlotPool<HEdgeId> {
    fn default() -> (p: Self)
        ensures
            p.free_view() == Seq::<HEdgeId>::empty(),
            p.next_view() == 0,
    {
        Self::new()
    }
}

impl Default for SlotPool<HVertId> {
    fn default() -> (p: Self)
        ensures
            p.free_view() == Seq::<HVertId>::empty(),
            p.next_view() == 0,
    {
        Self::new()
    }
}

impl Default for SlotPool<HFaceId> {
    fn default() -> (p: Self)
        ensures
            p.free_view() == Seq::<HFaceId>::empty(),
            p.next_view() == 0,
    {
        Self::new()
    }
}

impl Default for SlotPool<HLoopId> {
    fn default() -> (p: Self)
        ensures
            p.free_view() == Seq::<HLoopId>::empty(),
            p.next_view() == 0,
    {
        Self::new()
    }
}

/// The floating-point side of a [`BMesh`]: what its elements carry besides
/// topology, and the geometric computations on it. The topology code calls
/// these and assumes nothing about their results.
pub trait BMeshGeometry {
    /// A point in space.
    type Position;
    /// Per-vertex attributes (position, normals, uv, colour, weights).
    type VertAttrs;
    /// A face normal.
    type Normal;
    /// Per-corner attributes (uv, colour).
    type LoopAttrs;

    /// Attributes of a fresh vertex at `position`.
    fn vert_attrs(position: Self::Position) -> Self::VertAttrs;

    /// Corner attributes copied from the vertex a corner stands on.
    fn loop_attrs(vert: &Self::VertAttrs) -> Self::LoopAttrs;

    /// Normal of the triangle through three vertices.
    fn triangle_normal(a: &Self::VertAttrs, b: &Self::VertAttrs, c: &Self::VertAttrs) -> Self::Normal;

    /// The normal used when no triangle is given (the up axis).
    fn up_normal() -> Self::Normal;

    /// The opposite normal.
    fn negated_normal(n: &Self::Normal) -> Self::Normal;

    /// A displacement in space.
    type Offset;

    /// The position of a vertex with attributes `v`, moved by `off`.
    fn offset_position(v: &Self::VertAttrs, off: &Self::Offset) -> Self::Position;
}

/// A vertex; `head_edge` is the first edge created from it.
pub struct HVert<A> {
    pub id: HVertId,
    pub attrs: A,
    pub head_edge: Option<HEdgeId>,
    pub select: SelectState,
    pub hide: bool,
}

/// A half edge starting at `vert`, with its links around a face.
#[derive(Clone, Copy, Debug)]
pub struct HEdge {
    pub id: HEdgeId,
    pub vert: HVertId,
    pub face: Option<HFaceId>,
    pub next: Option<HEdgeId>,
    pub prev: Option<HEdgeId>,
    pub radial: Option<HEdgeId>,
    pub select: SelectState,
    pub hide: bool,
    pub seam: bool,
    pub sharp: bool,
}

/// A face: its corners are the `loop_total` loops from `loop_start` on.
pub struct HFace<N> {
    pub id: HFaceId,
    pub loop_start: Option<HLoopId>,
    pub loop_total: u32,
    pub normal: N,
    pub select: SelectState,
    pub hide: bool,
    pub material_index: u32,
    pub smooth: bool,
}

/// A face corner: the vertex it stands on and the edge that leaves it.
pub struct HLoop<L> {
    pub id: HLoopId,
    pub vert: HVertId,
    pub edge: HEdgeId,
    pub face: HFaceId,
    pub attrs: L,
}

/// An editable mesh. Every element's id is its index in its vector.
pub struct BMesh<G: BMeshGeometry> {
    pub verts: Vec<HVert<G::VertAttrs>>,
    pub edges: Vec<HEdge>,
    pub faces: Vec<HFace<G::Normal>>,
    pub loops: Vec<HLoop<G::LoopAttrs>>,
    pub vert_pool: SlotPool<HVertId>,
    pub edge_pool: SlotPool<HEdgeId>,
    pub face_pool: SlotPool<HFaceId>,
    pub loop_pool: SlotPool<HLoopId>,
    pub name: String,
    pub select_mode: SelectMode,
    pub total_select_verts: u32,
    pub total_select_edges: u32,
    pub total_select_faces: u32,
}

impl<G: BMeshGeometry> BMesh<G> {
    pub open spec fn vert_ok(self, v: HVertId) -> bool {
        v.0 < self.verts@.len()
    }

    pub open spec fn edge_ok(self, e: HEdgeId) -> bool {
        e.0 < self.edges@.len()
    }

    pub open spec fn opt_edge_ok(self, e: Option<HEdgeId>) -> bool {
        match e {
            Some(x) => self.edge_ok(x),
            None => true,
        }
    }

    /// Every vertex knows its own id and a valid first edge.
    pub open spec fn verts_wf(self) -> bool {
        forall|i: int|
            0 <= i < self.verts@.len() ==> {
                &&& (#[trigger] self.verts@[i]).id.0 == i
                &&& self.opt_edge_ok(self.verts@[i].head_edge)
            }
    }

    /// Every edge knows its own id, starts at a vertex, and links to valid edges.
    pub open spec fn edges_wf(self) -> bool {
        forall|i: int|
            0 <= i < self.edges@.len() ==> {
                let e = #[trigger] self.edges@[i];
                &&& e.id.0 == i
                &&& self.vert_ok(e.vert)
                &&& self.opt_edge_ok(e.next)
                &&& self.opt_edge_ok(e.prev)
                &&& self.opt_edge_ok(e.radial)
            }
    }

    /// Every edge's face, if any, lies below `face_bound`.
    pub open spec fn edge_faces_wf(self, face_bound: nat) -> bool {
        forall|i: int|
            0 <= i < self.edges@.len() ==> ((#[trigger] self.edges@[i]).face matches Some(f) ==> f.0 < face_bound)
    }

    /// Ids fit in `u32`, and vertices and edges refer to existing vertices
    /// and edges: what walking the edge links needs.
    pub open spec fn topo_wf(self) -> bool {
        &&& self.verts@.len() <= u32::MAX
        &&& self.edges@.len() <= u32::MAX
        &&& self.faces@.len() <= u32::MAX
        &&& self.loops@.len() <= u32::MAX
        &&& self.verts_wf()
        &&& self.edges_wf()
    }

    /// Every loop knows its own id and refers to a valid vertex and edge, and
    /// to a face below `face_bound`.
    pub open spec fn loops_wf(self, face_bound: nat) -> bool {
        forall|i: int|
            0 <= i < self.loops@.len() ==> {
                let l = #[trigger] self.loops@[i];
                &&& l.id.0 == i
                &&& self.vert_ok(l.vert)
                &&& self.edge_ok(l.edge)
                &&& l.face.0 < face_bound
            }
    }

    /// Each face owns the contiguous block of `loop_total` (at least one)
    /// loops from `loop_start` on, and exactly those loops name it.
    pub open spec fn faces_wf(self) -> bool {
        &&& forall|f: int, k: int|
            0 <= f < self.faces@.len() && (#[trigger] self.faces@[f]).loop_start.unwrap().0 <= k
                < self.faces@[f].loop_start.unwrap().0 + self.faces@[f].loop_total && 0 <= k
                < self.loops@.len() ==> (#[trigger] self.loops@[k]).face.0 == f
        &&& forall|f: int|
            0 <= f < self.faces@.len() ==> {
                let face = #[trigger] self.faces@[f];
                &&& face.id.0 == f
                &&& face.loop_start is Some
                &&& face.loop_total >= 1
                &&& face.loop_start.unwrap().0 + face.loop_total <= self.loops@.len()
            }
        &&& forall|k: int|
            0 <= k < self.loops@.len() ==> {
                let f = (#[trigger] self.loops@[k]).face.0 as int;
                let face = self.faces@[f];
                &&& 0 <= f < self.faces@.len()
                &&& face.loop_start.unwrap().0 <= k < face.loop_start.unwrap().0 + face.loop_total
            }
    }

    /// Ids fit in `u32` and every reference points at an existing element.
    pub open spec fn wf(self) -> bool {
        &&& self.topo_wf()
        &&& self.edge_faces_wf(self.faces@.len())
        &&& self.loops_wf(self.faces@.len())
        &&& self.faces_wf()
    }

    pub fn new() -> (m: Self)
        ensures
            m.wf(),
            m.verts@.len() == 0,
            m.edges@.len() == 0,
            m.faces@.len() == 0,
            m.loops@.len() == 0,
            m.name@ == Seq::<char>::empty(),
            m.select_mode == SelectMode::Vertex,
            m.total_select_verts == 0,
            m.total_select_edges == 0,
            m.total_select_faces == 0,
            m.vert_pool.free_view().len() == 0 && m.vert_pool.next_view() == 0,
            m.edge_pool.free_view().len() == 0 && m.edge_pool.next_view() == 0,
            m.face_pool.free_view().len() == 0 && m.face_pool.next_view() == 0,
            m.loop_pool.free_view().len() == 0 && m.loop_pool.next_view() == 0,
    {
        BMesh {
            verts: Vec::new(),
            edges: Vec::new(),
            faces: Vec::new(),
            loops: Vec::new(),
            vert_pool: SlotPool::new(),
            edge_pool: SlotPool::new(),
            face_pool: SlotPool::new(),
            loop_pool: SlotPool::new(),
            name: String::new(),
            select_mode: SelectMode::Vertex,
            total_select_verts: 0,
            total_select_edges: 0,
            total_select_faces: 0,
        }
    }

    pub fn vert(&self, id: HVertId) -> (v: &HVert<G::VertAttrs>)
        requires
            self.vert_ok(id),
        ensures
            *v == self.verts@[id.0 as int],
    {
        &self.verts[id.0 as usize]
    }

    pub fn vert_mut(&mut self, id: HVertId) -> (v: &mut HVert<G::VertAttrs>)
        requires
            old(self).vert_ok(id),
        ensures
            *v == old(self).verts@[id.0 as int],
            final(self).verts@ == old(self).verts@.update(id.0 as int, *final(v)),
            *final(self) == (BMesh { verts: final(self).verts, ..*old(self) }),
    {
        &mut self.verts[id.0 as usize]
    }

    pub fn edge(&self, id: HEdgeId) -> (e: &HEdge)
        requires
            self.edge_ok(id),
        ensures
            *e == self.edges@[id.0 as int],
    {
        &self.edges[id.0 as usize]
    }

    pub fn edge_mut(&mut self, id: HEdgeId) -> (e: &mut HEdge)
        requires
            old(self).edge_ok(id),
        ensures
            *e == old(self).edges@[id.0 as int],
            final(self).edges@ == old(self).edges@.update(id.0 as int, *final(e)),
            *final(self) == (BMesh { edges: final(self).edges, ..*old(self) }),
    {
        &mut self.edges[id.0 as usize]
    }

    pub fn face(&self, id: HFaceId) -> (f: &HFace<G::Normal>)
        requires
            id.0 < self.faces@.len(),
        ensures
            *f == self.faces@[id.0 as int],
    {
        &self.faces[id.0 as usize]
    }

    pub fn face_mut(&mut self, id: HFaceId) -> (f: &mut HFace<G::Normal>)
        requires
            id.0 < old(self).faces@.len(),
        ensures
            *f == old(self).faces@[id.0 as int],
            final(self).faces@ == old(self).faces@.update(id.0 as int, *final(f)),
            *final(self) == (BMesh { faces: final(self).faces, ..*old(self) }),
    {
        &mut self.faces[id.0 as usize]
    }

    pub fn loop_(&self, id: HLoopId) -> (l: &HLoop<G::LoopAttrs>)
        requires
            id.0 < self.loops@.len(),
        ensures
            *l == self.loops@[id.0 as int],
    {
        &self.loops[id.0 as usize]
    }

    pub fn loop_mut(&mut self, id: HLoopId) -> (l: &mut HLoop<G::LoopAttrs>)
        requires
            id.0 < old(self).loops@.len(),
        ensures
            *l == old(self).loops@[id.0 as int],
            final(self).loops@ == old(self).loops@.update(id.0 as int, *final(l)),
            *final(self) == (BMesh { loops: final(self).loops, ..*old(self) }),
    {
        &mut self.loops[id.0 as usize]
    }

    /// Appends an unselected, visible vertex at `position` with no edges.
    pub fn add_vert(&mut self, position: G::Position) -> (id: HVertId)
        requires
            old(self).wf(),
            old(self).verts@.len() < u32::MAX,
        ensures
            final(self).wf(),
            id == HVertId(old(self).verts@.len() as u32),
            final(self).verts@.len() == old(self).verts@.len() + 1,
            final(self).verts@.drop_last() == old(self).verts@,
            final(self).verts@.last().id == id,
            call_ensures(G::vert_attrs, (position,), final(self).verts@.last().attrs),
            final(self).verts@.last().head_edge is None,
            final(self).verts@.last().select == SelectState::Unselected,
            !final(self).verts@.last().hide,
            final(self).edges == old(self).edges,
            final(self).faces == old(self).faces,
            final(self).loops == old(self).loops,
    {
        let id = HVertId(self.verts.len() as u32);
        self.verts.push(HVert {
            id,
            attrs: G::vert_attrs(position),
            head_edge: None,
            select: SelectState::Unselected,
            hide: false,
        });
        proof {
            assert(self.verts@.drop_last() =~= old(self).verts@);
            assert forall|i: int| 0 <= i < self.edges@.len() implies #[trigger] self.vert_ok(self.edges@[i].vert) by {
                assert(old(self).vert_ok(old(self).edges@[i].vert));
            }
            assert forall|i: int| 0 <= i < self.loops@.len() implies #[trigger] self.vert_ok(self.loops@[i].vert) by {
                assert(old(self).vert_ok(old(self).loops@[i].vert));
            }
        }
        id
    }

    /// The edge record that `add_edge` creates.
    pub open spec fn fresh_edge(id: HEdgeId, v0: HVertId) -> HEdge {
        HEdge {
            id,
            vert: v0,
            face: None,
            next: None,
            prev: None,
            radial: None,
            select: SelectState::Unselected,
            hide: false,
            seam: false,
            sharp: false,
        }
    }

    /// Appends an unlinked edge leaving `v0` (the other end, `v1`, is only
    /// known through the face links made later) and makes it `v0`'s first
    /// edge if `v0` had none.
    pub fn add_edge(&mut self, v0: HVertId, v1: HVertId) -> (id: HEdgeId)
        requires
            old(self).topo_wf(),
            old(self).vert_ok(v0),
            old(self).edges@.len() < u32::MAX,
        ensures
            final(self).topo_wf(),
            old(self).wf() ==> final(self).wf(),
            id == HEdgeId(old(self).edges@.len() as u32),
            final(self).edges@ == old(self).edges@.push(Self::fresh_edge(id, v0)),
            final(self).verts@.len() == old(self).verts@.len(),
            forall|i: int|
                0 <= i < old(self).verts@.len() && i != v0.0 ==> #[trigger] final(self).verts@[i]
                    == old(self).verts@[i],
            final(self).verts@[v0.0 as int] == (if old(self).verts@[v0.0 as int].head_edge is None {
                HVert { head_edge: Some(id), ..old(self).verts@[v0.0 as int] }
            } else {
                old(self).verts@[v0.0 as int]
            }),
            final(self).faces == old(self).faces,
            final(self).loops == old(self).loops,
    {
        let id = HEdgeId(self.edges.len() as u32);
        self.edges.push(HEdge {
            id,
            vert: v0,
            face: None,
            next: None,
            prev: None,
            radial: None,
            select: SelectState::Unselected,
            hide: false,
            seam: false,
            sharp: false,
        });
        if self.vert(v0).head_edge.is_none() {
            self.vert_mut(v0).head_edge = Some(id);
        }
        proof {
            assert forall|i: int| 0 <= i < self.verts@.len() implies {
                &&& (#[trigger] self.verts@[i]).id.0 == i
                &&& self.opt_edge_ok(self.verts@[i].head_edge)
            } by {
                assert(old(self).verts_wf());
                assert(old(self).verts@[i].id.0 == i);
            }
            assert forall|i: int| 0 <= i < self.edges@.len() implies {
                let e = #[trigger] self.edges@[i];
                &&& e.id.0 == i
                &&& self.vert_ok(e.vert)
                &&& self.opt_edge_ok(e.next)
                &&& self.opt_edge_ok(e.prev)
                &&& self.opt_edge_ok(e.radial)
            } by {
                if i < old(self).edges@.len() {
                    assert(old(self).edges@[i] == self.edges@[i]);
                }
            }
            if old(self).wf() {
                assert forall|i: int| 0 <= i < self.loops@.len() implies #[trigger] self.edge_ok(self.loops@[i].edge) by {
                    assert(old(self).edge_ok(old(self).loops@[i].edge));
                }
                assert forall|i: int| 0 <= i < self.edges@.len() implies ((#[trigger] self.edges@[i]).face matches Some(f) ==> f.0 < self.faces@.len()) by {
                    if i < old(self).edges@.len() {
                        assert(old(self).edges@[i] == self.edges@[i]);
                    }
                }
            }
        }
        id
    }

    /// The edge after `e` along the `next` links.
    pub open spec fn next_of(self, e: Option<HEdgeId>) -> Option<HEdgeId> {
        match e {
            Some(x) => self.edges@[x.0 as int].next,
            None => None,
        }
    }

    /// The edge reached from `start` after `k` steps along the `next` links.
    pub open spec fn walk(self, start: Option<HEdgeId>, k: nat) -> Option<HEdgeId>
        decreases k,
    {
        if k == 0 {
            start
        } else {
            self.next_of(self.walk(start, (k - 1) as nat))
        }
    }

    /// How many edges the walk from `start` visits, counting from step `k`
    /// with at most `fuel` more edges: it stops at a missing link or when it
    /// comes back to `start`.
    pub open spec fn walk_len(self, start: Option<HEdgeId>, k: nat, fuel: nat) -> nat
        decreases fuel,
    {
        if fuel == 0 || self.walk(start, k) is None {
            0
        } else if self.walk(start, k + 1) == start {
            1
        } else {
            1 + self.walk_len(start, k + 1, (fuel - 1) as nat)
        }
    }

    /// The edges met walking the `next` links from `v`'s first edge, until a
    /// link is missing or the walk is back at the first edge (and, as a walk
    /// that comes back at all comes back before repeating an edge, after at
    /// most as many edges as the mesh has).
    pub open spec fn spec_vert_edges(self, v: HVertId) -> Seq<HEdgeId> {
        let start = self.verts@[v.0 as int].head_edge;
        Seq::new(
            self.walk_len(start, 0, self.edges@.len()),
            |i: int| self.walk(start, i as nat).unwrap(),
        )
    }

    pub proof fn lemma_walk_ok(self, start: Option<HEdgeId>, k: nat)
        requires
            self.topo_wf(),
            self.opt_edge_ok(start),
        ensures
            self.opt_edge_ok(self.walk(start, k)),
        decreases k,
    {
        if k > 0 {
            self.lemma_walk_ok(start, (k - 1) as nat);
        }
    }

    pub proof fn lemma_walk_len_some(self, start: Option<HEdgeId>, k: nat, fuel: nat, i: nat)
        requires
            i < self.walk_len(start, k, fuel),
        ensures
            self.walk(start, k + i) is Some,
        decreases fuel,
    {
        if i > 0 {
            self.lemma_walk_len_some(start, k + 1, (fuel - 1) as nat, (i - 1) as nat);
            assert(k + 1 + (i - 1) == k + i);
        }
    }

    /// Every edge of a vertex's edge walk exists.
    pub proof fn lemma_vert_edges_ok(self, v: HVertId)
        requires
            self.topo_wf(),
            self.vert_ok(v),
        ensures
            forall|i: int|
                0 <= i < self.spec_vert_edges(v).len() ==> self.edge_ok(#[trigger] self.spec_vert_edges(v)[i]),
    {
        let start = self.verts@[v.0 as int].head_edge;
        assert forall|i: int| 0 <= i < self.spec_vert_edges(v).len() implies self.edge_ok(
            #[trigger] self.spec_vert_edges(v)[i],
        ) by {
            self.lemma_walk_len_some(start, 0, self.edges@.len(), i as nat);
            self.lemma_walk_ok(start, i as nat);
        }
    }

    /// Whether `e` runs between `v0` and `v1`, in either direction, judged by
    /// its start vertex and the start vertex of the edge after it.
    pub open spec fn joins(self, e: HEdgeId, v0: HVertId, v1: HVertId) -> bool {
        let edge = self.edges@[e.0 as int];
        let other = self.edges@[edge.next.unwrap_or(e).0 as int].vert;
        (edge.vert == v0 && other == v1) || (edge.vert == v1 && other == v0)
    }

    pub fn vert_edges(&self, vid: HVertId) -> (r: Vec<HEdgeId>)
        requires
            self.topo_wf(),
            self.vert_ok(vid),
        ensures
            r@ == self.spec_vert_edges(vid),
    {
        let mut result: Vec<HEdgeId> = Vec::new();
        let start = self.vert(vid).head_edge;
        let mut e = start;
        let n = self.edges.len();
        let mut count: usize = 0;
        let ghost total = self.walk_len(start, 0, n as nat);
        while count < n
            invariant_except_break
                e == self.walk(start, count as nat),
                total == count + self.walk_len(start, count as nat, (n - count) as nat),
            invariant
                self.topo_wf(),
                self.vert_ok(vid),
                start == self.verts@[vid.0 as int].head_edge,
                n == self.edges@.len(),
                count <= n,
                result@.len() == count,
                forall|i: int| 0 <= i < count ==> #[trigger] result@[i] == self.walk(start, i as nat).unwrap(),
                total == self.walk_len(start, 0, n as nat),
            ensures
                count == total,
            decreases n - count,
        {
            proof {
                self.lemma_walk_ok(start, count as nat);
            }
            match e {
                Some(eid) => {
                    result.push(eid);
                    let edge = self.edge(eid);
                    e = edge.next;
                    count = count + 1;
                    if e == start {
                        break;
                    }
                },
                None => {
                    break;
                },
            }
        }
        assert(result@ =~= self.spec_vert_edges(vid));
        result
    }

    pub fn find_edge(&self, v0: HVertId, v1: HVertId) -> (r: Option<HEdgeId>)
        requires
            self.topo_wf(),
            self.vert_ok(v0),
        ensures
            ({
                let es = self.spec_vert_edges(v0);
                match r {
                    None => forall|i: int| 0 <= i < es.len() ==> !self.joins(#[trigger] es[i], v0, v1),
                    Some(e) => exists|i: int|
                        0 <= i < es.len() && es[i] == e && self.joins(e, v0, v1) && forall|j: int|
                            0 <= j < i ==> !self.joins(#[trigger] es[j], v0, v1),
                }
            }),
    {
        let start = self.vert(v0).head_edge;
        let mut e = start;
        let n = self.edges.len();
        let mut count: usize = 0;
        let ghost total = self.walk_len(start, 0, n as nat);
        let ghost es = self.spec_vert_edges(v0);
        while count < n
            invariant_except_break
                e == self.walk(start, count as nat),
                total == count + self.walk_len(start, count as nat, (n - count) as nat),
            invariant
                self.topo_wf(),
                self.vert_ok(v0),
                start == self.verts@[v0.0 as int].head_edge,
                n == self.edges@.len(),
                count <= n,
                total == self.walk_len(start, 0, n as nat),
                es == self.spec_vert_edges(v0),
                es.len() == total,
                forall|i: int| 0 <= i < count ==> !self.joins(#[trigger] es[i], v0, v1),
            ensures
                count == total,
            decreases n - count,
        {
            proof {
                self.lemma_walk_ok(start, count as nat);
            }
            match e {
                Some(eid) => {
                    let edge = self.edge(eid);
                    proof {
                        assert(es[count as int] == eid);
                        assert(self.opt_edge_ok(edge.next));
                    }
                    if edge.vert == v0 {
                        let next_vert = self.edge(edge.next.unwrap_or(eid)).vert;
                        if next_vert == v1 {
                            return Some(eid);
                        }
                    }
                    if edge.vert == v1 {
                        let next_vert = self.edge(edge.next.unwrap_or(eid)).vert;
                        if next_vert == v0 {
                            return Some(eid);
                        }
                    }
                    e = edge.next;
                    count = count + 1;
                    if e == start {
                        break;
                    }
                },
                None => {
                    break;
                },
            }
        }
        None
    }

    /// The faces of the given edges, in order, skipping edges without a face.
    pub open spec fn faces_of(self, es: Seq<HEdgeId>) -> Seq<HFaceId>
        decreases es.len(),
    {
        if es.len() == 0 {
            Seq::empty()
        } else {
            let rest = self.faces_of(es.drop_last());
            match self.edges@[es.last().0 as int].face {
                Some(f) => rest.push(f),
                None => rest,
            }
        }
    }

    pub fn vert_faces(&self, vid: HVertId) -> (r: Vec<HFaceId>)
        requires
            self.wf(),
            self.vert_ok(vid),
        ensures
            r@ == self.faces_of(self.spec_vert_edges(vid)),
    {
        let es = self.vert_edges(vid);
        proof {
            self.lemma_vert_edges_ok(vid);
        }
        let mut result: Vec<HFaceId> = Vec::new();
        let mut i: usize = 0;
        while i < es.len()
            invariant
                self.wf(),
                es@ == self.spec_vert_edges(vid),
                i <= es@.len(),
                forall|j: int| 0 <= j < es@.len() ==> self.edge_ok(#[trigger] es@[j]),
                result@ == self.faces_of(es@.take(i as int)),
            decreases es@.len() - i,
        {
            proof {
                assert(es@.take(i + 1).drop_last() =~= es@.take(i as int));
            }
            match self.edge(es[i]).face {
                Some(f) => result.push(f),
                None => {},
            }
            i = i + 1;
        }
        proof {
            assert(es@.take(es@.len() as int) =~= es@);
        }
        result
    }

    /// The vertices of a face's corners, in order.
    pub open spec fn spec_face_verts(self, fid: HFaceId) -> Seq<HVertId> {
        let face = self.faces@[fid.0 as int];
        Seq::new(
            face.loop_total as nat,
            |i: int| self.loops@[face.loop_start.unwrap().0 + i].vert,
        )
    }

    /// The edges leaving a face's corners, in order.
    pub open spec fn spec_face_edges(self, fid: HFaceId) -> Seq<HEdgeId> {
        let face = self.faces@[fid.0 as int];
        Seq::new(
            face.loop_total as nat,
            |i: int| self.loops@[face.loop_start.unwrap().0 + i].edge,
        )
    }

    /// Reads the corners from the face's first loop on while the following
    /// loops still belong to the face.
    pub fn face_verts(&self, fid: HFaceId) -> (r: Vec<HVertId>)
        requires
            self.wf(),
            fid.0 < self.faces@.len(),
        ensures
            r@ == self.spec_face_verts(fid),
    {
        let face = self.face(fid);
        let mut result: Vec<HVertId> = Vec::new();
        proof {
            assert(self.faces@[fid.0 as int].id == fid);
        }
        if let Some(start) = face.loop_start {
            let total = face.loop_total;
            let mut lid = start;
            let ghost s = start.0 as int;
            loop
                invariant_except_break
                    lid.0 == s + result@.len(),
                    result@.len() < total,
                invariant
                    self.wf(),
                    fid.0 < self.faces@.len(),
                    face == self.faces@[fid.0 as int],
                    face.loop_start == Some(start),
                    total == face.loop_total,
                    s == start.0,
                    s + total <= self.loops@.len(),
                    result@.len() <= total,
                    forall|i: int| 0 <= i < result@.len() ==> #[trigger] result@[i] == self.loops@[s + i].vert,
                ensures
                    result@.len() == total,
                decreases total - result@.len(),
            {
                let l = self.loop_(lid);
                result.push(l.vert);
                proof {
                    assert(self.loops@[lid.0 as int].id.0 == lid.0);
                }
                if l.id.0 + 1 < self.loops.len() as u32 {
                    lid = HLoopId(l.id.0 + 1);
                } else {
                    break;
                }
                let lf = self.loop_(lid).face;
                proof {
                    let k = lid.0 as int;
                    let g = self.loops@[k].face.0 as int;
                    if result@.len() < total {
                        assert(self.loops@[k].face.0 == fid.0);
                    } else {
                        if g == fid.0 {
                            assert(self.faces@[g].loop_start.unwrap().0 <= k < self.faces@[g].loop_start.unwrap().0
                                + self.faces@[g].loop_total);
                        }
                    }
                }
                if lf != fid {
                    break;
                }
            }
        }
        assert(result@ =~= self.spec_face_verts(fid));
        result
    }

    /// Reads `loop_total` corner edges from the face's first loop on.
    pub fn face_edges(&self, fid: HFaceId) -> (r: Vec<HEdgeId>)
        requires
            self.wf(),
            fid.0 < self.faces@.len(),
        ensures
            r@ == self.spec_face_edges(fid),
    {
        let face = self.face(fid);
        let mut result: Vec<HEdgeId> = Vec::new();
        if let Some(start) = face.loop_start {
            let total = face.loop_total;
            let mut lid = start;
            let ghost s = start.0 as int;
            let mut c: u32 = 0;
            while c < total
                invariant_except_break
                    lid.0 == s + c,
                invariant
                    self.wf(),
                    fid.0 < self.faces@.len(),
                    face == self.faces@[fid.0 as int],
                    face.loop_start == Some(start),
                    total == face.loop_total,
                    s == start.0,
                    s + total <= self.loops@.len(),
                    c <= total,
                    result@.len() == c,
                    forall|i: int| 0 <= i < c ==> #[trigger] result@[i] == self.loops@[s + i].edge,
                ensures
                    result@.len() == total,
                decreases total - c,
            {
                result.push(self.loop_(lid).edge);
                let l = self.loop_(lid);
                proof {
                    assert(self.loops@[lid.0 as int].id.0 == lid.0);
                }
                c = c + 1;
                if self.loop_(lid).id.0 + 1 < self.loops.len() as u32 {
                    lid = HLoopId(l.id.0 + 1);
                } else {
                    break;
                }
            }
        }
        assert(result@ =~= self.spec_face_edges(fid));
        result
    }

    /// Whether `n` is a normal the geometry gives for a face through
    /// `vert_ids`: what its triangle normal returns for the attributes of the
    /// first three vertices, or what its up normal returns for fewer than
    /// three vertices.
    pub open spec fn is_face_normal(self, vert_ids: Seq<HVertId>, n: G::Normal) -> bool {
        if vert_ids.len() < 3 {
            call_ensures(G::up_normal, (), n)
        } else {
            call_ensures(
                G::triangle_normal,
                (
                    &self.verts@[vert_ids[0].0 as int].attrs,
                    &self.verts@[vert_ids[1].0 as int].attrs,
                    &self.verts@[vert_ids[2].0 as int].attrs,
                ),
                n,
            )
        }
    }

    /// The normal of the triangle through the first three given vertices, or
    /// the up normal for fewer than three.
    pub fn calculate_face_normal(&self, vert_ids: &[HVertId]) -> (n: G::Normal)
        requires
            vert_ids@.len() >= 3 ==> {
                &&& self.vert_ok(vert_ids@[0])
                &&& self.vert_ok(vert_ids@[1])
                &&& self.vert_ok(vert_ids@[2])
            },
        ensures
            self.is_face_normal(vert_ids@, n),
    {
        if vert_ids.len() < 3 {
            return G::up_normal();
        }
        let v0 = &self.vert(vert_ids[0]).attrs;
        let v1 = &self.vert(vert_ids[1]).attrs;
        let v2 = &self.vert(vert_ids[2]).attrs;
        G::triangle_normal(v0, v1, v2)
    }

}

} // verus!
