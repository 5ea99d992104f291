use lili_modeler::mesh::bmesh::{BMesh, BMeshGeometry, HEdgeId, HFaceId, HVertId, SelectState as BSelect};
use lili_modeler::mesh::{Mesh, MeshGeometry, SelectState};

fn sub(a: [f32; 3], b: [f32; 3]) -> [f32; 3] {
    [a[0] - b[0], a[1] - b[1], a[2] - b[2]]
}

fn cross(a: [f32; 3], b: [f32; 3]) -> [f32; 3] {
    [a[1] * b[2] - a[2] * b[1], a[2] * b[0] - a[0] * b[2], a[0] * b[1] - a[1] * b[0]]
}

struct Geo;

impl MeshGeometry for Geo {
    type Position = [f32; 3];
    type VertAttrs = [f32; 3];
    type Normal = [f32; 3];

    fn vert_attrs(position: [f32; 3]) -> [f32; 3] {
        position
    }

    fn position_of(vert: &[f32; 3]) -> [f32; 3] {
        *vert
    }

    fn triangle_normal(a: &[f32; 3], b: &[f32; 3], c: &[f32; 3]) -> [f32; 3] {
        cross(sub(*b, *a), sub(*c, *a))
    }

    fn up_normal() -> [f32; 3] {
        [0.0, 1.0, 0.0]
    }
}

impl BMeshGeometry for Geo {
    type Position = [f32; 3];
    type VertAttrs = [f32; 3];
    type Normal = [f32; 3];
    type LoopAttrs = ();

    fn vert_attrs(position: [f32; 3]) -> [f32; 3] {
        position
    }

    fn loop_attrs(_vert: &[f32; 3]) {}

    fn triangle_normal(a: &[f32; 3], b: &[f32; 3], c: &[f32; 3]) -> [f32; 3] {
        cross(sub(*b, *a), sub(*c, *a))
    }

    fn up_normal() -> [f32; 3] {
        [0.0, 1.0, 0.0]
    }

    fn negated_normal(n: &[f32; 3]) -> [f32; 3] {
        [-n[0], -n[1], -n[2]]
    }

    type Offset = [f32; 3];

    fn offset_position(v: &[f32; 3], off: &[f32; 3]) -> [f32; 3] {
        [v[0] + off[0], v[1] + off[1], v[2] + off[2]]
    }
}

fn quad_mesh() -> Mesh<Geo> {
    let mut m: Mesh<Geo> = Mesh::new();
    for p in [[0.0, 0.0, 0.0], [1.0, 0.0, 0.0], [1.0, 1.0, 0.0], [0.0, 1.0, 0.0], [2.0, 0.0, 0.0]] {
        m.add_vertex(p);
    }
    m.add_face(vec![0, 1, 2, 3]);
    m.add_face(vec![1, 4, 2]);
    m
}

#[test]
fn mesh_index_buffer_fans_faces() {
    let m = quad_mesh();
    assert_eq!(m.faces[0].normal, [0.0, 0.0, 1.0]);
    assert_eq!(m.faces[1].select, SelectState::Unselected);
    assert_eq!(m.to_index_buffer(), vec![0, 1, 2, 0, 2, 3, 1, 4, 2]);
    assert_eq!(m.triangle_count(), 3);
    assert_eq!(m.triangle_indices().len(), 3 * m.triangle_count() as usize);
}

#[test]
fn mesh_edges_and_short_faces() {
    let mut m: Mesh<Geo> = Mesh::new();
    m.add_vertex([0.0, 0.0, 0.0]);
    assert_eq!(m.add_edge(0, 0), 0);
    assert_eq!(m.edges[0].vert_ids, [0, 0]);
    assert_eq!(m.add_face(vec![0]), 0);
    assert_eq!(m.faces[0].normal, [0.0, 1.0, 0.0]);
    assert!(m.triangle_indices().is_empty());
}

#[test]
fn join_shifts_indices() {
    let mut a = quad_mesh();
    let b = quad_mesh();
    a.append_mesh(&b);
    assert_eq!(a.vertices.len(), 10);
    assert_eq!(a.faces.len(), 4);
    assert_eq!(a.faces[2].vertex_ids, vec![5, 6, 7, 8]);
    assert_eq!(a.faces[3].vertex_ids, vec![6, 9, 7]);
    for v in 0..5 {
        assert_eq!(a.vertices[5 + v].attrs, b.vertices[v].attrs);
    }
    assert_eq!(a.faces[2].normal, b.faces[0].normal);
}

#[test]
fn bmesh_first_triangle() {
    let mut m: BMesh<Geo> = BMesh::new();
    let a = m.add_vert([0.0, 0.0, 0.0]);
    let b = m.add_vert([1.0, 0.0, 0.0]);
    let c = m.add_vert([0.0, 1.0, 0.0]);
    assert_eq!(m.verts[1].attrs, [1.0, 0.0, 0.0]);
    let f = m.add_face(&[a, b, c]);
    assert_eq!(f, HFaceId(0));
    assert_eq!(m.face_verts(f), vec![a, b, c]);
    assert_eq!(m.faces[0].loop_total, 3);
    assert_eq!(m.faces[0].normal, [0.0, 0.0, 1.0]);
    assert_eq!(m.loops.len(), 3);
    assert_eq!(m.face_count(), 1);
    assert_eq!(m.edge_count(), 3);
}

#[test]
fn separate_keeps_faces_inside_the_selection() {
    let m = quad_mesh();
    let s = m.separated(&[4, 2, 1]);
    assert_eq!(s.vertices.len(), 3);
    assert_eq!(s.vertices[0].attrs, [2.0, 0.0, 0.0]);
    assert_eq!(s.faces.len(), 1);
    assert_eq!(s.faces[0].vertex_ids, vec![2, 0, 1]);
}

#[test]
fn triangulated_mesh() {
    let m = quad_mesh();
    let t = m.triangulated();
    let faces: Vec<Vec<u32>> = t.faces.iter().map(|f| f.vertex_ids.clone()).collect();
    assert_eq!(faces, vec![vec![0, 1, 2], vec![0, 2, 3], vec![1, 4, 2]]);
}

fn bquad() -> BMesh<Geo> {
    let mut b: BMesh<Geo> = BMesh::new();
    let v: Vec<HVertId> =
        [[0.0, 0.0, 0.0], [1.0, 0.0, 0.0], [1.0, 1.0, 0.0], [0.0, 1.0, 0.0]].iter().map(|p| b.add_vert(*p)).collect();
    b.add_face(&v);
    b
}

#[test]
fn bmesh_face_topology() {
    let b = bquad();
    assert_eq!(b.verts.len(), 4);
    assert_eq!(b.edges.len(), 4);
    assert_eq!(b.loops.len(), 4);
    assert_eq!(b.face_verts(HFaceId(0)), vec![HVertId(0), HVertId(1), HVertId(2), HVertId(3)]);
    assert_eq!(b.face_edges(HFaceId(0)).len(), 4);
    assert_eq!(b.find_edge(HVertId(1), HVertId(2)), Some(HEdgeId(1)));
    assert_eq!(b.find_edge(HVertId(0), HVertId(2)), None);
    assert_eq!(b.vert_faces(HVertId(2)), vec![HFaceId(0); 4]);
    assert_eq!(b.faces[0].normal, [0.0, 0.0, 1.0]);
    assert_eq!(b.vertex_count(), 4);
    assert_eq!(b.face_count(), 1);
}

#[test]
fn bmesh_shared_edge_is_reused() {
    let mut b = bquad();
    let v4 = b.add_vert([2.0, 0.0, 0.0]);
    let edges_before = b.edges.len();
    b.add_face(&[HVertId(1), v4, HVertId(2)]);
    assert_eq!(b.edges.len(), edges_before + 2);
    assert_eq!(b.face_verts(HFaceId(1)), vec![HVertId(1), v4, HVertId(2)]);
}

#[test]
fn bmesh_triangulate_and_flip() {
    let mut b = bquad();
    b.triangulate();
    assert!(b.faces[0].hide);
    assert_eq!(b.faces.len(), 3);
    assert_eq!(b.face_verts(HFaceId(1)), vec![HVertId(0), HVertId(1), HVertId(2)]);
    assert_eq!(b.face_verts(HFaceId(2)), vec![HVertId(0), HVertId(2), HVertId(3)]);
    let mut f = bquad();
    f.flip_faces();
    assert_eq!(f.face_verts(HFaceId(0)), vec![HVertId(3), HVertId(2), HVertId(1), HVertId(0)]);
    assert_eq!(f.faces[0].normal, [0.0, 0.0, -1.0]);
}

#[test]
fn bmesh_hide_and_select() {
    let mut b = bquad();
    b.dissolve_verts(&[HVertId(3)]);
    b.dissolve_edges(&[HEdgeId(0)]);
    b.dissolve_faces(&[HFaceId(0)]);
    assert!(b.verts[3].hide && b.edges[0].hide && b.faces[0].hide);
    assert_eq!(b.vertex_count(), 3);
    assert_eq!(b.face_count(), 0);
    b.verts[1].select = BSelect::Select;
    assert!(b.verts[1].select.is_selected());
    assert!(!BSelect::default().is_selected());
    let hole = b.fill_hole(&[HEdgeId(0), HEdgeId(1)]);
    assert!(hole.is_none());
    let filled = b.fill_hole(&[HEdgeId(0), HEdgeId(1), HEdgeId(2)]);
    assert_eq!(filled, Some(HFaceId(1)));
    assert_eq!(b.face_verts(HFaceId(1)), vec![HVertId(0), HVertId(1), HVertId(2)]);
}

#[test]
fn bmesh_extrude_quad() {
    let mut b = bquad();
    let r = b.extrude_face_region(&[HFaceId(0)], &[0.0, 0.0, 1.0]);
    assert_eq!(r, vec![HFaceId(1)]);
    assert_eq!(b.verts.len(), 8);
    assert_eq!(b.verts[6].attrs, [1.0, 1.0, 1.0]);
    assert_eq!(b.faces.len(), 6);
    assert_eq!(b.face_verts(HFaceId(1)), vec![HVertId(4), HVertId(5), HVertId(6), HVertId(7)]);
    assert_eq!(b.face_verts(HFaceId(2)), vec![HVertId(0), HVertId(4), HVertId(5), HVertId(1)]);
    assert_eq!(b.face_verts(HFaceId(5)), vec![HVertId(3), HVertId(7), HVertId(4), HVertId(0)]);
}
