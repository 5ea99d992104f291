use lili_modeler::mesh::primitives::{cone_faces, cylinder_faces, sphere_faces, torus_faces, torus_knot_faces};

fn max_index(faces: &[Vec<u32>]) -> u32 {
    faces.iter().flatten().copied().max().unwrap()
}

#[test]
fn sphere_faces_fan_bands_and_fan() {
    let f = sphere_faces(3);
    // 3 + 1 * 3 + 3 faces over 2 + 2 * 3 vertices.
    assert_eq!(f.len(), 9);
    assert_eq!(f[0], vec![0, 2, 1]);
    assert_eq!(f[2], vec![0, 1, 3]);
    assert_eq!(f[3], vec![1, 2, 5, 4]);
    assert_eq!(f[5], vec![3, 1, 4, 6]);
    assert_eq!(f[6], vec![4, 5, 7]);
    assert_eq!(f[8], vec![6, 4, 7]);
    assert_eq!(max_index(&f), 7);
    assert_eq!(sphere_faces(0), f);
    let g = sphere_faces(8);
    assert_eq!(g.len(), 8 + 6 * 8 + 8);
    assert_eq!(max_index(&g), 2 + 7 * 8 - 1);
}

#[test]
fn cylinder_and_cone_faces() {
    let c = cylinder_faces(4);
    assert_eq!(c.len(), 12);
    assert_eq!(c[3], vec![6, 0, 1, 7]);
    assert_eq!(c[4], vec![8, 0, 2]);
    assert_eq!(c[11], vec![9, 1, 7]);
    assert_eq!(max_index(&c), 9);
    let k = cone_faces(2);
    assert_eq!(k.len(), 6);
    assert_eq!(k[2], vec![0, 3, 1]);
    assert_eq!(k[3], vec![4, 2, 1]);
    assert_eq!(max_index(&k), 4);
}

#[test]
fn torus_faces_wrap_around() {
    let t = torus_faces(4);
    assert_eq!(t.len(), 16);
    assert_eq!(t[0], vec![0, 1, 5, 4]);
    assert_eq!(t[15], vec![15, 12, 0, 3]);
    assert_eq!(torus_faces(1), t);
    let k = torus_knot_faces(16);
    assert_eq!(k.len(), 16 * 8);
    assert_eq!(k[7], vec![7, 0, 8, 15]);
    assert_eq!(max_index(&k), 127);
}
