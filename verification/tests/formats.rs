use lili_modeler::io::bytes::{pad4, push_le32, read_le32};
use lili_modeler::io::exporters::{glb_container, write_obj_face, write_stl, StlFacet};
use lili_modeler::io::importers::{
    decode_data_uri, import_obj, is_whitespace, load_buffers, parse_obj, parse_stl, triangles_from_indices,
    BufferSource, ObjObject, ObjVertex,
};
use lili_modeler::io::obj_export::{write_obj, ObjExportObject, ObjTexcoord};

fn bits(v: [f32; 3]) -> [u32; 3] {
    [v[0].to_bits(), v[1].to_bits(), v[2].to_bits()]
}

fn text(cs: &[char]) -> String {
    cs.iter().collect()
}

#[test]
fn le32_and_padding() {
    let mut out = Vec::new();
    push_le32(&mut out, 0x0403_0201);
    assert_eq!(out, vec![1, 2, 3, 4]);
    assert_eq!(read_le32(&out, 0), 0x0403_0201);
    assert_eq!(pad4(0), 0);
    assert_eq!(pad4(1), 4);
    assert_eq!(pad4(4), 4);
    assert_eq!(pad4(5), 8);
}

#[test]
fn stl_write_then_read_gives_the_triangles() {
    let facets = vec![
        StlFacet { normal: bits([0.0, 0.0, 1.0]), corners: vec![bits([0.0, 0.0, 0.0]), bits([1.0, 0.0, 0.0]), bits([0.0, 1.0, 0.0])] },
        StlFacet { normal: bits([0.0, 1.0, 0.0]), corners: vec![bits([2.0, 0.5, 0.0]), bits([1.0, -3.0, 0.0]), bits([0.0, 1.0, 7.5])] },
    ];
    let bytes = write_stl(&facets);
    assert_eq!(bytes.len(), 84 + 2 * 50);
    assert_eq!(&bytes[80..84], &[2, 0, 0, 0]);
    assert!(bytes[..80].iter().all(|b| *b == 0));
    let tris = parse_stl(&bytes);
    assert_eq!(tris.len(), 2);
    for (t, f) in tris.iter().zip(facets.iter()) {
        assert_eq!(t.normal, f.normal);
        assert_eq!(t.corners.to_vec(), f.corners);
    }
    assert_eq!(f32::from_bits(tris[1].corners[2][2]), 7.5);
}

#[test]
fn stl_polygon_counts_its_fan_triangles() {
    let quad = StlFacet { normal: [7; 3], corners: vec![[1; 3], [2; 3], [3; 3], [4; 3]] };
    let line = StlFacet { normal: [0; 3], corners: vec![[5; 3], [6; 3]] };
    let bytes = write_stl(&vec![quad, line]);
    assert_eq!(&bytes[80..84], &[2, 0, 0, 0]);
    assert_eq!(bytes.len(), 84 + 2 * 50);
    let tris = parse_stl(&bytes);
    assert_eq!(tris.len(), 2);
    assert_eq!(tris[0].normal, [7; 3]);
    assert_eq!(tris[0].corners, [[1; 3], [2; 3], [3; 3]]);
    assert_eq!(tris[1].corners, [[1; 3], [3; 3], [4; 3]]);
    assert_eq!(&bytes[84 + 48..84 + 50], &[0, 0]);
}

#[test]
fn stl_read_stops_at_the_last_whole_record() {
    let mut data = vec![0u8; 80];
    data.extend_from_slice(&5u32.to_le_bytes());
    data.extend(std::iter::repeat(9u8).take(50 + 49));
    let tris = parse_stl(&data);
    assert_eq!(tris.len(), 1);
    assert_eq!(tris[0].normal, [0x0909_0909; 3]);
    assert!(parse_stl(&[0u8; 83]).is_empty());
    let mut zero = vec![0u8; 84];
    zero.extend_from_slice(&[1u8; 50]);
    assert!(parse_stl(&zero).is_empty());
}

#[test]
fn glb_container_layout() {
    let glb = glb_container(b"{}", &[1, 2, 3, 4, 5]);
    let mut expect = vec![0x67, 0x6C, 0x54, 0x46, 2, 0, 0, 0];
    expect.extend_from_slice(&(28u32 + 4 + 8).to_le_bytes());
    expect.extend_from_slice(&4u32.to_le_bytes());
    expect.extend_from_slice(b"JSON");
    expect.extend_from_slice(b"{}");
    expect.extend_from_slice(&[0, 0]);
    expect.extend_from_slice(&8u32.to_le_bytes());
    expect.extend_from_slice(&[0x42, 0x49, 0x4E, 0x00]);
    expect.extend_from_slice(&[1, 2, 3, 4, 5, 0, 0, 0]);
    assert_eq!(glb, expect);
    assert_eq!(read_le32(&glb, 8) as usize, glb.len());
    assert_eq!(&glb[16..20], b"JSON");
}

#[test]
fn obj_single_object() {
    let src = "# a triangle\no Tri\nv 1 2 3\nv 4.5 5 6\nv 7 8 9e1\nvn 0 0 1\nvt 0 1\nf 1 2 3\n";
    let objs = import_obj(src.as_bytes()).unwrap();
    assert_eq!(objs.len(), 1);
    let o = &objs[0];
    assert_eq!(text(&o.name), "Tri");
    assert_eq!(o.vertices.len(), 3);
    assert_eq!(text(&o.vertices[1].x), "4.5");
    assert_eq!(text(&o.vertices[2].z), "9e1");
    assert_eq!(o.faces, vec![vec![0, 1, 2]]);
}

#[test]
fn obj_face_words_and_negative_indices() {
    let src = "v 0 0 0\r\nv 1 0 0\r\nv 1 1 0\r\nv 0 1 0\r\n  f 1/1/1 2//2 3/3 4\nf -4 -3 -2\nf 1 2 9 0 -9 +3\nf 1 2\nf 1 2 x\n";
    let objs = import_obj(src.as_bytes()).unwrap();
    assert_eq!(objs.len(), 1);
    assert_eq!(text(&objs[0].name), "ImportedOBJ");
    assert_eq!(objs[0].faces, vec![vec![0, 1, 2, 3], vec![0, 1, 2], vec![0, 1, 2]]);
}

#[test]
fn obj_objects_and_names() {
    let src = "o First\nv 0 0 0\nv 1 0 0\nv 0 1 0\nf 1 2 3\ng\nv 1 1 1\nv 2 2 2\no Third\no\nv 3 3 3\nv 1\n";
    let objs = import_obj(src.as_bytes()).unwrap();
    assert_eq!(objs.len(), 3);
    assert_eq!(text(&objs[0].name), "First");
    assert_eq!(objs[0].faces.len(), 1);
    assert_eq!(text(&objs[1].name), "First");
    assert_eq!(objs[1].vertices.len(), 2);
    assert_eq!(text(&objs[2].name), "Third");
    assert_eq!(objs[2].vertices.len(), 1);
}

#[test]
fn obj_index_overflow_and_empty_input() {
    let src = "v 0 0 0\nv 0 0 0\nv 0 0 0\nf 99999999999999999999 1 2 3\nf -9223372036854775808 1 2 3\n";
    let objs = import_obj(src.as_bytes()).unwrap();
    assert_eq!(objs[0].faces, vec![vec![0, 1, 2], vec![0, 1, 2]]);
    assert!(import_obj(b"").unwrap().is_empty());
    assert!(import_obj(b"# nothing\n\n   \n").unwrap().is_empty());
}

#[test]
fn obj_unicode_white_space_and_utf8() {
    let src = "o\u{3000}Ünïcode\u{00A0}x\nv\u{2003}1 2 3\n";
    let objs = import_obj(src.as_bytes()).unwrap();
    assert_eq!(text(&objs[0].name), "Ünïcode");
    assert_eq!(text(&objs[0].vertices[0].x), "1");
    assert!(import_obj(&[0x76, 0x20, 0xFF, 0x0A]).is_err());
    assert!(import_obj(&[0xC0, 0x80]).is_err());
    assert!(is_whitespace('\u{85}'));
    assert!(!is_whitespace('\u{200B}'));
}

#[test]
fn parse_obj_on_chars() {
    let cs: Vec<char> = "v a b c\nv d e f\nv g h i\nf 3 2 1".chars().collect();
    let objs: Vec<ObjObject> = parse_obj(&cs);
    assert_eq!(objs[0].faces, vec![vec![2, 1, 0]]);
}

#[test]
fn data_uris() {
    assert_eq!(decode_data_uri(b"data:application/octet-stream;base64,AAEC"), Some(vec![0, 1, 2]));
    assert_eq!(decode_data_uri(b"data:,AAEC,ignored"), Some(vec![0, 1, 2]));
    assert_eq!(decode_data_uri(b"data:nocomma"), Some(vec![]));
    assert_eq!(decode_data_uri(b"data:x;base64,%%%"), None);
    assert_eq!(decode_data_uri(b"buffer.bin"), None);
    assert_eq!(decode_data_uri(b"DATA:,AAEC"), None);
}

#[test]
fn buffers_keep_only_decodable_data_uris() {
    let sources = vec![
        BufferSource::Uri(b"data:;base64,AQID".to_vec()),
        BufferSource::Bin,
        BufferSource::Uri(b"file.bin".to_vec()),
        BufferSource::Uri(b"data:;base64,!!".to_vec()),
        BufferSource::Uri(b"data:;base64,BA==".to_vec()),
    ];
    assert_eq!(load_buffers(&sources), vec![vec![1, 2, 3], vec![4]]);
}

#[test]
fn index_triangles() {
    assert_eq!(triangles_from_indices(&vec![0, 1, 2, 2, 3, 0, 7]), vec![[0, 1, 2], [2, 3, 0]]);
    assert!(triangles_from_indices(&vec![1, 2]).is_empty());
}

#[test]
fn obj_face_indices_are_rebased_per_object() {
    let src = "o A\nv 0 0 0\nv 1 0 0\nv 0 1 0\nf 1 2 3\no B\nv 5 5 5\nv 6 6 6\nv 7 7 7\nf 4 5 6\nf -1 -2 -3\nf 1 4 5 6\nf 1 2 4\n";
    let objs = import_obj(src.as_bytes()).unwrap();
    assert_eq!(objs.len(), 2);
    assert_eq!(objs[0].faces, vec![vec![0, 1, 2]]);
    assert_eq!(objs[1].faces, vec![vec![0, 1, 2], vec![2, 1, 0], vec![0, 1, 2]]);
    for o in &objs {
        assert!(o.faces.iter().flatten().all(|&i| (i as usize) < o.vertices.len()));
    }
}

#[test]
fn obj_face_lines() {
    let plain: String = write_obj_face(&[0, 1, 2], 0, false, false).iter().collect();
    assert_eq!(plain, "f 1 2 3 \n");
    let with_normals: String = write_obj_face(&[0, 9], 3, true, true).iter().collect();
    assert_eq!(with_normals, "f 4/4/4 13/13/13 \n");
    let normals_only: String = write_obj_face(&[5], 0, false, true).iter().collect();
    assert_eq!(normals_only, "f 6//6 \n");
    let uv_only: String = write_obj_face(&[5], 0, true, false).iter().collect();
    assert_eq!(uv_only, "f 6 \n");
}

fn cs(s: &str) -> Vec<char> {
    s.chars().collect()
}

fn vtx(x: &str, y: &str, z: &str) -> ObjVertex {
    ObjVertex { x: cs(x), y: cs(y), z: cs(z) }
}

fn export_objects() -> Vec<ObjExportObject> {
    vec![
        ObjExportObject {
            name: cs("Tri"),
            vertices: vec![vtx("0", "0", "0"), vtx("1", "0", "0"), vtx("0", "1", "0")],
            texcoords: vec![ObjTexcoord { u: cs("0"), v: cs("0") }],
            normals: vec![vtx("0", "0", "1")],
            faces: vec![vec![0, 1, 2]],
        },
        ObjExportObject {
            name: cs("Quad"),
            vertices: vec![vtx("2", "0", "0"), vtx("3", "0", "0"), vtx("3", "1", "0"), vtx("2", "1", "-0.5")],
            texcoords: vec![],
            normals: vec![],
            faces: vec![vec![0, 1, 2, 3], vec![3, 2, 1]],
        },
    ]
}

#[test]
fn obj_export_text_layout() {
    let objs = vec![ObjExportObject {
        name: cs("t"),
        vertices: vec![vtx("0", "0", "0"), vtx("1", "0", "0"), vtx("0", "1", "0")],
        texcoords: vec![],
        normals: vec![vtx("0", "0", "1"), vtx("0", "0", "1"), vtx("0", "0", "1")],
        faces: vec![vec![0, 1, 2]],
    }];
    let out = text(&write_obj(&objs, false, true));
    assert_eq!(
        out,
        "# Exported by Lili Modeler\no t\nv 0 0 0\nv 1 0 0\nv 0 1 0\nvn 0 0 1\nvn 0 0 1\nvn 0 0 1\nf 1//1 2//2 3//3 \n"
    );
    assert_eq!(out.lines().last().unwrap().trim_end(), "f 1//1 2//2 3//3");
}

#[test]
fn obj_export_reads_back() {
    for (uv, normals) in [(false, false), (true, true), (false, true), (true, false)] {
        let objs = export_objects();
        let out = text(&write_obj(&objs, uv, normals));
        let back = import_obj(out.as_bytes()).unwrap();
        assert_eq!(back.len(), 2);
        for (a, b) in objs.iter().zip(back.iter()) {
            assert_eq!(a.name, b.name);
            assert_eq!(a.faces, b.faces);
            assert_eq!(a.vertices.len(), b.vertices.len());
            for (v, w) in a.vertices.iter().zip(b.vertices.iter()) {
                assert_eq!((&v.x, &v.y, &v.z), (&w.x, &w.y, &w.z));
            }
        }
    }
}

#[test]
fn obj_export_numbers_faces_over_the_file() {
    let out = text(&write_obj(&export_objects(), true, true));
    assert!(out.contains("\no Quad\nv 2 0 0\n"));
    assert!(out.contains("f 4/4/4 5/5/5 6/6/6 7/7/7 \n"));
    assert!(out.contains("f 7/7/7 6/6/6 5/5/5 \n"));
    assert!(out.contains("vt 0 0\nvn 0 0 1\nf 1/1/1 2/2/2 3/3/3 \n"));
}
