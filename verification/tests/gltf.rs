use base64::Engine;
use lili_modeler::io::gltf_export::{gltf_glb, GltfExportMesh};
use lili_modeler::io::gltf_import::gltf_mesh_data;

fn document() -> String {
    let mut bin: Vec<u8> = Vec::new();
    for p in [[0.0f32, 0.0, 0.0], [1.0, 0.0, 0.0], [0.0, 1.0, 0.0]] {
        for c in p {
            bin.extend_from_slice(&c.to_le_bytes());
        }
    }
    for i in [0u32, 1, 2] {
        bin.extend_from_slice(&i.to_le_bytes());
    }
    let uri = format!("data:application/octet-stream;base64,{}", base64::engine::general_purpose::STANDARD.encode(&bin));
    let mut doc = String::new();
    doc.push_str("{\"asset\":{\"version\":\"2.0\"},");
    doc.push_str(&format!("\"buffers\":[{{\"byteLength\":48,\"uri\":\"{}\"}}],", uri));
    doc.push_str("\"bufferViews\":[{\"buffer\":0,\"byteOffset\":0,\"byteLength\":36},{\"buffer\":0,\"byteOffset\":36,\"byteLength\":12}],");
    doc.push_str("\"accessors\":[{\"bufferView\":0,\"componentType\":5126,\"count\":3,\"type\":\"VEC3\",\"min\":[0,0,0],\"max\":[1,1,0]},");
    doc.push_str("{\"bufferView\":1,\"componentType\":5125,\"count\":3,\"type\":\"SCALAR\"}],");
    doc.push_str("\"meshes\":[{\"name\":\"Tri\",\"primitives\":[{\"attributes\":{\"POSITION\":0},\"indices\":1}]},");
    doc.push_str("{\"primitives\":[{\"attributes\":{\"POSITION\":0}},{\"attributes\":{\"POSITION\":0},\"indices\":1}]}]}");
    doc
}

fn bits(p: [f32; 3]) -> [u32; 3] {
    [p[0].to_bits(), p[1].to_bits(), p[2].to_bits()]
}

#[test]
fn gltf_meshes_from_data_uri_buffers() {
    let doc = document();
    let meshes = gltf_mesh_data(doc.as_bytes()).unwrap();
    assert_eq!(meshes.len(), 2);
    let name: String = meshes[0].name.iter().collect();
    assert_eq!(name, "Tri");
    assert_eq!(meshes[0].positions, vec![bits([0.0, 0.0, 0.0]), bits([1.0, 0.0, 0.0]), bits([0.0, 1.0, 0.0])]);
    assert_eq!(meshes[0].faces, vec![[0, 1, 2]]);
    let name: String = meshes[1].name.iter().collect();
    assert_eq!(name, "ImportedGLTF");
    assert_eq!(meshes[1].positions.len(), 6);
    assert_eq!(meshes[1].faces, vec![[0, 1, 2]]);
}

#[test]
fn gltf_rejects_what_is_not_a_document() {
    assert!(gltf_mesh_data(b"not gltf").is_err());
}

#[test]
fn gltf_refuses_documents_the_reader_cannot_take() {
    let missing = "{\"asset\":{\"version\":\"2.0\"},\"meshes\":[{\"primitives\":[{\"attributes\":{\"POSITION\":7}}]}]}";
    assert!(gltf_mesh_data(missing.as_bytes()).is_err());
    let float_indices = document().replace("\"componentType\":5125", "\"componentType\":5126");
    assert!(gltf_mesh_data(float_indices.as_bytes()).is_err());
    let mut short_glb = b"glTF".to_vec();
    short_glb.extend_from_slice(&2u32.to_le_bytes());
    short_glb.extend_from_slice(&4u32.to_le_bytes());
    assert!(gltf_mesh_data(&short_glb).is_err());
}

#[test]
fn gltf_export_layout() {
    let one = |x: f32| x.to_bits();
    let mesh = GltfExportMesh {
        name: "Tri \"q\"".chars().collect(),
        positions: vec![[0, 0, 0], [one(1.0), 0, 0], [0, one(1.0), 0]],
        normals: vec![[0, 0, one(1.0)]; 3],
        faces: vec![vec![0, 1, 2]],
        min_text: "[0.0,0.0,0.0]".chars().collect(),
        max_text: "[1.0,1.0,0.0]".chars().collect(),
    };
    let quad = GltfExportMesh {
        name: "Q".chars().collect(),
        positions: vec![[0, 0, 0]; 4],
        normals: vec![[0, 0, 0]; 4],
        faces: vec![vec![0, 1, 2, 3]],
        min_text: "[0.0,0.0,0.0]".chars().collect(),
        max_text: "[0.0,0.0,0.0]".chars().collect(),
    };
    let glb = gltf_glb(&vec![mesh, quad]).unwrap();
    assert_eq!(&glb[0..4], b"glTF");
    assert_eq!(u32::from_le_bytes([glb[8], glb[9], glb[10], glb[11]]) as usize, glb.len());
    assert_eq!(&glb[16..20], b"JSON");
    let json_len = u32::from_le_bytes([glb[12], glb[13], glb[14], glb[15]]) as usize;
    let mut text = &glb[20..20 + json_len];
    while text.last() == Some(&0) {
        text = &text[..text.len() - 1];
    }
    let json: serde_json::Value = serde_json::from_slice(text).unwrap();
    assert_eq!(json["asset"]["version"], "2.0");
    assert_eq!(json["scenes"][0]["nodes"][0], 0);
    assert_eq!(json["scenes"][0]["nodes"][1], 1);
    assert_eq!(json["nodes"][1]["mesh"], 1);
    assert_eq!(json["meshes"][0]["name"], "Tri \"q\"");
    assert_eq!(json["meshes"][1]["primitives"][0]["indices"], 5);
    assert_eq!(json["accessors"][2]["count"], 3);
    assert_eq!(json["accessors"][5]["count"], 6);
    assert_eq!(json["bufferViews"][1]["byteOffset"], 36);
    assert_eq!(json["bufferViews"][3]["byteOffset"], 36 + 36 + 12);
    assert_eq!(json["buffers"][0]["byteLength"], 84 + 48 + 48 + 24);
    let bin = &glb[20 + json_len + 8..];
    assert_eq!(&bin[12..16], &one(1.0).to_le_bytes());
    assert_eq!(&bin[36 + 8..36 + 12], &one(1.0).to_le_bytes());
    let idx: Vec<u32> = (0..6).map(|k| u32::from_le_bytes(bin[180 + 4 * k..184 + 4 * k].try_into().unwrap())).collect();
    assert_eq!(idx, vec![3, 4, 5, 3, 5, 6]);
}
