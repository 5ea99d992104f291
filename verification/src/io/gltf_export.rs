//! Writing meshes as a binary glTF (GLB) file: the JSON document with its
//! buffer views, accessors, meshes and nodes, and the binary chunk with each
//! mesh's positions, normals and triangle indices, one block after another.
use vstd::prelude::*;
use super::bytes::{le32, padded4, pad4, push_le32};
use super::exporters::{coords_bytes, glb_bytes, glb_container};
use crate::text::{decimal, push_decimal};

verus! {

/// A mesh to export: its name, the bit patterns of its vertices' positions
/// and normals (already scaled or flipped), its faces as vertex indices, and
/// the JSON text of its position bounds (three numbers in brackets).
pub struct GltfExportMesh {
    pub name: Vec<char>,
    pub positions: Vec<[u32; 3]>,
    pub normals: Vec<[u32; 3]>,
    pub faces: Vec<Vec<u32>>,
    pub min_text: Vec<char>,
    pub max_text: Vec<char>,
}

/// What `serde_json::to_vec` writes for a string: the JSON string literal,
/// quoted and escaped.
pub uninterp spec fn json_quoted(name: Seq<char>) -> Seq<u8>;

/// The JSON string literal of `name`, written by `serde_json::to_vec` (see
/// [`json_quoted`]). Serializing a `String` cannot fail.
#[verifier::external_body]
fn json_string_bytes(name: &Vec<char>) -> (r: Vec<u8>)
    ensures
        r@ == json_quoted(name@),
{
    let s: String = name.iter().collect();
    serde_json::to_vec(&s).unwrap_or_default()
}

/// The bytes of ASCII text, one per character.
pub open spec fn tb(s: Seq<char>) -> Seq<u8> {
    s.map_values(|c: char| c as u8)
}

/// The decimal digits of `n` as bytes.
pub open spec fn dec_b(n: nat) -> Seq<u8> {
    tb(decimal(n))
}

fn push_chars(out: &mut Vec<u8>, cs: &Vec<char>)
    ensures
        final(out)@ == old(out)@ + tb(cs@),
{
    let mut i: usize = 0;
    while i < cs.len()
        invariant
            i <= cs@.len(),
            out@ == old(out)@ + tb(cs@.take(i as int)),
        decreases cs@.len() - i,
    {
        out.push(cs[i] as u8);
        i = i + 1;
        proof {
            assert(tb(cs@.take(i as int)) =~= tb(cs@.take(i - 1)).push(cs@[i - 1] as u8));
            assert(out@ =~= old(out)@ + tb(cs@.take(i as int)));
        }
    }
    proof {
        assert(cs@.take(i as int) =~= cs@);
    }
}

fn push_text(out: &mut Vec<u8>, s: &str)
    ensures
        final(out)@ == old(out)@ + tb(s@),
{
    broadcast use vstd::string::group_string_axioms;
    let cs = super::importers::chars_of(s);
    push_chars(out, &cs);
}

fn push_dec(out: &mut Vec<u8>, n: usize)
    ensures
        final(out)@ == old(out)@ + dec_b(n as nat),
{
    let mut cs: Vec<char> = Vec::new();
    push_decimal(&mut cs, n);
    proof {
        assert(cs@ =~= decimal(n as nat));
    }
    push_chars(out, &cs);
}

/// The first `t` fan triangles of face `f`, its indices shifted by `start`:
/// corner 0 with corners `k` and `k + 1`, for `k` from 1.
pub open spec fn fan_upto(f: Seq<u32>, start: nat, t: nat) -> Seq<u32>
    decreases t,
{
    if t == 0 {
        Seq::empty()
    } else {
        fan_upto(f, start, (t - 1) as nat) + seq![
            (start + f[0]) as u32,
            (start + f[t as int]) as u32,
            (start + f[t + 1 as int]) as u32,
        ]
    }
}

/// The fan triangles of a face (none for fewer than three corners).
pub open spec fn face_fan(f: Seq<u32>, start: nat) -> Seq<u32> {
    if f.len() >= 3 {
        fan_upto(f, start, (f.len() - 2) as nat)
    } else {
        Seq::empty()
    }
}

/// The fan triangles of the first `k` faces.
pub open spec fn faces_fan(faces: Seq<Vec<u32>>, start: nat, k: nat) -> Seq<u32>
    decreases k,
{
    if k == 0 {
        Seq::empty()
    } else {
        faces_fan(faces, start, (k - 1) as nat) + face_fan(faces[k - 1]@, start)
    }
}

/// A mesh's triangle indices, shifted by the vertices of the meshes before.
pub open spec fn mesh_indices(m: GltfExportMesh, start: nat) -> Seq<u32> {
    faces_fan(m.faces@, start, m.faces@.len())
}

/// The bytes of a list of coordinate triples.
pub open spec fn triples_bytes(cs: Seq<[u32; 3]>) -> Seq<u8>
    decreases cs.len(),
{
    if cs.len() == 0 {
        Seq::empty()
    } else {
        triples_bytes(cs.drop_last()) + coords_bytes(cs.last())
    }
}

/// The bytes of a list of indices.
pub open spec fn indices_bytes(xs: Seq<u32>) -> Seq<u8>
    decreases xs.len(),
{
    if xs.len() == 0 {
        Seq::empty()
    } else {
        indices_bytes(xs.drop_last()) + le32(xs.last())
    }
}

/// How many vertices the first `k` meshes have.
pub open spec fn vertex_start(ms: Seq<GltfExportMesh>, k: nat) -> nat
    decreases k,
{
    if k == 0 {
        0
    } else {
        vertex_start(ms, (k - 1) as nat) + ms[k - 1].positions@.len()
    }
}

/// The binary chunk of the first `k` meshes: for each, its positions, its
/// normals and its indices.
pub open spec fn bin_upto(ms: Seq<GltfExportMesh>, k: nat) -> Seq<u8>
    decreases k,
{
    if k == 0 {
        Seq::empty()
    } else {
        let m = ms[k - 1];
        bin_upto(ms, (k - 1) as nat) + triples_bytes(m.positions@) + triples_bytes(m.normals@) + indices_bytes(
            mesh_indices(m, vertex_start(ms, (k - 1) as nat)),
        )
    }
}

/// A comma before every item but the first.
pub open spec fn sep(k: nat) -> Seq<u8> {
    if k == 0 {
        Seq::empty()
    } else {
        tb(","@)
    }
}

/// The node of mesh `i`.
#[verifier::opaque]
pub open spec fn node_json(i: nat) -> Seq<u8> {
    tb("{\"mesh\":"@) + dec_b(i) + tb("}"@)
}

/// Mesh `i`: its name and one primitive whose position, normal and index
/// accessors are numbers `3i`, `3i + 1` and `3i + 2`.
#[verifier::opaque]
pub open spec fn mesh_json(m: GltfExportMesh, i: nat) -> Seq<u8> {
    tb("{\"name\":"@) + json_quoted(m.name@) + tb(",\"primitives\":[{\"attributes\":{\"NORMAL\":"@) + dec_b(3 * i + 1)
        + tb(",\"POSITION\":"@) + dec_b(3 * i) + tb("},\"indices\":"@) + dec_b(3 * i + 2) + tb("}]}"@)
}

/// The position accessor of mesh `i`: buffer view `3i`, 32-bit floats in
/// threes, with the bounds.
#[verifier::opaque]
pub open spec fn position_accessor_json(m: GltfExportMesh, i: nat) -> Seq<u8> {
    tb("{\"bufferView\":"@) + dec_b(3 * i) + tb(",\"componentType\":5126,\"count\":"@) + dec_b(m.positions@.len())
        + tb(",\"max\":"@) + tb(m.max_text@) + tb(",\"min\":"@) + tb(m.min_text@) + tb(",\"type\":\"VEC3\"}"@)
}

/// The normal accessor of mesh `i`: buffer view `3i + 1`, 32-bit floats in
/// threes.
#[verifier::opaque]
pub open spec fn normal_accessor_json(m: GltfExportMesh, i: nat) -> Seq<u8> {
    tb("{\"bufferView\":"@) + dec_b(3 * i + 1) + tb(",\"componentType\":5126,\"count\":"@) + dec_b(m.normals@.len())
        + tb(",\"type\":\"VEC3\"}"@)
}

/// The index accessor of mesh `i`: buffer view `3i + 2`, `count` unsigned
/// 32-bit integers.
#[verifier::opaque]
pub open spec fn index_accessor_json(i: nat, count: nat) -> Seq<u8> {
    tb("{\"bufferView\":"@) + dec_b(3 * i + 2) + tb(",\"componentType\":5125,\"count\":"@) + dec_b(count) + tb(
        ",\"type\":\"SCALAR\"}"@,
    )
}

/// The three accessors of mesh `i`: positions (with their bounds), normals
/// and indices, reading buffer views `3i`, `3i + 1` and `3i + 2`.
pub open spec fn accessors_json(m: GltfExportMesh, i: nat, count: nat) -> Seq<u8> {
    position_accessor_json(m, i) + tb(","@) + normal_accessor_json(m, i) + tb(","@) + index_accessor_json(i, count)
}

/// One buffer view of buffer 0.
#[verifier::opaque]
pub open spec fn view_json(length: nat, offset: nat, target: nat) -> Seq<u8> {
    tb("{\"buffer\":0,\"byteLength\":"@) + dec_b(length) + tb(",\"byteOffset\":"@) + dec_b(offset) + tb(",\"target\":"@)
        + dec_b(target) + tb("}"@)
}

/// The three buffer views of a mesh whose blocks start at `offset` in the
/// binary chunk: positions, normals (both vertex data, target 34962) and
/// indices (target 34963).
#[verifier::opaque]
pub open spec fn views_json(m: GltfExportMesh, offset: nat, start: nat) -> Seq<u8> {
    let p = triples_bytes(m.positions@).len();
    let n = triples_bytes(m.normals@).len();
    let x = indices_bytes(mesh_indices(m, start)).len();
    view_json(p, offset, 34962) + tb(","@) + view_json(n, offset + p, 34962) + tb(","@) + view_json(
        x,
        offset + p + n,
        34963,
    )
}

/// The lists of the first `k` meshes: scene node numbers, nodes, meshes,
/// accessors and buffer views.
pub open spec fn scene_list(k: nat) -> Seq<u8>
    decreases k,
{
    if k == 0 {
        Seq::empty()
    } else {
        scene_list((k - 1) as nat) + sep((k - 1) as nat) + dec_b((k - 1) as nat)
    }
}

pub open spec fn node_list(k: nat) -> Seq<u8>
    decreases k,
{
    if k == 0 {
        Seq::empty()
    } else {
        node_list((k - 1) as nat) + sep((k - 1) as nat) + node_json((k - 1) as nat)
    }
}

pub open spec fn mesh_list(ms: Seq<GltfExportMesh>, k: nat) -> Seq<u8>
    decreases k,
{
    if k == 0 {
        Seq::empty()
    } else {
        mesh_list(ms, (k - 1) as nat) + sep((k - 1) as nat) + mesh_json(ms[k - 1], (k - 1) as nat)
    }
}

pub open spec fn accessor_list(ms: Seq<GltfExportMesh>, k: nat) -> Seq<u8>
    decreases k,
{
    if k == 0 {
        Seq::empty()
    } else {
        let s = vertex_start(ms, (k - 1) as nat);
        accessor_list(ms, (k - 1) as nat) + sep((k - 1) as nat) + accessors_json(
            ms[k - 1],
            (k - 1) as nat,
            mesh_indices(ms[k - 1], s).len(),
        )
    }
}

pub open spec fn view_list(ms: Seq<GltfExportMesh>, k: nat) -> Seq<u8>
    decreases k,
{
    if k == 0 {
        Seq::empty()
    } else {
        let s = vertex_start(ms, (k - 1) as nat);
        view_list(ms, (k - 1) as nat) + sep((k - 1) as nat) + views_json(
            ms[k - 1],
            bin_upto(ms, (k - 1) as nat).len(),
            s,
        )
    }
}

/// The glTF JSON document of the meshes: the asset, one scene holding one
/// node per mesh, the meshes, their accessors and buffer views, and the one
/// buffer (the binary chunk).
#[verifier::opaque]
pub open spec fn gltf_json(ms: Seq<GltfExportMesh>) -> Seq<u8> {
    let k = ms.len();
    tb("{\"asset\":{\"generator\":\"Lili Modeler\",\"version\":\"2.0\"},\"scene\":0,\"scenes\":[{\"nodes\":["@)
        + scene_list(k) + tb("]}],\"nodes\":["@) + node_list(k) + tb("],\"meshes\":["@) + mesh_list(ms, k) + tb(
        "],\"accessors\":["@,
    ) + accessor_list(ms, k) + tb("],\"bufferViews\":["@) + view_list(ms, k) + tb("],\"buffers\":[{\"byteLength\":"@)
        + dec_b(bin_upto(ms, k).len()) + tb("}]}"@)
}

/// The binary chunk of the meshes.
pub open spec fn gltf_bin(ms: Seq<GltfExportMesh>) -> Seq<u8> {
    bin_upto(ms, ms.len())
}

/// Whether every face index, shifted by the vertices of all meshes, fits
/// in `u32`.
pub open spec fn indices_fit(ms: Seq<GltfExportMesh>) -> bool {
    forall|i: int, f: int, c: int|
        0 <= i < ms.len() && 0 <= f < ms[i].faces@.len() && 0 <= c < ms[i].faces@[f]@.len() ==> #[trigger] ms[i].faces@[f]@[c]
            + vertex_start(ms, ms.len()) <= u32::MAX
}

proof fn lemma_vertex_start_mono(ms: Seq<GltfExportMesh>, j: nat, k: nat)
    requires
        j <= k <= ms.len(),
    ensures
        vertex_start(ms, j) <= vertex_start(ms, k),
    decreases k - j,
{
    if j < k {
        lemma_vertex_start_mono(ms, j, (k - 1) as nat);
    }
}

fn push_triples(out: &mut Vec<u8>, cs: &Vec<[u32; 3]>)
    ensures
        final(out)@ == old(out)@ + triples_bytes(cs@),
{
    let mut i: usize = 0;
    while i < cs.len()
        invariant
            i <= cs@.len(),
            out@ == old(out)@ + triples_bytes(cs@.take(i as int)),
        decreases cs@.len() - i,
    {
        let ghost before = out@;
        push_le32(out, cs[i][0]);
        push_le32(out, cs[i][1]);
        push_le32(out, cs[i][2]);
        i = i + 1;
        proof {
            assert(cs@.take(i as int).drop_last() =~= cs@.take(i - 1));
            assert(out@ =~= old(out)@ + triples_bytes(cs@.take(i as int)));
        }
    }
    proof {
        assert(cs@.take(i as int) =~= cs@);
    }
}

/// Appends a mesh's triangle indices (see [`mesh_indices`]) and gives them.
fn mesh_fan(faces: &Vec<Vec<u32>>, start: u64) -> (xs: Vec<u32>)
    requires
        forall|f: int, c: int| 0 <= f < faces@.len() && 0 <= c < faces@[f]@.len() ==> #[trigger] faces@[f]@[c] + start <= u32::MAX,
    ensures
        xs@ == faces_fan(faces@, start as nat, faces@.len()),
{
    let mut xs: Vec<u32> = Vec::new();
    let mut f: usize = 0;
    while f < faces.len()
        invariant
            f <= faces@.len(),
            forall|g: int, c: int| 0 <= g < faces@.len() && 0 <= c < faces@[g]@.len() ==> #[trigger] faces@[g]@[c] + start <= u32::MAX,
            xs@ == faces_fan(faces@, start as nat, f as nat),
        decreases faces@.len() - f,
    {
        let face = &faces[f];
        let ghost before = xs@;
        let n = face.len();
        if n >= 3 {
            let mut t: usize = 1;
            while t <= n - 2
                invariant
                    n == face@.len(),
                    n >= 3,
                    1 <= t <= n - 1,
                    face == faces@[f as int],
                    forall|c: int| 0 <= c < n ==> #[trigger] face@[c] + start <= u32::MAX,
                    xs@ == before + fan_upto(face@, start as nat, (t - 1) as nat),
                decreases n - 1 - t,
            {
                assert(face@[0] + start <= u32::MAX);
                assert(face@[t as int] + start <= u32::MAX);
                assert(face@[t + 1] + start <= u32::MAX);
                xs.push((face[0] as u64 + start) as u32);
                xs.push((face[t] as u64 + start) as u32);
                xs.push((face[t + 1] as u64 + start) as u32);
                proof {
                    assert(xs@ =~= before + fan_upto(face@, start as nat, t as nat));
                }
                t = t + 1;
            }
        } else {
            proof {
                assert(xs@ =~= before + face_fan(face@, start as nat));
            }
        }
        f = f + 1;
    }
    xs
}

fn push_indices(out: &mut Vec<u8>, xs: &Vec<u32>)
    ensures
        final(out)@ == old(out)@ + indices_bytes(xs@),
{
    let mut i: usize = 0;
    while i < xs.len()
        invariant
            i <= xs@.len(),
            out@ == old(out)@ + indices_bytes(xs@.take(i as int)),
        decreases xs@.len() - i,
    {
        push_le32(out, xs[i]);
        i = i + 1;
        proof {
            assert(xs@.take(i as int).drop_last() =~= xs@.take(i - 1));
            assert(out@ =~= old(out)@ + indices_bytes(xs@.take(i as int)));
        }
    }
    proof {
        assert(xs@.take(i as int) =~= xs@);
    }
}

fn push_view(out: &mut Vec<u8>, length: usize, offset: usize, target: usize)
    ensures
        final(out)@ == old(out)@ + view_json(length as nat, offset as nat, target as nat),
{
    push_text(out, "{\"buffer\":0,\"byteLength\":");
    push_dec(out, length);
    push_text(out, ",\"byteOffset\":");
    push_dec(out, offset);
    push_text(out, ",\"target\":");
    push_dec(out, target);
    push_text(out, "}");
    proof {
        reveal(view_json);
        assert(final(out)@ =~= old(out)@ + view_json(length as nat, offset as nat, target as nat));
    }
}

fn push_mesh_json(out: &mut Vec<u8>, m: &GltfExportMesh, i: usize)
    requires
        3 * i + 2 <= usize::MAX,
    ensures
        final(out)@ == old(out)@ + mesh_json(*m, i as nat),
{
    let q = json_string_bytes(&m.name);
    push_text(out, "{\"name\":");
    let mut k: usize = 0;
    let ghost before = out@;
    while k < q.len()
        invariant
            k <= q@.len(),
            out@ == before + q@.take(k as int),
        decreases q@.len() - k,
    {
        out.push(q[k]);
        k = k + 1;
        proof {
            assert(out@ =~= before + q@.take(k as int));
        }
    }
    proof {
        assert(q@.take(k as int) =~= q@);
    }
    push_text(out, ",\"primitives\":[{\"attributes\":{\"NORMAL\":");
    push_dec(out, 3 * i + 1);
    push_text(out, ",\"POSITION\":");
    push_dec(out, 3 * i);
    push_text(out, "},\"indices\":");
    push_dec(out, 3 * i + 2);
    push_text(out, "}]}");
    proof {
        reveal(mesh_json);
        assert(final(out)@ =~= old(out)@ + mesh_json(*m, i as nat));
    }
}

fn push_accessors(out: &mut Vec<u8>, m: &GltfExportMesh, i: usize, count: usize)
    requires
        3 * i + 2 <= usize::MAX,
    ensures
        final(out)@ == old(out)@ + accessors_json(*m, i as nat, count as nat),
{
    let ghost o = out@;
    push_text(out, "{\"bufferView\":");
    push_dec(out, 3 * i);
    push_text(out, ",\"componentType\":5126,\"count\":");
    push_dec(out, m.positions.len());
    push_text(out, ",\"max\":");
    push_chars(out, &m.max_text);
    push_text(out, ",\"min\":");
    push_chars(out, &m.min_text);
    push_text(out, ",\"type\":\"VEC3\"}");
    proof {
        reveal(position_accessor_json);
        assert(out@ =~= o + position_accessor_json(*m, i as nat));
    }
    let ghost o1 = out@;
    push_text(out, ",");
    push_text(out, "{\"bufferView\":");
    push_dec(out, 3 * i + 1);
    push_text(out, ",\"componentType\":5126,\"count\":");
    push_dec(out, m.normals.len());
    push_text(out, ",\"type\":\"VEC3\"}");
    proof {
        reveal(normal_accessor_json);
        assert(out@ =~= o1 + tb(","@) + normal_accessor_json(*m, i as nat));
    }
    let ghost o2 = out@;
    push_text(out, ",");
    push_text(out, "{\"bufferView\":");
    push_dec(out, 3 * i + 2);
    push_text(out, ",\"componentType\":5125,\"count\":");
    push_dec(out, count);
    push_text(out, ",\"type\":\"SCALAR\"}");
    proof {
        reveal(index_accessor_json);
        assert(out@ =~= o2 + tb(","@) + index_accessor_json(i as nat, count as nat));
        assert(out@ =~= o + accessors_json(*m, i as nat, count as nat));
    }
}

fn push_node(out: &mut Vec<u8>, i: usize)
    ensures
        final(out)@ == old(out)@ + node_json(i as nat),
{
    push_text(out, "{\"mesh\":");
    push_dec(out, i);
    push_text(out, "}");
    proof {
        reveal(node_json);
        assert(final(out)@ =~= old(out)@ + node_json(i as nat));
    }
}

fn push_views(out: &mut Vec<u8>, m: Ghost<GltfExportMesh>, start: Ghost<nat>, p_len: usize, n_len: usize, x_len: usize, offset: usize)
    requires
        p_len == triples_bytes(m@.positions@).len(),
        n_len == triples_bytes(m@.normals@).len(),
        x_len == indices_bytes(mesh_indices(m@, start@)).len(),
        offset + p_len + n_len <= usize::MAX,
    ensures
        final(out)@ == old(out)@ + views_json(m@, offset as nat, start@),
{
    push_view(out, p_len, offset, 34962);
    push_text(out, ",");
    push_view(out, n_len, offset + p_len, 34962);
    push_text(out, ",");
    push_view(out, x_len, offset + p_len + n_len, 34963);
    proof {
        reveal(views_json);
        assert(final(out)@ =~= old(out)@ + views_json(m@, offset as nat, start@));
    }
}

fn push_bytes(out: &mut Vec<u8>, bs: &Vec<u8>)
    ensures
        final(out)@ == old(out)@ + bs@,
{
    let mut k: usize = 0;
    while k < bs.len()
        invariant
            k <= bs@.len(),
            out@ == old(out)@ + bs@.take(k as int),
        decreases bs@.len() - k,
    {
        out.push(bs[k]);
        k = k + 1;
        proof {
            assert(out@ =~= old(out)@ + bs@.take(k as int));
        }
    }
    proof {
        assert(bs@.take(k as int) =~= bs@);
    }
}

/// The JSON lists and the binary chunk built so far.
struct GlbParts {
    bin: Vec<u8>,
    scenes: Vec<u8>,
    nodes: Vec<u8>,
    meshes: Vec<u8>,
    accessors: Vec<u8>,
    views: Vec<u8>,
}

impl GlbParts {
    /// Whether the parts are those of the first `k` meshes of `ms`.
    #[verifier::opaque]
    spec fn upto(self, ms: Seq<GltfExportMesh>, k: nat) -> bool {
        &&& self.bin@ == bin_upto(ms, k)
        &&& self.scenes@ == scene_list(k)
        &&& self.nodes@ == node_list(k)
        &&& self.meshes@ == mesh_list(ms, k)
        &&& self.accessors@ == accessor_list(ms, k)
        &&& self.views@ == view_list(ms, k)
    }

    /// Adds mesh `i` of `meshes`, whose vertices start at `start`.
    #[verifier::rlimit(40)]
    fn add(&mut self, meshes: &Vec<GltfExportMesh>, i: usize, start: u64)
        requires
            old(self).upto(meshes@, i as nat),
            i < meshes@.len(),
            3 * meshes@.len() + 2 <= usize::MAX,
            start == vertex_start(meshes@, i as nat),
            forall|f: int, c: int|
                0 <= f < meshes@[i as int].faces@.len() && 0 <= c < meshes@[i as int].faces@[f]@.len() ==> #[trigger] meshes@[i as int].faces@[f]@[c]
                    + start <= u32::MAX,
        ensures
            final(self).upto(meshes@, (i + 1) as nat),
    {
        let ghost ms = meshes@;
        let m = &meshes[i];
        let xs = mesh_fan(&m.faces, start);
        if i > 0 {
            push_text(&mut self.scenes, ",");
            push_text(&mut self.nodes, ",");
            push_text(&mut self.meshes, ",");
            push_text(&mut self.accessors, ",");
            push_text(&mut self.views, ",");
        }
        push_dec(&mut self.scenes, i);
        push_node(&mut self.nodes, i);
        push_mesh_json(&mut self.meshes, m, i);
        push_accessors(&mut self.accessors, m, i, xs.len());
        let offset = self.bin.len();
        push_triples(&mut self.bin, &m.positions);
        let p_len = self.bin.len() - offset;
        push_triples(&mut self.bin, &m.normals);
        let n_len = self.bin.len() - offset - p_len;
        push_indices(&mut self.bin, &xs);
        let x_len = self.bin.len() - offset - p_len - n_len;
        push_views(&mut self.views, Ghost(*m), Ghost(start as nat), p_len, n_len, x_len, offset);
        proof {
            reveal(GlbParts::upto);
            let k = (i + 1) as nat;
            assert(self.bin@ =~= bin_upto(ms, k));
            assert(self.scenes@ =~= scene_list(k));
            assert(self.nodes@ =~= node_list(k));
            assert(self.meshes@ =~= mesh_list(ms, k));
            assert(self.accessors@ =~= accessor_list(ms, k));
            assert(self.views@ =~= view_list(ms, k));
        }
    }

    /// The binary chunk of all the meshes.
    fn into_bin(self, ms: Ghost<Seq<GltfExportMesh>>) -> (bin: Vec<u8>)
        requires
            self.upto(ms@, ms@.len()),
        ensures
            bin@ == gltf_bin(ms@),
    {
        proof {
            reveal(GlbParts::upto);
        }
        self.bin
    }

    /// The JSON document of all the meshes.
    fn json(&self, ms: Ghost<Seq<GltfExportMesh>>) -> (json: Vec<u8>)
        requires
            self.upto(ms@, ms@.len()),
        ensures
            json@ == gltf_json(ms@),
    {
        let mut json: Vec<u8> = Vec::new();
        push_text(
            &mut json,
            "{\"asset\":{\"generator\":\"Lili Modeler\",\"version\":\"2.0\"},\"scene\":0,\"scenes\":[{\"nodes\":[",
        );
        push_bytes(&mut json, &self.scenes);
        push_text(&mut json, "]}],\"nodes\":[");
        push_bytes(&mut json, &self.nodes);
        push_text(&mut json, "],\"meshes\":[");
        push_bytes(&mut json, &self.meshes);
        push_text(&mut json, "],\"accessors\":[");
        push_bytes(&mut json, &self.accessors);
        push_text(&mut json, "],\"bufferViews\":[");
        push_bytes(&mut json, &self.views);
        push_text(&mut json, "],\"buffers\":[{\"byteLength\":");
        push_dec(&mut json, self.bin.len());
        push_text(&mut json, "}]}");
        proof {
            reveal(GlbParts::upto);
            reveal(gltf_json);
            assert(json@ =~= gltf_json(ms@));
        }
        json
    }
}

/// Writes the meshes as a GLB file: the JSON document [`gltf_json`] and
/// the binary chunk [`gltf_bin`], framed by [`glb_container`]. Every face
/// index, shifted by the vertices of all meshes, must fit in `u32`, and so
/// must the number of vertices. `None` exactly where the file would be
/// longer than the format's `u32` length.
#[verifier::rlimit(50)]
pub fn gltf_glb(meshes: &Vec<GltfExportMesh>) -> (glb: Option<Vec<u8>>)
    requires
        indices_fit(meshes@),
        vertex_start(meshes@, meshes@.len()) <= u32::MAX,
        3 * meshes@.len() + 2 <= usize::MAX,
    ensures
        match glb {
            Some(g) => 28 + padded4(gltf_json(meshes@).len()) + padded4(gltf_bin(meshes@).len()) <= u32::MAX && g@
                == glb_bytes(gltf_json(meshes@), gltf_bin(meshes@)),
            None => 28 + padded4(gltf_json(meshes@).len()) + padded4(gltf_bin(meshes@).len()) > u32::MAX,
        },
{
    let ghost ms = meshes@;
    let mut parts = GlbParts {
        bin: Vec::new(),
        scenes: Vec::new(),
        nodes: Vec::new(),
        meshes: Vec::new(),
        accessors: Vec::new(),
        views: Vec::new(),
    };
    proof {
        reveal(GlbParts::upto);
        assert(parts.bin@ =~= bin_upto(ms, 0));
    }
    let mut start: u64 = 0;
    let mut i: usize = 0;
    while i < meshes.len()
        invariant
            ms == meshes@,
            i <= ms.len(),
            3 * ms.len() + 2 <= usize::MAX,
            indices_fit(ms),
            vertex_start(ms, ms.len()) <= u32::MAX,
            start == vertex_start(ms, i as nat),
            parts.upto(ms, i as nat),
        decreases ms.len() - i,
    {
        proof {
            lemma_vertex_start_mono(ms, (i + 1) as nat, ms.len());
        }
        assert forall|f: int, c: int|
            0 <= f < ms[i as int].faces@.len() && 0 <= c < ms[i as int].faces@[f]@.len() implies #[trigger] ms[i as int].faces@[f]@[c]
                + start <= u32::MAX by {
            assert(ms[i as int].faces@[f]@[c] + vertex_start(ms, ms.len()) <= u32::MAX);
        }
        parts.add(meshes, i, start);
        start = start + meshes[i].positions.len() as u64;
        i = i + 1;
    }
    let json = parts.json(Ghost(ms));
    let bin = parts.into_bin(Ghost(ms));
    frame(&json, &bin)
}

/// Frames the chunks as a GLB file when its length fits the format.
fn frame(json: &Vec<u8>, bin: &Vec<u8>) -> (glb: Option<Vec<u8>>)
    ensures
        match glb {
            Some(g) => 28 + padded4(json@.len()) + padded4(bin@.len()) <= u32::MAX && g@ == glb_bytes(json@, bin@),
            None => 28 + padded4(json@.len()) + padded4(bin@.len()) > u32::MAX,
        },
{
    if json.len() > (u32::MAX - 28) as usize || bin.len() > (u32::MAX - 28) as usize {
        return None;
    }
    let pj = pad4(json.len());
    let pb = pad4(bin.len());
    if pj as u64 + pb as u64 + 28 > u32::MAX as u64 {
        return None;
    }
    Some(glb_container(json.as_slice(), bin.as_slice()))
}

/// Whether a byte is an ASCII decimal digit.
pub open spec fn digit_byte(b: u8) -> bool {
    48 <= b <= 57
}

/// `x`, then the text `key`, then the digits of `n`, then `y`.
pub open spec fn spliced(x: Seq<u8>, key: Seq<char>, n: nat, y: Seq<u8>) -> Seq<u8> {
    x + tb(key) + dec_b(n) + y
}

/// Whether `json` holds the text `key` directly followed by the number `n`
/// (its digits, and no further digit after them).
pub open spec fn refers(json: Seq<u8>, key: Seq<char>, n: nat) -> bool {
    exists|x: Seq<u8>, y: Seq<u8>| #[trigger] spliced(x, key, n, y) == json && (y.len() == 0 || !digit_byte(y[0]))
}

/// `x`, then `t`, then `y`.
pub open spec fn around(x: Seq<u8>, t: Seq<u8>, y: Seq<u8>) -> Seq<u8> {
    x + t + y
}

/// Whether `json` holds the bytes `t` somewhere.
pub open spec fn holds(json: Seq<u8>, t: Seq<u8>) -> bool {
    exists|x: Seq<u8>, y: Seq<u8>| #[trigger] around(x, t, y) == json
}

proof fn lemma_tb_add(a: Seq<char>, b: Seq<char>)
    ensures
        tb(a + b) == tb(a) + tb(b),
{
    assert(tb(a + b) =~= tb(a) + tb(b));
}

proof fn lemma_mesh_refs(m: GltfExportMesh, i: nat)
    ensures
        refers(mesh_json(m, i), "\"POSITION\":"@, 3 * i),
        refers(mesh_json(m, i), "\"NORMAL\":"@, 3 * i + 1),
        refers(mesh_json(m, i), "\"indices\":"@, 3 * i + 2),
        holds(mesh_json(m, i), tb("\"name\":"@) + json_quoted(m.name@)),
{
    reveal(mesh_json);
    reveal_strlit(",\"primitives\":[{\"attributes\":{\"NORMAL\":");
    reveal_strlit(",\"primitives\":[{\"attributes\":{");
    reveal_strlit("\"NORMAL\":");
    reveal_strlit(",\"POSITION\":");
    reveal_strlit(",");
    reveal_strlit("\"POSITION\":");
    reveal_strlit("},\"indices\":");
    assert(",\"primitives\":[{\"attributes\":{\"NORMAL\":"@ =~= ",\"primitives\":[{\"attributes\":{"@ + "\"NORMAL\":"@);
    lemma_tb_add(",\"primitives\":[{\"attributes\":{"@, "\"NORMAL\":"@);
    assert(",\"POSITION\":"@ =~= ","@ + "\"POSITION\":"@);
    lemma_tb_add(","@, "\"POSITION\":"@);
    let head = tb("{\"name\":"@) + json_quoted(m.name@);
    let tail = tb("},\"indices\":"@) + dec_b(3 * i + 2) + tb("}]}"@);
    let x1 = head + tb(",\"primitives\":[{\"attributes\":{"@);
    let y1 = tb(",\"POSITION\":"@) + dec_b(3 * i) + tail;
    assert(spliced(x1, "\"NORMAL\":"@, 3 * i + 1, y1) =~= mesh_json(m, i));
    assert(y1[0] == 44);
    let x2 = x1 + tb("\"NORMAL\":"@) + dec_b(3 * i + 1) + tb(","@);
    assert(spliced(x2, "\"POSITION\":"@, 3 * i, tail) =~= mesh_json(m, i));
    assert(tail[0] == 125);
    reveal_strlit("},");
    reveal_strlit("\"indices\":");
    reveal_strlit("}]}");
    assert("},\"indices\":"@ =~= "},"@ + "\"indices\":"@);
    lemma_tb_add("},"@, "\"indices\":"@);
    let x3 = x2 + tb("\"POSITION\":"@) + dec_b(3 * i) + tb("},"@);
    assert(spliced(x3, "\"indices\":"@, 3 * i + 2, tb("}]}"@)) =~= mesh_json(m, i));
    assert(tb("}]}"@)[0] == 125);
    reveal_strlit("{\"name\":");
    reveal_strlit("{");
    reveal_strlit("\"name\":");
    assert("{\"name\":"@ =~= "{"@ + "\"name\":"@);
    lemma_tb_add("{"@, "\"name\":"@);
    let rest = tb(",\"primitives\":[{\"attributes\":{\"NORMAL\":"@) + dec_b(3 * i + 1) + tb(",\"POSITION\":"@) + dec_b(
        3 * i,
    ) + tail;
    assert(around(tb("{"@), tb("\"name\":"@) + json_quoted(m.name@), rest) =~= mesh_json(m, i));
}

proof fn lemma_index_accessor_refs(i: nat, count: nat)
    ensures
        refers(index_accessor_json(i, count), "\"bufferView\":"@, 3 * i + 2),
        refers(index_accessor_json(i, count), "\"count\":"@, count),
{
    reveal(index_accessor_json);
    reveal_strlit("{\"bufferView\":");
    reveal_strlit("{");
    reveal_strlit("\"bufferView\":");
    reveal_strlit(",\"componentType\":5125,\"count\":");
    reveal_strlit(",\"componentType\":5125,");
    reveal_strlit("\"count\":");
    reveal_strlit(",\"type\":\"SCALAR\"}");
    assert("{\"bufferView\":"@ =~= "{"@ + "\"bufferView\":"@);
    lemma_tb_add("{"@, "\"bufferView\":"@);
    assert(",\"componentType\":5125,\"count\":"@ =~= ",\"componentType\":5125,"@ + "\"count\":"@);
    lemma_tb_add(",\"componentType\":5125,"@, "\"count\":"@);
    let ct = tb(",\"componentType\":5125,\"count\":"@);
    let ty = tb(",\"type\":\"SCALAR\"}"@);
    let a = index_accessor_json(i, count);
    let y1 = ct + dec_b(count) + ty;
    assert(spliced(tb("{"@), "\"bufferView\":"@, 3 * i + 2, y1) =~= a);
    assert(y1[0] == 44);
    let x2 = tb("{\"bufferView\":"@) + dec_b(3 * i + 2) + tb(",\"componentType\":5125,"@);
    assert(spliced(x2, "\"count\":"@, count, ty) =~= a);
    assert(ty[0] == 44);
}

proof fn lemma_accessor_refs(m: GltfExportMesh, i: nat)
    ensures
        refers(position_accessor_json(m, i), "\"bufferView\":"@, 3 * i),
        refers(position_accessor_json(m, i), "\"count\":"@, m.positions@.len()),
        holds(position_accessor_json(m, i), tb("\"max\":"@) + tb(m.max_text@)),
        holds(position_accessor_json(m, i), tb("\"min\":"@) + tb(m.min_text@)),
        refers(normal_accessor_json(m, i), "\"bufferView\":"@, 3 * i + 1),
        refers(normal_accessor_json(m, i), "\"count\":"@, m.normals@.len()),
{
    reveal(position_accessor_json);
    reveal(normal_accessor_json);
    reveal_strlit("{\"bufferView\":");
    reveal_strlit("{");
    reveal_strlit("\"bufferView\":");
    reveal_strlit(",\"componentType\":5126,\"count\":");
    reveal_strlit(",\"componentType\":5126,");
    reveal_strlit("\"count\":");
    reveal_strlit(",\"max\":");
    reveal_strlit(",\"min\":");
    reveal_strlit(",");
    reveal_strlit("\"max\":");
    reveal_strlit("\"min\":");
    reveal_strlit(",\"type\":\"VEC3\"}");
    assert("{\"bufferView\":"@ =~= "{"@ + "\"bufferView\":"@);
    lemma_tb_add("{"@, "\"bufferView\":"@);
    assert(",\"componentType\":5126,\"count\":"@ =~= ",\"componentType\":5126,"@ + "\"count\":"@);
    lemma_tb_add(",\"componentType\":5126,"@, "\"count\":"@);
    assert(",\"max\":"@ =~= ","@ + "\"max\":"@);
    lemma_tb_add(","@, "\"max\":"@);
    assert(",\"min\":"@ =~= ","@ + "\"min\":"@);
    lemma_tb_add(","@, "\"min\":"@);
    let ct = tb(",\"componentType\":5126,\"count\":"@);
    let ty = tb(",\"type\":\"VEC3\"}"@);
    let mx = tb(",\"max\":"@) + tb(m.max_text@);
    let mn = tb(",\"min\":"@) + tb(m.min_text@);
    let p = position_accessor_json(m, i);
    let y1 = ct + dec_b(m.positions@.len()) + mx + mn + ty;
    assert(spliced(tb("{"@), "\"bufferView\":"@, 3 * i, y1) =~= p);
    assert(y1[0] == 44);
    let x2 = tb("{\"bufferView\":"@) + dec_b(3 * i) + tb(",\"componentType\":5126,"@);
    let y2 = mx + mn + ty;
    assert(spliced(x2, "\"count\":"@, m.positions@.len(), y2) =~= p);
    assert(y2[0] == 44);
    let x3 = tb("{\"bufferView\":"@) + dec_b(3 * i) + ct + dec_b(m.positions@.len()) + tb(","@);
    assert(around(x3, tb("\"max\":"@) + tb(m.max_text@), mn + ty) =~= p);
    let x4 = tb("{\"bufferView\":"@) + dec_b(3 * i) + ct + dec_b(m.positions@.len()) + mx + tb(","@);
    assert(around(x4, tb("\"min\":"@) + tb(m.min_text@), ty) =~= p);
    let q = normal_accessor_json(m, i);
    let z1 = ct + dec_b(m.normals@.len()) + ty;
    assert(spliced(tb("{"@), "\"bufferView\":"@, 3 * i + 1, z1) =~= q);
    assert(z1[0] == 44);
    let w2 = tb("{\"bufferView\":"@) + dec_b(3 * i + 1) + tb(",\"componentType\":5126,"@);
    assert(spliced(w2, "\"count\":"@, m.normals@.len(), ty) =~= q);
    assert(ty[0] == 44);
}

proof fn lemma_view_refs(length: nat, offset: nat, target: nat)
    ensures
        refers(view_json(length, offset, target), "\"byteLength\":"@, length),
        refers(view_json(length, offset, target), "\"byteOffset\":"@, offset),
{
    reveal(view_json);
    reveal_strlit("{\"buffer\":0,\"byteLength\":");
    reveal_strlit("{\"buffer\":0,");
    reveal_strlit("\"byteLength\":");
    reveal_strlit(",\"byteOffset\":");
    reveal_strlit(",");
    reveal_strlit("\"byteOffset\":");
    reveal_strlit(",\"target\":");
    assert("{\"buffer\":0,\"byteLength\":"@ =~= "{\"buffer\":0,"@ + "\"byteLength\":"@);
    lemma_tb_add("{\"buffer\":0,"@, "\"byteLength\":"@);
    assert(",\"byteOffset\":"@ =~= ","@ + "\"byteOffset\":"@);
    lemma_tb_add(","@, "\"byteOffset\":"@);
    let v = view_json(length, offset, target);
    let tt = tb(",\"target\":"@) + dec_b(target) + tb("}"@);
    let y1 = tb(",\"byteOffset\":"@) + dec_b(offset) + tt;
    assert(spliced(tb("{\"buffer\":0,"@), "\"byteLength\":"@, length, y1) =~= v);
    assert(y1[0] == 44);
    let x2 = tb("{\"buffer\":0,\"byteLength\":"@) + dec_b(length) + tb(","@);
    assert(spliced(x2, "\"byteOffset\":"@, offset, tt) =~= v);
    assert(tt[0] == 44);
}

/// Items with a comma between each two.
pub open spec fn comma_joined(items: Seq<Seq<u8>>) -> Seq<u8>
    decreases items.len(),
{
    if items.len() == 0 {
        Seq::empty()
    } else {
        comma_joined(items.drop_last()) + sep((items.len() - 1) as nat) + items.last()
    }
}

/// The JSON of the first `k` meshes, one item each.
pub open spec fn mesh_items(ms: Seq<GltfExportMesh>, k: nat) -> Seq<Seq<u8>>
    decreases k,
{
    if k == 0 {
        Seq::empty()
    } else {
        mesh_items(ms, (k - 1) as nat).push(mesh_json(ms[k - 1], (k - 1) as nat))
    }
}

/// The accessors of the first `k` meshes, three each: positions, normals,
/// indices.
pub open spec fn accessor_items(ms: Seq<GltfExportMesh>, k: nat) -> Seq<Seq<u8>>
    decreases k,
{
    if k == 0 {
        Seq::empty()
    } else {
        let j = (k - 1) as nat;
        accessor_items(ms, j) + seq![
            position_accessor_json(ms[j as int], j),
            normal_accessor_json(ms[j as int], j),
            index_accessor_json(j, mesh_indices(ms[j as int], vertex_start(ms, j)).len()),
        ]
    }
}

/// The buffer views of the first `k` meshes, three each: positions,
/// normals, indices, over consecutive blocks of the binary chunk.
pub open spec fn view_items(ms: Seq<GltfExportMesh>, k: nat) -> Seq<Seq<u8>>
    decreases k,
{
    if k == 0 {
        Seq::empty()
    } else {
        let j = (k - 1) as nat;
        let m = ms[j as int];
        let off = bin_upto(ms, j).len();
        let p = triples_bytes(m.positions@).len();
        let n = triples_bytes(m.normals@).len();
        let x = indices_bytes(mesh_indices(m, vertex_start(ms, j))).len();
        view_items(ms, j) + seq![view_json(p, off, 34962), view_json(n, off + p, 34962), view_json(x, off + p + n, 34963)]
    }
}

proof fn lemma_joined3(a: Seq<Seq<u8>>, p: Seq<u8>, q: Seq<u8>, r: Seq<u8>)
    ensures
        comma_joined(a + seq![p, q, r]) == comma_joined(a) + sep(a.len()) + p + tb(","@) + q + tb(","@) + r,
{
    let a1 = a + seq![p];
    let a2 = a + seq![p, q];
    let a3 = a + seq![p, q, r];
    assert(a3.drop_last() =~= a2);
    assert(a2.drop_last() =~= a1);
    assert(a1.drop_last() =~= a);
    assert(a3.last() == r);
    assert(a2.last() == q);
    assert(a1.last() == p);
    assert(comma_joined(a1) == comma_joined(a) + sep(a.len()) + p);
    assert(comma_joined(a2) == comma_joined(a1) + sep(a.len() + 1) + q);
    assert(comma_joined(a3) == comma_joined(a2) + sep(a.len() + 2) + r);
    assert(sep(a.len() + 1) == tb(","@));
    assert(sep(a.len() + 2) == tb(","@));
    assert(comma_joined(a3) =~= comma_joined(a) + sep(a.len()) + p + tb(","@) + q + tb(","@) + r);
}

proof fn lemma_mesh_list(ms: Seq<GltfExportMesh>, k: nat)
    requires
        k <= ms.len(),
    ensures
        mesh_items(ms, k).len() == k,
        mesh_list(ms, k) == comma_joined(mesh_items(ms, k)),
    decreases k,
{
    if k > 0 {
        let j = (k - 1) as nat;
        lemma_mesh_list(ms, j);
        assert(mesh_items(ms, k).drop_last() =~= mesh_items(ms, j));
    }
}

proof fn lemma_mesh_item(ms: Seq<GltfExportMesh>, k: nat, i: int)
    requires
        0 <= i < k <= ms.len(),
    ensures
        mesh_items(ms, k)[i] == mesh_json(ms[i], i as nat),
    decreases k,
{
    let j = (k - 1) as nat;
    lemma_mesh_list(ms, j);
    if i < j {
        lemma_mesh_item(ms, j, i);
        assert(mesh_items(ms, k)[i] == mesh_items(ms, j)[i]);
    }
}

proof fn lemma_accessor_list(ms: Seq<GltfExportMesh>, k: nat)
    requires
        k <= ms.len(),
    ensures
        accessor_items(ms, k).len() == 3 * k,
        accessor_list(ms, k) == comma_joined(accessor_items(ms, k)),
    decreases k,
{
    if k > 0 {
        let j = (k - 1) as nat;
        lemma_accessor_list(ms, j);
        let m = ms[j as int];
        let pa = position_accessor_json(m, j);
        let na = normal_accessor_json(m, j);
        let ia = index_accessor_json(j, mesh_indices(m, vertex_start(ms, j)).len());
        lemma_joined3(accessor_items(ms, j), pa, na, ia);
        assert(sep(3 * j) == sep(j));
        assert(accessor_items(ms, k) == accessor_items(ms, j) + seq![pa, na, ia]);
        assert(accessor_list(ms, k) == accessor_list(ms, j) + sep(j) + accessors_json(m, j, mesh_indices(m, vertex_start(ms, j)).len()));
        assert(accessor_list(ms, k) =~= comma_joined(accessor_items(ms, k)));
    }
}

proof fn lemma_accessor_item(ms: Seq<GltfExportMesh>, k: nat, i: int)
    requires
        0 <= i < k <= ms.len(),
    ensures
        accessor_items(ms, k)[3 * i] == position_accessor_json(ms[i], i as nat),
        accessor_items(ms, k)[3 * i + 1] == normal_accessor_json(ms[i], i as nat),
        accessor_items(ms, k)[3 * i + 2] == index_accessor_json(
            i as nat,
            mesh_indices(ms[i], vertex_start(ms, i as nat)).len(),
        ),
    decreases k,
{
    let j = (k - 1) as nat;
    lemma_accessor_list(ms, j);
    if i < j {
        lemma_accessor_item(ms, j, i);
        assert(accessor_items(ms, k)[3 * i] == accessor_items(ms, j)[3 * i]);
        assert(accessor_items(ms, k)[3 * i + 1] == accessor_items(ms, j)[3 * i + 1]);
        assert(accessor_items(ms, k)[3 * i + 2] == accessor_items(ms, j)[3 * i + 2]);
    }
}

#[verifier::spinoff_prover]
proof fn lemma_view_list(ms: Seq<GltfExportMesh>, k: nat)
    requires
        k <= ms.len(),
    ensures
        view_items(ms, k).len() == 3 * k,
        view_list(ms, k) == comma_joined(view_items(ms, k)),
    decreases k,
{
    if k > 0 {
        let j = (k - 1) as nat;
        lemma_view_list(ms, j);
        let m = ms[j as int];
        let st = vertex_start(ms, j);
        let off = bin_upto(ms, j).len();
        let p = triples_bytes(m.positions@).len();
        let n = triples_bytes(m.normals@).len();
        let x = indices_bytes(mesh_indices(m, st)).len();
        let v0 = view_json(p, off, 34962);
        let v1 = view_json(n, off + p, 34962);
        let v2 = view_json(x, off + p + n, 34963);
        lemma_joined3(view_items(ms, j), v0, v1, v2);
        assert(views_json(m, off, st) == v0 + tb(","@) + v1 + tb(","@) + v2) by {
            reveal(views_json);
        }
        assert(sep(3 * j) == sep(j));
        assert(view_items(ms, k) == view_items(ms, j) + seq![v0, v1, v2]);
        assert(view_list(ms, k) == view_list(ms, j) + sep(j) + views_json(m, off, st));
        assert(view_list(ms, k) =~= comma_joined(view_items(ms, k)));
    }
}

proof fn lemma_view_item(ms: Seq<GltfExportMesh>, k: nat, i: int)
    requires
        0 <= i < k <= ms.len(),
    ensures
        view_items(ms, k)[3 * i] == view_json(
            triples_bytes(ms[i].positions@).len(),
            bin_upto(ms, i as nat).len(),
            34962,
        ),
        view_items(ms, k)[3 * i + 1] == view_json(
            triples_bytes(ms[i].normals@).len(),
            bin_upto(ms, i as nat).len() + triples_bytes(ms[i].positions@).len(),
            34962,
        ),
        view_items(ms, k)[3 * i + 2] == view_json(
            indices_bytes(mesh_indices(ms[i], vertex_start(ms, i as nat))).len(),
            bin_upto(ms, i as nat).len() + triples_bytes(ms[i].positions@).len() + triples_bytes(ms[i].normals@).len(),
            34963,
        ),
    decreases k,
{
    let j = (k - 1) as nat;
    lemma_view_list(ms, j);
    if i < j {
        lemma_view_item(ms, j, i);
        assert(view_items(ms, k)[3 * i] == view_items(ms, j)[3 * i]);
        assert(view_items(ms, k)[3 * i + 1] == view_items(ms, j)[3 * i + 1]);
        assert(view_items(ms, k)[3 * i + 2] == view_items(ms, j)[3 * i + 2]);
    }
}

proof fn lemma_bin_prefix(ms: Seq<GltfExportMesh>, j: nat, k: nat)
    requires
        j <= k <= ms.len(),
    ensures
        bin_upto(ms, j).len() <= bin_upto(ms, k).len(),
        bin_upto(ms, k).subrange(0, bin_upto(ms, j).len() as int) == bin_upto(ms, j),
    decreases k - j,
{
    if j < k {
        lemma_bin_prefix(ms, j, (k - 1) as nat);
        let a = bin_upto(ms, (k - 1) as nat);
        assert(bin_upto(ms, k).subrange(0, a.len() as int) =~= a);
        assert(bin_upto(ms, k).subrange(0, bin_upto(ms, j).len() as int) =~= a.subrange(
            0,
            bin_upto(ms, j).len() as int,
        ));
    } else {
        assert(bin_upto(ms, k).subrange(0, bin_upto(ms, j).len() as int) =~= bin_upto(ms, j));
    }
}

/// The document with its three lists in place: `a`, then the meshes, the
/// accessors and the buffer views each in their JSON array, then `b`.
pub open spec fn with_lists(
    a: Seq<u8>,
    meshes: Seq<Seq<u8>>,
    accessors: Seq<Seq<u8>>,
    views: Seq<Seq<u8>>,
    b: Seq<u8>,
) -> Seq<u8> {
    a + tb("],\"meshes\":["@) + comma_joined(meshes) + tb("],\"accessors\":["@) + comma_joined(accessors) + tb(
        "],\"bufferViews\":["@,
    ) + comma_joined(views) + tb("],\"buffers\":[{\"byteLength\":"@) + b
}

/// The chain from mesh `i`'s attribute `key` to its data: the attribute
/// names accessor `acc`, which holds each of `marks`, counts `count` items
/// and reads buffer view `view`, which covers the bytes `off .. off + len`
/// of the binary chunk; those bytes are `data`.
pub open spec fn attribute_chain(
    ms: Seq<GltfExportMesh>,
    i: int,
    key: Seq<char>,
    count: nat,
    marks: Seq<Seq<u8>>,
    data: Seq<u8>,
    acc: nat,
    view: nat,
    off: nat,
    len: nat,
) -> bool {
    let accessors = accessor_items(ms, ms.len());
    let views = view_items(ms, ms.len());
    &&& refers(mesh_items(ms, ms.len())[i], key, acc)
    &&& acc < accessors.len()
    &&& refers(accessors[acc as int], "\"bufferView\":"@, view)
    &&& refers(accessors[acc as int], "\"count\":"@, count)
    &&& forall|j: int| 0 <= j < marks.len() ==> holds(accessors[acc as int], #[trigger] marks[j])
    &&& view < views.len()
    &&& refers(views[view as int], "\"byteOffset\":"@, off)
    &&& refers(views[view as int], "\"byteLength\":"@, len)
    &&& off + len <= gltf_bin(ms).len()
    &&& gltf_bin(ms).subrange(off as int, (off + len) as int) == data
}

/// Whether mesh `i`'s attribute `key` leads, through its accessor and
/// buffer view, to `data` in the binary chunk (see [`attribute_chain`]).
pub open spec fn attribute_reads(
    ms: Seq<GltfExportMesh>,
    i: int,
    key: Seq<char>,
    count: nat,
    marks: Seq<Seq<u8>>,
    data: Seq<u8>,
) -> bool {
    exists|acc: nat, view: nat, off: nat, len: nat| #[trigger]
        attribute_chain(ms, i, key, count, marks, data, acc, view, off, len)
}

/// In an exported glTF document, the meshes, accessors and buffer views
/// stand in their arrays, each mesh carries its own name, and each mesh's
/// attributes name its own data:
/// `POSITION` names an accessor that counts the mesh's vertices, carries
/// its bounds and reads a buffer view whose bytes of the binary chunk are
/// exactly the mesh's positions; `NORMAL` names one whose bytes are
/// exactly its normals; and its `indices` name one that counts its
/// triangle indices (the fans of its faces, numbered after the vertices of
/// the meshes before it) and whose bytes are exactly those indices.
#[verifier::spinoff_prover]
pub proof fn law_gltf_attributes_name_their_data(ms: Seq<GltfExportMesh>, i: int)
    requires
        0 <= i < ms.len(),
    ensures
        exists|a: Seq<u8>, b: Seq<u8>|
            #[trigger] with_lists(a, mesh_items(ms, ms.len()), accessor_items(ms, ms.len()), view_items(ms, ms.len()), b)
                == gltf_json(ms),
        attribute_reads(
            ms,
            i,
            "\"POSITION\":"@,
            ms[i].positions@.len(),
            seq![tb("\"max\":"@) + tb(ms[i].max_text@), tb("\"min\":"@) + tb(ms[i].min_text@)],
            triples_bytes(ms[i].positions@),
        ),
        attribute_reads(
            ms,
            i,
            "\"NORMAL\":"@,
            ms[i].normals@.len(),
            Seq::empty(),
            triples_bytes(ms[i].normals@),
        ),
        attribute_reads(
            ms,
            i,
            "\"indices\":"@,
            mesh_indices(ms[i], vertex_start(ms, i as nat)).len(),
            Seq::empty(),
            indices_bytes(mesh_indices(ms[i], vertex_start(ms, i as nat))),
        ),
        holds(mesh_items(ms, ms.len())[i], tb("\"name\":"@) + json_quoted(ms[i].name@)),
{
    let k = ms.len();
    let m = ms[i];
    lemma_mesh_list(ms, k);
    lemma_accessor_list(ms, k);
    lemma_view_list(ms, k);
    reveal(gltf_json);
    let a = tb(
        "{\"asset\":{\"generator\":\"Lili Modeler\",\"version\":\"2.0\"},\"scene\":0,\"scenes\":[{\"nodes\":["@,
    ) + scene_list(k) + tb("]}],\"nodes\":["@) + node_list(k);
    let b = dec_b(bin_upto(ms, k).len()) + tb("}]}"@);
    assert(with_lists(a, mesh_items(ms, k), accessor_items(ms, k), view_items(ms, k), b) =~= gltf_json(ms));
    let ii = i as nat;
    lemma_mesh_item(ms, k, i);
    lemma_accessor_item(ms, k, i);
    lemma_view_item(ms, k, i);
    lemma_mesh_refs(m, ii);
    lemma_accessor_refs(m, ii);
    assert(mesh_items(ms, k)[i] == mesh_json(m, ii));
    assert(accessor_items(ms, k)[3 * i] == position_accessor_json(m, ii));
    assert(view_items(ms, k)[3 * i] == view_json(triples_bytes(m.positions@).len(), bin_upto(ms, ii).len(), 34962));
    let off = bin_upto(ms, ii).len();
    let p = triples_bytes(m.positions@).len();
    let n = triples_bytes(m.normals@).len();
    lemma_view_refs(p, off, 34962);
    lemma_view_refs(n, off + p, 34962);
    lemma_bin_prefix(ms, ii + 1, k);
    let upto = bin_upto(ms, ii + 1);
    assert(upto == bin_upto(ms, ii) + triples_bytes(m.positions@) + triples_bytes(m.normals@) + indices_bytes(
        mesh_indices(m, vertex_start(ms, ii)),
    ));
    let (o, pi, ni) = (off as int, p as int, n as int);
    assert(gltf_bin(ms).subrange(o, o + pi) =~= triples_bytes(m.positions@)) by {
        assert(gltf_bin(ms).subrange(o, o + pi) =~= upto.subrange(o, o + pi));
    }
    assert(gltf_bin(ms).subrange(o + pi, o + pi + ni) =~= triples_bytes(m.normals@)) by {
        assert(gltf_bin(ms).subrange(o + pi, o + pi + ni) =~= upto.subrange(o + pi, o + pi + ni));
    }
    let marks = seq![tb("\"max\":"@) + tb(m.max_text@), tb("\"min\":"@) + tb(m.min_text@)];
    assert(attribute_chain(ms, i, "\"POSITION\":"@, m.positions@.len(), marks, triples_bytes(m.positions@), 3 * ii, 3 * ii, off, p));
    assert(view_items(ms, k)[3 * i + 1] == view_json(n, off + p, 34962));
    assert(attribute_chain(ms, i, "\"NORMAL\":"@, m.normals@.len(), Seq::empty(), triples_bytes(m.normals@), 3 * ii + 1, 3 * ii + 1, off + p, n));
    let idx = mesh_indices(m, vertex_start(ms, ii));
    let x = indices_bytes(idx).len();
    let xi = x as int;
    lemma_index_accessor_refs(ii, idx.len());
    lemma_view_refs(x, off + p + n, 34963);
    assert(gltf_bin(ms).subrange(o + pi + ni, o + pi + ni + xi) =~= indices_bytes(idx)) by {
        assert(gltf_bin(ms).subrange(o + pi + ni, o + pi + ni + xi) =~= upto.subrange(o + pi + ni, o + pi + ni + xi));
    }
    assert(attribute_chain(ms, i, "\"indices\":"@, idx.len(), Seq::empty(), indices_bytes(idx), 3 * ii + 2, 3 * ii + 2, off + p + n, x));
}

} // verus!
