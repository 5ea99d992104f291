//! Reading the meshes of a glTF document: the `gltf` crate parses the
//! document and reads its accessors; this module first checks that the
//! document is one the crate handles without failing, then loads the
//! buffers, picks the names and groups the indices into faces.
use vstd::prelude::*;
use super::bytes::{le32_at, read_le32};
use super::importers::{
    base64_standard_decode, data_uri_payload, index_triangles, is_data_uri, load_buffers, loaded_buffers,
    triangles_from_indices, BufferSource,
};

verus! {

/// What `gltf::Gltf::from_slice` finds for the given bytes, as the sources
/// of the document's buffers in order (`Some(uri)` for a URI, `None` for
/// the GLB binary chunk); `None` where the bytes are not a valid glTF
/// document.
pub uninterp spec fn gltf_buffer_uris(data: Seq<u8>) -> Option<Seq<Option<Seq<u8>>>>;

/// What `gltf::Gltf::from_slice` finds for the given bytes, as the name and
/// the number of primitives of each mesh, in order; `None` where the bytes
/// are not a valid glTF document.
pub uninterp spec fn gltf_mesh_shapes(data: Seq<u8>) -> Option<Seq<(Option<Seq<char>>, nat)>>;

/// What the `gltf` crate's primitive reader gives for primitive `p` of mesh
/// `m` of the document in `data`, with `buffers` as the buffers' bytes: the
/// bit patterns of the positions and the indices, each where the primitive
/// has them and they can be read; `None` where the document is not valid or
/// has no such primitive.
pub uninterp spec fn gltf_primitive(data: Seq<u8>, buffers: Seq<Seq<u8>>, m: nat, p: nat) -> Option<
    (Option<Seq<[u32; 3]>>, Option<Seq<u32>>),
>;

/// What `gltf::Gltf::from_slice_without_validation` finds for the given
/// bytes, as the accessors in order: whether it is sparse, its buffer view,
/// its byte offset, its count, its component type's GL code (0 where not a
/// known one) and its number of components (0 where not a known type);
/// `None` where the bytes cannot be read as a glTF document.
pub uninterp spec fn gltf_raw_accessors(data: Seq<u8>) -> Option<Seq<(bool, Option<usize>, u64, u64, u32, usize)>>;

/// What `gltf::Gltf::from_slice_without_validation` finds for the given
/// bytes, as the buffer views in order: byte offset, byte length and byte
/// stride (0 where none is given); `None` where the bytes cannot be read as
/// a glTF document.
pub uninterp spec fn gltf_raw_views(data: Seq<u8>) -> Option<Seq<(u64, u64, usize)>>;

/// What `gltf::Gltf::from_slice_without_validation` finds for the given
/// bytes, as each mesh's primitives in order, each as the accessor its
/// `POSITION` attribute names and the accessor of its indices; `None` where
/// the bytes cannot be read as a glTF document.
pub uninterp spec fn gltf_raw_primitives(data: Seq<u8>) -> Option<Seq<Seq<(Option<usize>, Option<usize>)>>>;

/// Whether the GLB header, when the bytes start as one, gives a length that
/// covers at least the header itself (the `gltf` crate subtracts the header
/// size from it without a check).
pub open spec fn glb_header_ok(data: Seq<u8>) -> bool {
    (data.len() >= 12 && data[0] == 0x67u8 && data[1] == 0x6Cu8 && data[2] == 0x54u8 && data[3] == 0x46u8) ==> le32_at(
        data,
        8,
    ) >= 12
}

/// The size in bytes of one component of the given GL component type.
pub open spec fn component_size(code: u32) -> nat {
    if code == 5121 || code == 5120 {
        1
    } else if code == 5123 || code == 5122 {
        2
    } else {
        4
    }
}

/// Whether the `gltf` crate's accessor reader can read accessor `a` as items
/// of `size` bytes without failing: it is not sparse, it has at least one
/// item, and the stride (that of its buffer view, or `size`) is at least
/// `size`, with the byte ranges it computes within `usize`.
pub open spec fn accessor_readable(a: (bool, Option<usize>, u64, u64, u32, usize), views: Seq<(u64, u64, usize)>, size: nat) -> bool {
    &&& !a.0
    &&& a.3 >= 1
    &&& a.1 matches Some(v) ==> (v < views.len() ==> {
        let view = views[v as int];
        let stride = if view.2 == 0 {
            size
        } else {
            view.2 as nat
        };
        &&& stride >= size
        &&& a.2 + stride * (a.3 - 1) + size <= usize::MAX
        &&& view.0 + view.1 <= usize::MAX
    })
}

/// Whether a primitive's accessors are ones the crate's validation and
/// reader handle without failing: the `POSITION` accessor exists and holds
/// three 4-byte components per item; the index accessor, where it exists,
/// holds one unsigned 8, 16 or 32-bit component per item; both readable.
pub open spec fn primitive_safe(
    prim: (Option<usize>, Option<usize>),
    acc: Seq<(bool, Option<usize>, u64, u64, u32, usize)>,
    views: Seq<(u64, u64, usize)>,
) -> bool {
    &&& prim.0 matches Some(a) ==> {
        &&& a < acc.len()
        &&& (acc[a as int].4 == 5126 || acc[a as int].4 == 5125)
        &&& acc[a as int].5 == 3
        &&& accessor_readable(acc[a as int], views, 12)
    }
    &&& prim.1 matches Some(a) ==> (a < acc.len() ==> {
        &&& (acc[a as int].4 == 5121 || acc[a as int].4 == 5123 || acc[a as int].4 == 5125)
        &&& acc[a as int].5 == 1
        &&& accessor_readable(acc[a as int], views, component_size(acc[a as int].4))
    })
}

/// Whether the document in `data` is one the `gltf` crate parses, validates
/// and reads without failing (see [`primitive_safe`]).
pub open spec fn gltf_safe(data: Seq<u8>) -> bool {
    &&& glb_header_ok(data)
    &&& gltf_raw_accessors(data) is Some
    &&& gltf_raw_views(data) is Some
    &&& gltf_raw_primitives(data) is Some
    &&& forall|m: int, p: int|
        0 <= m < gltf_raw_primitives(data).unwrap().len() && 0 <= p < gltf_raw_primitives(data).unwrap()[m].len()
            ==> primitive_safe(
            #[trigger] gltf_raw_primitives(data).unwrap()[m][p],
            gltf_raw_accessors(data).unwrap(),
            gltf_raw_views(data).unwrap(),
        )
}

/// The accessors of the glTF document in `data`, read without validation
/// (see [`gltf_raw_accessors`]).
#[verifier::external_body]
fn raw_accessors(data: &[u8]) -> (r: Option<Vec<(bool, Option<usize>, u64, u64, u32, usize)>>)
    requires
        glb_header_ok(data@),
    ensures
        r matches Some(v) ==> gltf_raw_accessors(data@) == Some(v@),
        r is None ==> gltf_raw_accessors(data@) is None,
{
    let g = gltf::Gltf::from_slice_without_validation(data).ok()?;
    Some(g.as_json().accessors.iter().map(|a| (
        a.sparse.is_some(),
        a.buffer_view.map(|v| v.value()),
        a.byte_offset.unwrap_or_default().0,
        a.count.0,
        match a.component_type { gltf::json::validation::Checked::Valid(t) => t.0.as_gl_enum(), _ => 0 },
        match a.type_ { gltf::json::validation::Checked::Valid(t) => t.multiplicity(), _ => 0 },
    )).collect())
}

/// The buffer views of the glTF document in `data`, read without
/// validation (see [`gltf_raw_views`]).
#[verifier::external_body]
fn raw_views(data: &[u8]) -> (r: Option<Vec<(u64, u64, usize)>>)
    requires
        glb_header_ok(data@),
    ensures
        r matches Some(v) ==> gltf_raw_views(data@) == Some(v@),
        r is None ==> gltf_raw_views(data@) is None,
{
    let g = gltf::Gltf::from_slice_without_validation(data).ok()?;
    Some(g.as_json().buffer_views.iter().map(|v| (
        v.byte_offset.unwrap_or_default().0,
        v.byte_length.0,
        v.byte_stride.map(|s| s.0).unwrap_or(0),
    )).collect())
}

/// The primitives' accessor references of the glTF document in `data`,
/// read without validation (see [`gltf_raw_primitives`]).
#[verifier::external_body]
fn raw_primitives(data: &[u8]) -> (r: Option<Vec<Vec<(Option<usize>, Option<usize>)>>>)
    requires
        glb_header_ok(data@),
    ensures
        r matches Some(v) ==> gltf_raw_primitives(data@) == Some(v@.map_values(|q: Vec<(Option<usize>, Option<usize>)>| q@)),
        r is None ==> gltf_raw_primitives(data@) is None,
{
    let g = gltf::Gltf::from_slice_without_validation(data).ok()?;
    let pos = gltf::json::validation::Checked::Valid(gltf::Semantic::Positions);
    Some(g.as_json().meshes.iter().map(|m| m.primitives.iter().map(|p| (
        p.attributes.get(&pos).map(|i| i.value()),
        p.indices.map(|i| i.value()),
    )).collect()).collect())
}

fn glb_header_check(data: &[u8]) -> (ok: bool)
    ensures
        ok == glb_header_ok(data@),
{
    if data.len() >= 12 && data[0] == 0x67u8 && data[1] == 0x6Cu8 && data[2] == 0x54u8 && data[3] == 0x46u8 {
        read_le32(data, 8) >= 12
    } else {
        true
    }
}

fn component_size_of(code: u32) -> (n: u64)
    ensures
        n == component_size(code),
{
    if code == 5121 || code == 5120 {
        1
    } else if code == 5123 || code == 5122 {
        2
    } else {
        4
    }
}

fn accessor_check(a: &(bool, Option<usize>, u64, u64, u32, usize), views: &Vec<(u64, u64, usize)>, size: u64) -> (ok: bool)
    requires
        1 <= size <= 12,
    ensures
        ok == accessor_readable(*a, views@, size as nat),
{
    if a.0 || a.3 < 1 {
        return false;
    }
    match a.1 {
        None => true,
        Some(v) => {
            if v >= views.len() {
                return true;
            }
            let view = views[v];
            let stride: u64 = if view.2 == 0 {
                size
            } else {
                view.2 as u64
            };
            if stride < size {
                return false;
            }
            let count1 = (a.3 - 1) as u128;
            assert(stride as u128 * count1 <= u64::MAX as u128 * u64::MAX as u128) by (nonlinear_arith)
                requires
                    stride as u128 <= u64::MAX,
                    count1 <= u64::MAX,
            ;
            let span: u128 = a.2 as u128 + stride as u128 * count1 + size as u128;
            span <= usize::MAX as u128 && (view.0 as u128 + view.1 as u128) <= usize::MAX as u128
        },
    }
}

fn primitive_check(
    prim: &(Option<usize>, Option<usize>),
    acc: &Vec<(bool, Option<usize>, u64, u64, u32, usize)>,
    views: &Vec<(u64, u64, usize)>,
) -> (ok: bool)
    ensures
        ok == primitive_safe(*prim, acc@, views@),
{
    let pos_ok = match prim.0 {
        None => true,
        Some(a) => a < acc.len() && (acc[a].4 == 5126 || acc[a].4 == 5125) && acc[a].5 == 3 && accessor_check(
            &acc[a],
            views,
            12,
        ),
    };
    let idx_ok = match prim.1 {
        None => true,
        Some(a) => if a < acc.len() {
            (acc[a].4 == 5121 || acc[a].4 == 5123 || acc[a].4 == 5125) && acc[a].5 == 1 && accessor_check(
                &acc[a],
                views,
                component_size_of(acc[a].4),
            )
        } else {
            true
        },
    };
    pos_ok && idx_ok
}

/// Whether the document in `data` is one the `gltf` crate parses, validates
/// and reads without failing (see [`gltf_safe`]).
pub fn gltf_check(data: &[u8]) -> (ok: bool)
    ensures
        ok == gltf_safe(data@),
{
    if !glb_header_check(data) {
        return false;
    }
    let acc = match raw_accessors(data) {
        Some(a) => a,
        None => {
            return false;
        },
    };
    let views = match raw_views(data) {
        Some(v) => v,
        None => {
            return false;
        },
    };
    let prims = match raw_primitives(data) {
        Some(p) => p,
        None => {
            return false;
        },
    };
    let ghost ps = gltf_raw_primitives(data@).unwrap();
    let mut m: usize = 0;
    while m < prims.len()
        invariant
            m <= prims@.len(),
            ps == prims@.map_values(|q: Vec<(Option<usize>, Option<usize>)>| q@),
            glb_header_ok(data@),
            gltf_raw_accessors(data@) == Some(acc@),
            gltf_raw_views(data@) == Some(views@),
            gltf_raw_primitives(data@) == Some(ps),
            acc@ == gltf_raw_accessors(data@).unwrap(),
            views@ == gltf_raw_views(data@).unwrap(),
            forall|mm: int, p: int| 0 <= mm < m && 0 <= p < ps[mm].len() ==> primitive_safe(#[trigger] ps[mm][p], acc@, views@),
        decreases prims@.len() - m,
    {
        let mut p: usize = 0;
        while p < prims[m].len()
            invariant
                m < prims@.len(),
                p <= prims@[m as int]@.len(),
                ps == prims@.map_values(|q: Vec<(Option<usize>, Option<usize>)>| q@),
                gltf_raw_accessors(data@) == Some(acc@),
                gltf_raw_views(data@) == Some(views@),
                gltf_raw_primitives(data@) == Some(ps),
                forall|mm: int, q: int| 0 <= mm < m && 0 <= q < ps[mm].len() ==> primitive_safe(#[trigger] ps[mm][q], acc@, views@),
                forall|q: int| 0 <= q < p ==> primitive_safe(#[trigger] ps[m as int][q], acc@, views@),
            decreases prims@[m as int]@.len() - p,
        {
            if !primitive_check(&prims[m][p], &acc, &views) {
                proof {
                    assert(ps[m as int][p as int] == prims@[m as int]@[p as int]);
                    assert(!primitive_safe(ps[m as int][p as int], acc@, views@));
                    assert(ps[m as int].len() == prims@[m as int]@.len());
                    assert(!primitive_safe(
                        gltf_raw_primitives(data@).unwrap()[m as int][p as int],
                        gltf_raw_accessors(data@).unwrap(),
                        gltf_raw_views(data@).unwrap(),
                    ));
                }
                return false;
            }
            p = p + 1;
        }
        proof {
            assert forall|mm: int, q: int| 0 <= mm < m + 1 && 0 <= q < ps[mm].len() implies primitive_safe(
                #[trigger] ps[mm][q],
                acc@,
                views@,
            ) by {
                if mm == m {
                    assert(ps[mm].len() == prims@[m as int]@.len());
                }
            }
        }
        m = m + 1;
    }
    true
}

/// A buffer source as the URI bytes it names, `None` for the binary chunk.
pub open spec fn source_view(s: BufferSource) -> Option<Seq<u8>> {
    match s {
        BufferSource::Uri(u) => Some(u@),
        BufferSource::Bin => None,
    }
}

/// The sources of the buffers of the glTF document in `data` (see
/// [`gltf_buffer_uris`]), or the parser's message.
#[verifier::external_body]
fn gltf_sources(data: &[u8]) -> (r: Result<Vec<BufferSource>, String>)
    requires
        gltf_safe(data@),
    ensures
        match r {
            Ok(v) => gltf_buffer_uris(data@) == Some(v@.map_values(|s: BufferSource| source_view(s))),
            Err(_) => gltf_buffer_uris(data@) is None,
        },
{
    match gltf::Gltf::from_slice(data) {
        Ok(g) => Ok(g.buffers().map(|b| match b.source() {
            gltf::buffer::Source::Uri(uri) => BufferSource::Uri(uri.as_bytes().to_vec()),
            gltf::buffer::Source::Bin => BufferSource::Bin,
        }).collect()),
        Err(e) => Err(e.to_string()),
    }
}

/// A name and a count as the plain values [`gltf_mesh_shapes`] speaks of.
pub open spec fn shape_view(t: (Option<Vec<char>>, usize)) -> (Option<Seq<char>>, nat) {
    (
        match t.0 {
            Some(v) => Some(v@),
            None => None,
        },
        t.1 as nat,
    )
}

/// The name and the number of primitives of each mesh of the glTF document
/// in `data` (see [`gltf_mesh_shapes`]). It parses the same bytes with the
/// same function as [`gltf_sources`], so it fails exactly where that does.
#[verifier::external_body]
fn gltf_shapes(data: &[u8]) -> (r: Option<Vec<(Option<Vec<char>>, usize)>>)
    requires
        gltf_safe(data@),
    ensures
        r matches Some(v) ==> gltf_mesh_shapes(data@) == Some(v@.map_values(|t: (Option<Vec<char>>, usize)| shape_view(t))),
        r is None ==> gltf_mesh_shapes(data@) is None,
        r is Some <==> gltf_buffer_uris(data@) is Some,
{
    let g = gltf::Gltf::from_slice(data).ok()?;
    Some(g.meshes().map(|m| (m.name().map(|n| n.chars().collect()), m.primitives().len())).collect())
}

/// A primitive's reading as the plain values [`gltf_primitive`] speaks of.
pub open spec fn primitive_view(t: (Option<Vec<[u32; 3]>>, Option<Vec<u32>>)) -> (
    Option<Seq<[u32; 3]>>,
    Option<Seq<u32>>,
) {
    (
        match t.0 {
            Some(v) => Some(v@),
            None => None,
        },
        match t.1 {
            Some(v) => Some(v@),
            None => None,
        },
    )
}

/// Reads primitive `p` of mesh `m` of the glTF document in `data` with the
/// `gltf` crate's reader, the buffer of index `i` being `buffers[i]` (see
/// [`gltf_primitive`]). A buffer index past `buffers` reads as no data.
/// The document must be one the crate reads without failing (see
/// [`gltf_safe`]).
#[verifier::external_body]
fn gltf_read_primitive(data: &[u8], buffers: &Vec<Vec<u8>>, m: usize, p: usize) -> (r: Option<
    (Option<Vec<[u32; 3]>>, Option<Vec<u32>>),
>)
    requires
        gltf_safe(data@),
    ensures
        r matches Some(t) ==> gltf_primitive(data@, buffers@.map_values(|b: Vec<u8>| b@), m as nat, p as nat) == Some(
            primitive_view(t),
        ),
        r is None ==> gltf_primitive(data@, buffers@.map_values(|b: Vec<u8>| b@), m as nat, p as nat) is None,
{
    let g = gltf::Gltf::from_slice(data).ok()?;
    let prim = g.meshes().nth(m)?.primitives().nth(p)?;
    let reader = prim.reader(|b| buffers.get(b.index()).map(|v| v.as_slice()));
    let pos = reader.read_positions().map(|it| it.map(|q| [q[0].to_bits(), q[1].to_bits(), q[2].to_bits()]).collect());
    Some((pos, reader.read_indices().map(|i| i.into_u32().collect())))
}

/// A mesh read from a glTF document: its name, the bit patterns of its
/// vertices' positions, and its triangles as vertex indices.
pub struct GltfMesh {
    pub name: Vec<char>,
    pub positions: Vec<[u32; 3]>,
    pub faces: Vec<[u32; 3]>,
}

/// The name a mesh without one is given.
pub open spec fn default_gltf_name() -> Seq<char> {
    seq!['I', 'm', 'p', 'o', 'r', 't', 'e', 'd', 'G', 'L', 'T', 'F']
}

/// The buffers loaded for the document in `data`: the decodable data URIs
/// among its buffer sources (see [`loaded_buffers`]).
pub open spec fn gltf_buffers(data: Seq<u8>) -> Seq<Seq<u8>> {
    loaded_uris(gltf_buffer_uris(data).unwrap())
}

/// [`loaded_buffers`] over the sources' views.
pub open spec fn loaded_uris(uris: Seq<Option<Seq<u8>>>) -> Seq<Seq<u8>>
    decreases uris.len(),
{
    if uris.len() == 0 {
        Seq::empty()
    } else {
        let rest = loaded_uris(uris.drop_last());
        match uris.last() {
            Some(u) => if is_data_uri(u) && base64_standard_decode(data_uri_payload(u)) is Some {
                rest.push(base64_standard_decode(data_uri_payload(u))->0)
            } else {
                rest
            },
            None => rest,
        }
    }
}

proof fn lemma_loaded_views(sources: Seq<BufferSource>)
    ensures
        loaded_buffers(sources) == loaded_uris(sources.map_values(|s: BufferSource| source_view(s))),
    decreases sources.len(),
{
    if sources.len() > 0 {
        lemma_loaded_views(sources.drop_last());
        assert(sources.drop_last().map_values(|s: BufferSource| source_view(s)) =~= sources.map_values(
            |s: BufferSource| source_view(s),
        ).drop_last());
    }
}

/// What primitive `p` of mesh `m` reads, taking a missing reading as empty.
pub open spec fn prim_read(data: Seq<u8>, m: nat, p: nat) -> (Seq<[u32; 3]>, Seq<u32>) {
    match gltf_primitive(data, gltf_buffers(data), m, p) {
        Some(t) => (
            match t.0 {
                Some(s) => s,
                None => Seq::empty(),
            },
            match t.1 {
                Some(s) => s,
                None => Seq::empty(),
            },
        ),
        None => (Seq::empty(), Seq::empty()),
    }
}

/// The positions of the first `k` primitives of mesh `m`, one after another.
pub open spec fn mesh_positions(data: Seq<u8>, m: nat, k: nat) -> Seq<[u32; 3]>
    decreases k,
{
    if k == 0 {
        Seq::empty()
    } else {
        mesh_positions(data, m, (k - 1) as nat) + prim_read(data, m, (k - 1) as nat).0
    }
}

/// The triangles of the first `k` primitives of mesh `m`: each primitive's
/// indices three at a time, as they stand (not shifted by the vertices of
/// the primitives before).
pub open spec fn mesh_faces(data: Seq<u8>, m: nat, k: nat) -> Seq<[u32; 3]>
    decreases k,
{
    if k == 0 {
        Seq::empty()
    } else {
        mesh_faces(data, m, (k - 1) as nat) + index_triangles(prim_read(data, m, (k - 1) as nat).1)
    }
}

/// Mesh `m` of the document in `data`: its name (or the default), the
/// positions and the triangles of all its primitives.
pub open spec fn gltf_mesh_model(data: Seq<u8>, m: nat) -> (Seq<char>, Seq<[u32; 3]>, Seq<[u32; 3]>) {
    let shape = gltf_mesh_shapes(data).unwrap()[m as int];
    (
        match shape.0 {
            Some(n) => n,
            None => default_gltf_name(),
        },
        mesh_positions(data, m, shape.1),
        mesh_faces(data, m, shape.1),
    )
}

/// A read mesh as the values [`gltf_mesh_model`] speaks of.
pub open spec fn gltf_mesh_view(g: GltfMesh) -> (Seq<char>, Seq<[u32; 3]>, Seq<[u32; 3]>) {
    (g.name@, g.positions@, g.faces@)
}

fn copy_name(name: &Option<Vec<char>>) -> (r: Vec<char>)
    ensures
        r@ == match name {
            Some(v) => v@,
            None => default_gltf_name(),
        },
{
    match name {
        Some(v) => {
            let mut r: Vec<char> = Vec::new();
            let mut i: usize = 0;
            while i < v.len()
                invariant
                    i <= v@.len(),
                    r@ == v@.take(i as int),
                decreases v@.len() - i,
            {
                r.push(v[i]);
                i = i + 1;
                proof {
                    assert(r@ =~= v@.take(i as int));
                }
            }
            proof {
                assert(v@.take(i as int) =~= v@);
            }
            r
        },
        None => {
            let r = vec!['I', 'm', 'p', 'o', 'r', 't', 'e', 'd', 'G', 'L', 'T', 'F'];
            proof {
                assert(r@ =~= default_gltf_name());
            }
            r
        },
    }
}

/// Reads the meshes of a glTF document: the buffers embedded as data URIs
/// are loaded (see [`load_buffers`]), then each mesh's primitives are read
/// in order, their positions appended one after another and their indices
/// grouped three at a time into triangles (as they stand). A mesh without a
/// name is called `ImportedGLTF`. `Err` comes exactly where the document is
/// not one the `gltf` crate handles without failing (see [`gltf_safe`]:
/// accessors that do not exist, sparse accessors, index accessors of other
/// than unsigned integers, and the like), or is not a valid glTF document
/// (then it holds the parser's message).
pub fn gltf_mesh_data(data: &[u8]) -> (r: Result<Vec<GltfMesh>, String>)
    ensures
        match r {
            Ok(ms) => {
                &&& gltf_safe(data@)
                &&& gltf_buffer_uris(data@) is Some
                &&& ms@.len() == gltf_mesh_shapes(data@).unwrap().len()
                &&& forall|m: int| 0 <= m < ms@.len() ==> gltf_mesh_view(#[trigger] ms@[m]) == gltf_mesh_model(data@, m as nat)
            },
            Err(_) => !gltf_safe(data@) || gltf_buffer_uris(data@) is None,
        },
{
    if !gltf_check(data) {
        return Err("unsupported glTF document".to_string());
    }
    let sources = match gltf_sources(data) {
        Ok(s) => s,
        Err(e) => {
            return Err(e);
        },
    };
    let buffers = load_buffers(&sources);
    proof {
        lemma_loaded_views(sources@);
        assert(buffers@.map_values(|b: Vec<u8>| b@) == gltf_buffers(data@));
    }
    let shapes = match gltf_shapes(data) {
        Some(s) => s,
        None => {
            return Err(String::new());
        },
    };
    let ghost sv = gltf_mesh_shapes(data@).unwrap();
    let mut out: Vec<GltfMesh> = Vec::new();
    let mut m: usize = 0;
    while m < shapes.len()
        invariant
            m <= shapes@.len(),
            gltf_safe(data@),
            sv == shapes@.map_values(|t: (Option<Vec<char>>, usize)| shape_view(t)),
            sv == gltf_mesh_shapes(data@).unwrap(),
            buffers@.map_values(|b: Vec<u8>| b@) == gltf_buffers(data@),
            out@.len() == m,
            forall|q: int| 0 <= q < m ==> gltf_mesh_view(#[trigger] out@[q]) == gltf_mesh_model(data@, q as nat),
        decreases shapes@.len() - m,
    {
        let count = shapes[m].1;
        proof {
            assert(sv[m as int] == shape_view(shapes@[m as int]));
        }
        let name = copy_name(&shapes[m].0);
        let mut positions: Vec<[u32; 3]> = Vec::new();
        let mut faces: Vec<[u32; 3]> = Vec::new();
        let mut p: usize = 0;
        while p < count
            invariant
                p <= count,
                gltf_safe(data@),
                buffers@.map_values(|b: Vec<u8>| b@) == gltf_buffers(data@),
                positions@ == mesh_positions(data@, m as nat, p as nat),
                faces@ == mesh_faces(data@, m as nat, p as nat),
            decreases count - p,
        {
            let read = gltf_read_primitive(data, &buffers, m, p);
            let ghost rd = prim_read(data@, m as nat, p as nat);
            match read {
                Some(t) => {
                    match t.0 {
                        Some(ps) => {
                            let mut k: usize = 0;
                            let ghost start = positions@;
                            while k < ps.len()
                                invariant
                                    k <= ps@.len(),
                                    positions@ == start + ps@.take(k as int),
                                decreases ps@.len() - k,
                            {
                                positions.push(ps[k]);
                                k = k + 1;
                                proof {
                                    assert(positions@ =~= start + ps@.take(k as int));
                                }
                            }
                            proof {
                                assert(ps@.take(k as int) =~= ps@);
                            }
                        },
                        None => {
                            proof {
                                assert(positions@ =~= positions@ + Seq::<[u32; 3]>::empty());
                            }
                        },
                    }
                    match t.1 {
                        Some(idx) => {
                            let tris = triangles_from_indices(&idx);
                            let mut k: usize = 0;
                            let ghost start = faces@;
                            while k < tris.len()
                                invariant
                                    k <= tris@.len(),
                                    faces@ == start + tris@.take(k as int),
                                decreases tris@.len() - k,
                            {
                                faces.push(tris[k]);
                                k = k + 1;
                                proof {
                                    assert(faces@ =~= start + tris@.take(k as int));
                                }
                            }
                            proof {
                                assert(tris@.take(k as int) =~= tris@);
                            }
                        },
                        None => {
                            proof {
                                assert(index_triangles(Seq::<u32>::empty()) =~= Seq::<[u32; 3]>::empty());
                                assert(faces@ =~= faces@ + index_triangles(Seq::<u32>::empty()));
                            }
                        },
                    }
                },
                None => {
                    proof {
                        assert(index_triangles(Seq::<u32>::empty()) =~= Seq::<[u32; 3]>::empty());
                        assert(faces@ =~= faces@ + index_triangles(Seq::<u32>::empty()));
                        assert(positions@ =~= positions@ + Seq::<[u32; 3]>::empty());
                    }
                },
            }
            proof {
                assert(rd == prim_read(data@, m as nat, p as nat));
            }
            p = p + 1;
        }
        out.push(GltfMesh { name, positions, faces });
        proof {
            assert forall|q: int| 0 <= q < m + 1 implies gltf_mesh_view(#[trigger] out@[q]) == gltf_mesh_model(
                data@,
                q as nat,
            ) by {
                if q < m {
                    assert(out@[q] == out@[q]);
                }
            }
        }
        m = m + 1;
    }
    Ok(out)
}

} // verus!
