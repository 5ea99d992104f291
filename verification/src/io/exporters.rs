//! Writing mesh files: binary STL and the binary glTF (GLB) container.
use vstd::prelude::*;
use super::bytes::{le32, padded4, pad4, push_all, push_le32, push_zeros, zeros};
use crate::text::{decimal, push_decimal};

verus! {

/// One STL facet: the bit patterns of its normal's and corners' coordinates.
#[derive(Clone, Debug)]
pub struct StlFacet {
    pub normal: [u32; 3],
    pub corners: Vec<[u32; 3]>,
}

/// One STL triangle as stored: the bit patterns of its normal's and its
/// three corners' coordinates.
#[derive(Clone, Copy, Debug)]
pub struct StlTriangle {
    pub normal: [u32; 3],
    pub corners: [[u32; 3]; 3],
}

/// The twelve bytes of three coordinates.
pub open spec fn coords_bytes(c: [u32; 3]) -> Seq<u8> {
    le32(c[0]) + le32(c[1]) + le32(c[2])
}

/// How many fan triangles a facet of `n` corners gives: `n - 2`, none for
/// fewer than three corners.
pub open spec fn fan_count(n: int) -> int {
    if n >= 3 {
        n - 2
    } else {
        0
    }
}

/// The fan triangles of a facet: corner 0 with corners `i + 1` and `i + 2`,
/// each with the facet's normal.
pub open spec fn fan_of(f: StlFacet) -> Seq<StlTriangle> {
    Seq::new(
        fan_count(f.corners@.len() as int) as nat,
        |i: int| StlTriangle { normal: f.normal, corners: [f.corners@[0], f.corners@[i + 1], f.corners@[i + 2]] },
    )
}

/// The triangles of all facets, in order.
pub open spec fn stl_fan(fs: Seq<StlFacet>) -> Seq<StlTriangle>
    decreases fs.len(),
{
    if fs.len() == 0 {
        Seq::empty()
    } else {
        stl_fan(fs.drop_last()) + fan_of(fs.last())
    }
}

/// A 50-byte triangle record: normal, three corners, two zero attribute
/// bytes.
#[verifier::opaque]
pub open spec fn record_bytes(t: StlTriangle) -> Seq<u8> {
    coords_bytes(t.normal) + coords_bytes(t.corners[0]) + coords_bytes(t.corners[1]) + coords_bytes(t.corners[2])
        + seq![0u8, 0u8]
}

/// The records of a list of triangles.
pub open spec fn records_bytes(ts: Seq<StlTriangle>) -> Seq<u8>
    decreases ts.len(),
{
    if ts.len() == 0 {
        Seq::empty()
    } else {
        records_bytes(ts.drop_last()) + record_bytes(ts.last())
    }
}

/// A binary STL file: an 80-byte zero header, the triangle count, then one
/// record per fan triangle of the facets.
pub open spec fn stl_bytes(fs: Seq<StlFacet>) -> Seq<u8> {
    zeros(80) + le32(stl_fan(fs).len() as u32) + records_bytes(stl_fan(fs))
}

fn push_coords(out: &mut Vec<u8>, c: &[u32; 3])
    ensures
        final(out)@ == old(out)@ + coords_bytes(*c),
{
    push_le32(out, c[0]);
    push_le32(out, c[1]);
    push_le32(out, c[2]);
    proof {
        assert(final(out)@ =~= old(out)@ + coords_bytes(*c));
    }
}

fn push_record(out: &mut Vec<u8>, t: &StlTriangle)
    ensures
        final(out)@ == old(out)@ + record_bytes(*t),
{
    push_coords(out, &t.normal);
    push_coords(out, &t.corners[0]);
    push_coords(out, &t.corners[1]);
    push_coords(out, &t.corners[2]);
    out.push(0u8);
    out.push(0u8);
    proof {
        reveal(record_bytes);
        assert(final(out)@ =~= old(out)@ + record_bytes(*t));
    }
}

/// The fan triangles of all facets (see [`stl_fan`]).
fn fan_triangles(facets: &Vec<StlFacet>) -> (tris: Vec<StlTriangle>)
    ensures
        tris@ == stl_fan(facets@),
{
    let mut tris: Vec<StlTriangle> = Vec::new();
    let mut i: usize = 0;
    while i < facets.len()
        invariant
            i <= facets@.len(),
            tris@ == stl_fan(facets@.take(i as int)),
        decreases facets@.len() - i,
    {
        let f = &facets[i];
        let ghost before = tris@;
        let n = f.corners.len();
        if n >= 3 {
            let mut k: usize = 0;
            while k < n - 2
                invariant
                    n == f.corners@.len(),
                    n >= 3,
                    k <= n - 2,
                    tris@ == before + fan_of(*f).take(k as int),
                decreases n - 2 - k,
            {
                tris.push(StlTriangle { normal: f.normal, corners: [f.corners[0], f.corners[k + 1], f.corners[k + 2]] });
                proof {
                    assert(tris@ =~= before + fan_of(*f).take(k + 1));
                }
                k = k + 1;
            }
            proof {
                assert(fan_of(*f).take(k as int) =~= fan_of(*f));
            }
        } else {
            proof {
                assert(fan_of(*f) =~= Seq::<StlTriangle>::empty());
                assert(tris@ =~= before + fan_of(*f));
            }
        }
        proof {
            assert(facets@.take(i + 1).drop_last() =~= facets@.take(i as int));
            assert(facets@.take(i + 1).last() == *f);
        }
        i = i + 1;
    }
    proof {
        assert(facets@.take(i as int) =~= facets@);
    }
    tris
}

/// Writes a binary STL file: each facet of `n >= 3` corners becomes its
/// `n - 2` fan triangles, one 50-byte record each; facets of fewer corners
/// are left out. The triangle count must fit the header's `u32`.
pub fn write_stl(facets: &Vec<StlFacet>) -> (out: Vec<u8>)
    requires
        stl_fan(facets@).len() <= u32::MAX,
    ensures
        out@ == stl_bytes(facets@),
{
    let tris = fan_triangles(facets);
    let mut out: Vec<u8> = Vec::new();
    push_zeros(&mut out, 80);
    push_le32(&mut out, tris.len() as u32);
    let ghost head = out@;
    let mut i: usize = 0;
    proof {
        assert(head + records_bytes(tris@.take(0)) =~= head);
    }
    while i < tris.len()
        invariant
            i <= tris@.len(),
            out@ == head + records_bytes(tris@.take(i as int)),
        decreases tris@.len() - i,
    {
        let t = &tris[i];
        push_record(&mut out, t);
        proof {
            assert(tris@.take(i + 1).drop_last() =~= tris@.take(i as int));
            assert(tris@.take(i + 1).last() == *t);
            assert(out@ =~= head + records_bytes(tris@.take(i + 1)));
        }
        i = i + 1;
    }
    proof {
        assert(tris@.take(i as int) =~= tris@);
        assert(out@ =~= stl_bytes(facets@));
    }
    out
}

/// A GLB file with the given JSON and binary chunks, each zero-padded to a
/// multiple of four bytes: the 12-byte header (magic `glTF`, version 2, total
/// length), then each chunk as its padded length, its type (`JSON`,
/// `BIN\0`) and its padded data.
pub open spec fn glb_bytes(json: Seq<u8>, bin: Seq<u8>) -> Seq<u8> {
    let pj = padded4(json.len());
    let pb = padded4(bin.len());
    seq![0x67u8, 0x6Cu8, 0x54u8, 0x46u8] + seq![2u8, 0u8, 0u8, 0u8] + le32((28 + pj + pb) as u32) + le32(
        pj as u32,
    ) + seq![0x4Au8, 0x53u8, 0x4Fu8, 0x4Eu8] + json + zeros((pj - json.len()) as nat) + le32(pb as u32) + seq![
        0x42u8,
        0x49u8,
        0x4Eu8,
        0x00u8,
    ] + bin + zeros((pb - bin.len()) as nat)
}

/// Frames JSON and binary chunks as a GLB file (see [`glb_bytes`]). The
/// whole file must fit the format's `u32` length.
pub fn glb_container(json_bytes: &[u8], bin_data: &[u8]) -> (glb: Vec<u8>)
    requires
        28 + padded4(json_bytes@.len()) + padded4(bin_data@.len()) <= u32::MAX,
    ensures
        glb@ == glb_bytes(json_bytes@, bin_data@),
{
    let mut glb: Vec<u8> = Vec::new();
    glb.push(0x67u8);
    glb.push(0x6Cu8);
    glb.push(0x54u8);
    glb.push(0x46u8);
    glb.push(0x02u8);
    glb.push(0x00u8);
    glb.push(0x00u8);
    glb.push(0x00u8);
    let json_padded_len = pad4(json_bytes.len());
    let bin_padded_len = pad4(bin_data.len());
    let total_len = (28 + json_padded_len + bin_padded_len) as u32;
    push_le32(&mut glb, total_len);
    push_le32(&mut glb, json_padded_len as u32);
    glb.push(0x4Au8);
    glb.push(0x53u8);
    glb.push(0x4Fu8);
    glb.push(0x4Eu8);
    push_all(&mut glb, json_bytes);
    push_zeros(&mut glb, json_padded_len - json_bytes.len());
    push_le32(&mut glb, bin_padded_len as u32);
    glb.push(0x42u8);
    glb.push(0x49u8);
    glb.push(0x4Eu8);
    glb.push(0x00u8);
    push_all(&mut glb, bin_data);
    push_zeros(&mut glb, bin_padded_len - bin_data.len());
    proof {
        assert(glb@ =~= glb_bytes(json_bytes@, bin_data@));
    }
    glb
}

/// One corner of an OBJ face line: the 1-based vertex number, repeated
/// for the texture coordinate and the normal when those are written
/// (`n/n/n` with both, `n//n` with normals only, `n` otherwise), and a space.
pub open spec fn obj_corner(idx: nat, uv: bool, normals: bool) -> Seq<char> {
    obj_corner_word(idx, uv, normals) + seq![' ']
}

/// The word of one corner of an OBJ face line (see [`obj_corner`]).
pub open spec fn obj_corner_word(idx: nat, uv: bool, normals: bool) -> Seq<char> {
    let d = decimal(idx);
    if uv && normals {
        d + seq!['/'] + d + seq!['/'] + d
    } else if normals {
        d + seq!['/', '/'] + d
    } else {
        d
    }
}

/// The corners of a face whose vertices come after `offset` vertices of
/// the objects written before.
pub open spec fn obj_corners(ids: Seq<u32>, offset: nat, uv: bool, normals: bool) -> Seq<char>
    decreases ids.len(),
{
    if ids.len() == 0 {
        Seq::empty()
    } else {
        obj_corners(ids.drop_last(), offset, uv, normals) + obj_corner((ids.last() + 1 + offset) as nat, uv, normals)
    }
}

/// An OBJ face line: `f `, the corners, and a line end.
pub open spec fn obj_face_line(ids: Seq<u32>, offset: nat, uv: bool, normals: bool) -> Seq<char> {
    seq!['f', ' '] + obj_corners(ids, offset, uv, normals) + seq!['\n']
}

/// Writes the OBJ face line of a face (see [`obj_face_line`]); OBJ numbers
/// vertices from 1 over the whole file, so `offset` is the number of
/// vertices written before this object's.
pub fn write_obj_face(vertex_ids: &[u32], offset: usize, uv: bool, normals: bool) -> (line: Vec<char>)
    requires
        forall|k: int| 0 <= k < vertex_ids@.len() ==> #[trigger] vertex_ids@[k] + 1 + offset <= usize::MAX,
    ensures
        line@ == obj_face_line(vertex_ids@, offset as nat, uv, normals),
{
    let mut line: Vec<char> = vec!['f', ' '];
    let mut i: usize = 0;
    proof {
        assert(obj_corners(vertex_ids@.take(0), offset as nat, uv, normals) =~= Seq::<char>::empty());
        assert(line@ =~= seq!['f', ' '] + obj_corners(vertex_ids@.take(0), offset as nat, uv, normals));
    }
    while i < vertex_ids.len()
        invariant
            i <= vertex_ids@.len(),
            forall|k: int| 0 <= k < vertex_ids@.len() ==> #[trigger] vertex_ids@[k] + 1 + offset <= usize::MAX,
            line@ == seq!['f', ' '] + obj_corners(vertex_ids@.take(i as int), offset as nat, uv, normals),
        decreases vertex_ids@.len() - i,
    {
        let ghost before = line@;
        let idx = vertex_ids[i] as usize + 1 + offset;
        push_decimal(&mut line, idx);
        if uv && normals {
            line.push('/');
            push_decimal(&mut line, idx);
            line.push('/');
            push_decimal(&mut line, idx);
        } else if normals {
            line.push('/');
            line.push('/');
            push_decimal(&mut line, idx);
        }
        line.push(' ');
        proof {
            assert(vertex_ids@.take(i + 1).drop_last() =~= vertex_ids@.take(i as int));
            assert(vertex_ids@.take(i + 1).last() == vertex_ids@[i as int]);
            assert(line@ =~= before + obj_corner(idx as nat, uv, normals));
        }
        i = i + 1;
    }
    line.push('\n');
    proof {
        assert(vertex_ids@.take(i as int) =~= vertex_ids@);
        assert(line@ =~= obj_face_line(vertex_ids@, offset as nat, uv, normals));
    }
    line
}

} // verus!
