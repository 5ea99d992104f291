//! Reading mesh files: binary STL records, OBJ text and the buffers of a
//! glTF document.
use vstd::prelude::*;
use vstd::std_specs::iter::IteratorSpec;
use vstd::utf8::{decode_utf8, valid_utf8};
use super::bytes::{le32, le32_at, lemma_le32_roundtrip, read_le32, zeros};
use super::exporters::{
    coords_bytes, obj_corner_word, obj_corners, obj_face_line, record_bytes, records_bytes, stl_bytes, stl_fan, StlFacet,
    StlTriangle,
};
use crate::text::decimal;
use base64::Engine;

verus! {

/// The three little-endian words at `off`.
pub open spec fn coords_at(data: Seq<u8>, off: int) -> [u32; 3] {
    [le32_at(data, off), le32_at(data, off + 4), le32_at(data, off + 8)]
}

/// The triangle record at `off`: normal, then three corners.
pub open spec fn triangle_at(data: Seq<u8>, off: int) -> StlTriangle {
    StlTriangle {
        normal: coords_at(data, off),
        corners: [coords_at(data, off + 12), coords_at(data, off + 24), coords_at(data, off + 36)],
    }
}

/// How many records are read: the count in the header, cut down to the
/// whole 50-byte records present; none without a full header.
pub open spec fn stl_count(data: Seq<u8>) -> int {
    if data.len() < 84 {
        0
    } else {
        let n = le32_at(data, 80) as int;
        let fit = (data.len() - 84) / 50;
        if n <= fit {
            n
        } else {
            fit
        }
    }
}

/// Whether every record offset the reader computes, `84 + 50 * i` for each
/// record `i` it reaches, fits in `u32`: it reaches record 85,899,345 (whose
/// offset does not) only when the count is larger and the records before it
/// are all present.
pub open spec fn stl_offsets_fit(data: Seq<u8>) -> bool {
    data.len() >= 84 ==> !(le32_at(data, 80) > 85899345 && (data.len() - 84) / 50 >= 85899345)
}

/// The triangles a binary STL file holds.
pub open spec fn stl_triangles(data: Seq<u8>) -> Seq<StlTriangle> {
    Seq::new(stl_count(data) as nat, |i: int| triangle_at(data, 84 + 50 * i))
}

fn read_coords(data: &[u8], off: usize) -> (c: [u32; 3])
    requires
        off + 12 <= data@.len(),
    ensures
        c == coords_at(data@, off as int),
{
    let n = data.len();
    assert(off + 12 <= n);
    [read_le32(data, off), read_le32(data, off + 4), read_le32(data, off + 8)]
}

/// Reads the triangle records of a binary STL file: after the 80-byte
/// header, the little-endian triangle count, then 50 bytes per triangle.
/// Reading stops at the count or at the last whole record, whichever comes
/// first. The record offsets are computed in `u32`, so a file that holds
/// more than 85,899,344 whole records and counts more than 85,899,345 is
/// left out (its offset would overflow).
pub fn parse_stl(data: &[u8]) -> (tris: Vec<StlTriangle>)
    requires
        stl_offsets_fit(data@),
    ensures
        tris@ == stl_triangles(data@),
{
    let mut tris: Vec<StlTriangle> = Vec::new();
    if data.len() < 84 {
        proof {
            assert(tris@ =~= stl_triangles(data@));
        }
        return tris;
    }
    let count = read_le32(data, 80);
    let mut i: u32 = 0;
    while i < count
        invariant
            84 <= data@.len(),
            count == le32_at(data@, 80),
            i <= count,
            i <= stl_count(data@),
            tris@.len() == i,
            forall|k: int| 0 <= k < i ==> #[trigger] tris@[k] == triangle_at(data@, 84 + 50 * k),
        ensures
            i == count || 84 + 50 * i + 50 > data@.len(),
            i <= stl_count(data@),
            tris@.len() == i,
            forall|k: int| 0 <= k < i ==> #[trigger] tris@[k] == triangle_at(data@, 84 + 50 * k),
        decreases count - i,
    {
        let n = data.len();
        proof {
            let fit = (data@.len() - 84) / 50;
            assert(50 * fit <= data@.len() - 84) by (nonlinear_arith)
                requires fit == (data@.len() - 84) / 50, data@.len() >= 84;
            assert(50 * i <= 50 * fit) by (nonlinear_arith)
                requires i <= fit;
        }
        let offset: usize = 84 + (i as usize) * 50;
        if offset > n - 50 {
            break;
        }
        proof {
            let fit = (data@.len() - 84) / 50;
            assert(i + 1 <= fit) by (nonlinear_arith)
                requires fit == (data@.len() - 84) / 50, 84 + 50 * i + 50 <= data@.len();
        }
        let normal = read_coords(data, offset);
        let c0 = read_coords(data, offset + 12);
        let c1 = read_coords(data, offset + 24);
        let c2 = read_coords(data, offset + 36);
        tris.push(StlTriangle { normal, corners: [c0, c1, c2] });
        i = i + 1;
    }
    proof {
        let fit = (data@.len() - 84) / 50;
        assert(tris@.len() == stl_count(data@)) by {
            if i < count {
                assert(i >= fit) by (nonlinear_arith)
                    requires fit == (data@.len() - 84) / 50, 84 + 50 * i + 50 > data@.len(), data@.len() >= 84;
            }
        }
        assert(tris@ =~= stl_triangles(data@));
    }
    tris
}

/// Four bytes that spell `x` read back as `x`.
proof fn lemma_le32_at_word(data: Seq<u8>, o: int, x: u32)
    requires
        0 <= o,
        o + 4 <= data.len(),
        data.subrange(o, o + 4) == le32(x),
    ensures
        le32_at(data, o) == x,
{
    let pre = data.take(o);
    let post = data.skip(o + 4);
    assert(data =~= pre + le32(x) + post);
    lemma_le32_roundtrip(x, pre, post);
}

/// Twelve bytes that spell three words read back as those words.
proof fn lemma_coords_at(data: Seq<u8>, o: int, c: [u32; 3])
    requires
        0 <= o,
        o + 12 <= data.len(),
        data.subrange(o, o + 12) == coords_bytes(c),
    ensures
        coords_at(data, o) == c,
{
    let w = data.subrange(o, o + 12);
    assert(data.subrange(o, o + 4) =~= w.subrange(0, 4));
    assert(data.subrange(o + 4, o + 8) =~= w.subrange(4, 8));
    assert(data.subrange(o + 8, o + 12) =~= w.subrange(8, 12));
    assert(w.subrange(0, 4) =~= le32(c[0]));
    assert(w.subrange(4, 8) =~= le32(c[1]));
    assert(w.subrange(8, 12) =~= le32(c[2]));
    lemma_le32_at_word(data, o, c[0]);
    lemma_le32_at_word(data, o + 4, c[1]);
    lemma_le32_at_word(data, o + 8, c[2]);
    assert(coords_at(data, o)@ =~= c@);
}

/// A record is 50 bytes: the normal's and the corners' twelve bytes each,
/// then two attribute bytes.
proof fn lemma_record_parts(t: StlTriangle)
    ensures
        record_bytes(t).len() == 50,
        record_bytes(t).subrange(0, 12) == coords_bytes(t.normal),
        record_bytes(t).subrange(12, 24) == coords_bytes(t.corners[0]),
        record_bytes(t).subrange(24, 36) == coords_bytes(t.corners[1]),
        record_bytes(t).subrange(36, 48) == coords_bytes(t.corners[2]),
{
    let a = coords_bytes(t.normal);
    let b = coords_bytes(t.corners[0]);
    let c = coords_bytes(t.corners[1]);
    let d = coords_bytes(t.corners[2]);
    let r = record_bytes(t);
    reveal(record_bytes);
    assert(a.len() == 12 && b.len() == 12 && c.len() == 12 && d.len() == 12);
    assert(r == a + b + c + d + seq![0u8, 0u8]);
    assert(r.subrange(0, 12) =~= a);
    assert(r.subrange(12, 24) =~= b);
    assert(r.subrange(24, 36) =~= c);
    assert(r.subrange(36, 48) =~= d);
}

/// The records of `ts` lie one after the other, 50 bytes each.
proof fn lemma_records_layout(ts: Seq<StlTriangle>)
    ensures
        records_bytes(ts).len() == 50 * ts.len(),
        forall|i: int|
            0 <= i < ts.len() ==> records_bytes(ts).subrange(50 * i, 50 * i + 50) == record_bytes(#[trigger] ts[i]),
    decreases ts.len(),
{
    if ts.len() > 0 {
        let init = ts.drop_last();
        lemma_records_layout(init);
        let t = ts.last();
        lemma_record_parts(t);
        assert forall|i: int|
            0 <= i < ts.len() implies records_bytes(ts).subrange(50 * i, 50 * i + 50) == record_bytes(#[trigger] ts[i]) by {
            if i < init.len() {
                assert(init[i] == ts[i]);
                assert(records_bytes(ts).subrange(50 * i, 50 * i + 50) =~= records_bytes(init).subrange(
                    50 * i,
                    50 * i + 50,
                ));
            } else {
                assert(records_bytes(ts).subrange(50 * i, 50 * i + 50) =~= record_bytes(t));
            }
        }
    }
}

/// Twelve bytes at `k` within the record at `o` are the twelve bytes at
/// `o + k` of the file.
proof fn lemma_record_word(data: Seq<u8>, o: int, k: int, c: [u32; 3])
    requires
        0 <= o,
        0 <= k,
        k + 12 <= 50,
        o + 50 <= data.len(),
        data.subrange(o, o + 50).subrange(k, k + 12) == coords_bytes(c),
    ensures
        coords_at(data, o + k) == c,
{
    assert(data.subrange(o + k, o + k + 12) =~= data.subrange(o, o + 50).subrange(k, k + 12));
    lemma_coords_at(data, o + k, c);
}

/// A written record reads back as the triangle it was written from.
proof fn lemma_stl_record(data: Seq<u8>, o: int, t: StlTriangle)
    requires
        0 <= o,
        o + 50 <= data.len(),
        data.subrange(o, o + 50).subrange(0, 12) == coords_bytes(t.normal),
        data.subrange(o, o + 50).subrange(12, 24) == coords_bytes(t.corners[0]),
        data.subrange(o, o + 50).subrange(24, 36) == coords_bytes(t.corners[1]),
        data.subrange(o, o + 50).subrange(36, 48) == coords_bytes(t.corners[2]),
    ensures
        triangle_at(data, o) == t,
{
    lemma_record_word(data, o, 0, t.normal);
    lemma_record_word(data, o, 12, t.corners[0]);
    lemma_record_word(data, o, 24, t.corners[1]);
    lemma_record_word(data, o, 36, t.corners[2]);
    let r = triangle_at(data, o);
    assert(r.corners[0] == t.corners[0]);
    assert(r.corners[1] == t.corners[1]);
    assert(r.corners[2] == t.corners[2]);
    assert(r.corners =~= t.corners);
}

/// Reading back a written binary STL file gives the fan triangles of the
/// facets written, whenever their count fits the header.
pub proof fn law_stl_roundtrip(fs: Seq<StlFacet>)
    requires
        stl_fan(fs).len() <= u32::MAX,
    ensures
        stl_triangles(stl_bytes(fs)) == stl_fan(fs),
{
    let ts = stl_fan(fs);
    lemma_records_layout(ts);
    let data = stl_bytes(fs);
    let n = ts.len() as int;
    assert(data.len() == 84 + 50 * n);
    assert(data.subrange(80, 84) =~= le32(n as u32));
    lemma_le32_at_word(data, 80, n as u32);
    assert((data.len() - 84) / 50 == n) by (nonlinear_arith)
        requires data.len() == 84 + 50 * n, n >= 0;
    assert(stl_count(data) == n);
    assert forall|i: int| 0 <= i < n implies #[trigger] triangle_at(data, 84 + 50 * i) == ts[i] by {
        assert(0 <= 50 * i && 50 * i + 50 <= 50 * n) by (nonlinear_arith)
            requires 0 <= i < n;
        assert(data.subrange(84 + 50 * i, 84 + 50 * i + 50) =~= records_bytes(ts).subrange(50 * i, 50 * i + 50));
        lemma_record_parts(ts[i]);
        lemma_stl_record(data, 84 + 50 * i, ts[i]);
    }
    assert(stl_triangles(data) =~= ts);
}

/// What `base64::engine::general_purpose::STANDARD.decode` gives for the
/// given bytes: the decoded bytes, or `None` where the input is not valid
/// padded standard-alphabet base64.
pub uninterp spec fn base64_standard_decode(input: Seq<u8>) -> Option<Seq<u8>>;

/// Calls `base64::Engine::decode` on the `STANDARD` engine (standard
/// alphabet, canonical padding). Trusted: the result is taken to be
/// [`base64_standard_decode`] of the input, a decode error becoming `None`.
#[verifier::external_body]
fn decode_base64_standard(input: &[u8]) -> (out: Option<Vec<u8>>)
    ensures
        match out {
            Some(v) => base64_standard_decode(input@) == Some(v@),
            None => base64_standard_decode(input@) is None,
        },
{
    base64::engine::general_purpose::STANDARD.decode(input).ok()
}

/// The first index at or after `from` that holds `b`, or the length.
pub open spec fn find_byte(s: Seq<u8>, b: u8, from: int) -> int
    decreases s.len() - from,
{
    if from >= s.len() {
        s.len() as int
    } else if s[from] == b {
        from
    } else {
        find_byte(s, b, from + 1)
    }
}

proof fn lemma_find_byte(s: Seq<u8>, b: u8, from: int)
    requires
        0 <= from <= s.len(),
    ensures
        from <= find_byte(s, b, from) <= s.len(),
        find_byte(s, b, from) < s.len() ==> s[find_byte(s, b, from)] == b,
        forall|k: int| from <= k < find_byte(s, b, from) ==> s[k] != b,
    decreases s.len() - from,
{
    if from < s.len() && s[from] != b {
        lemma_find_byte(s, b, from + 1);
    }
}

/// Whether a URI is a data URI: it starts with `data:`.
pub open spec fn is_data_uri(uri: Seq<u8>) -> bool {
    uri.len() >= 5 && uri.take(5) == seq![0x64u8, 0x61u8, 0x74u8, 0x61u8, 0x3Au8]
}

/// The text between the first and the second comma of a URI (to its end
/// when there is no second comma); empty when it has no comma.
pub open spec fn data_uri_payload(uri: Seq<u8>) -> Seq<u8> {
    let c1 = find_byte(uri, 0x2Cu8, 0);
    if c1 >= uri.len() {
        Seq::empty()
    } else {
        uri.subrange(c1 + 1, find_byte(uri, 0x2Cu8, c1 + 1))
    }
}

fn find_byte_from(s: &[u8], b: u8, from: usize) -> (i: usize)
    requires
        from <= s@.len(),
    ensures
        i == find_byte(s@, b, from as int),
{
    proof {
        lemma_find_byte(s@, b, from as int);
    }
    let mut i = from;
    while i < s.len() && s[i] != b
        invariant
            from <= i <= s@.len(),
            find_byte(s@, b, i as int) == find_byte(s@, b, from as int),
        decreases s@.len() - i,
    {
        i = i + 1;
    }
    i
}

/// Decodes the base64 payload of a `data:` URI (the part after its first
/// comma). `None` when the URI is not a data URI or the payload is not
/// valid base64.
pub fn decode_data_uri(uri: &[u8]) -> (out: Option<Vec<u8>>)
    ensures
        match out {
            Some(v) => is_data_uri(uri@) && base64_standard_decode(data_uri_payload(uri@)) == Some(v@),
            None => !is_data_uri(uri@) || base64_standard_decode(data_uri_payload(uri@)) is None,
        },
{
    let n = uri.len();
    if n < 5 || uri[0] != 0x64u8 || uri[1] != 0x61u8 || uri[2] != 0x74u8 || uri[3] != 0x61u8 || uri[4] != 0x3Au8 {
        proof {
            if is_data_uri(uri@) {
                assert(uri@.take(5)[0] == uri@[0]);
                assert(uri@.take(5)[1] == uri@[1]);
                assert(uri@.take(5)[2] == uri@[2]);
                assert(uri@.take(5)[3] == uri@[3]);
                assert(uri@.take(5)[4] == uri@[4]);
            }
        }
        return None;
    }
    proof {
        assert(uri@.take(5) =~= seq![0x64u8, 0x61u8, 0x74u8, 0x61u8, 0x3Au8]);
    }
    let c1 = find_byte_from(uri, 0x2Cu8, 0);
    let mut payload: Vec<u8> = Vec::new();
    if c1 < n {
        let c2 = find_byte_from(uri, 0x2Cu8, c1 + 1);
        proof {
            lemma_find_byte(uri@, 0x2Cu8, c1 + 1);
        }
        let mut k = c1 + 1;
        while k < c2
            invariant
                c1 + 1 <= k <= c2 <= uri@.len(),
                payload@ == uri@.subrange(c1 + 1, k as int),
            decreases c2 - k,
        {
            payload.push(uri[k]);
            k = k + 1;
            proof {
                assert(payload@ =~= uri@.subrange(c1 + 1, k as int));
            }
        }
    }
    proof {
        assert(payload@ =~= data_uri_payload(uri@));
    }
    decode_base64_standard(payload.as_slice())
}

/// Where a glTF buffer's bytes come from: a URI, or the binary chunk of a
/// GLB file.
pub enum BufferSource {
    Uri(Vec<u8>),
    Bin,
}

/// The buffers that can be loaded, in order: those given by a data URI whose
/// payload decodes. Other buffers are skipped.
pub open spec fn loaded_buffers(sources: Seq<BufferSource>) -> Seq<Seq<u8>>
    decreases sources.len(),
{
    if sources.len() == 0 {
        Seq::empty()
    } else {
        let rest = loaded_buffers(sources.drop_last());
        match sources.last() {
            BufferSource::Uri(uri) => if is_data_uri(uri@) && base64_standard_decode(data_uri_payload(uri@)) is Some {
                rest.push(base64_standard_decode(data_uri_payload(uri@))->0)
            } else {
                rest
            },
            BufferSource::Bin => rest,
        }
    }
}

/// Loads the glTF buffers embedded as base64 data URIs, skipping the rest.
pub fn load_buffers(sources: &Vec<BufferSource>) -> (buffers: Vec<Vec<u8>>)
    ensures
        buffers@.map_values(|b: Vec<u8>| b@) == loaded_buffers(sources@),
{
    let mut buffers: Vec<Vec<u8>> = Vec::new();
    let mut i: usize = 0;
    while i < sources.len()
        invariant
            i <= sources@.len(),
            buffers@.map_values(|b: Vec<u8>| b@) == loaded_buffers(sources@.take(i as int)),
        decreases sources@.len() - i,
    {
        proof {
            assert(sources@.take(i + 1).drop_last() =~= sources@.take(i as int));
            assert(sources@.take(i + 1).last() == sources@[i as int]);
        }
        let ghost before = buffers@;
        match &sources[i] {
            BufferSource::Uri(uri) => {
                match decode_data_uri(uri.as_slice()) {
                    Some(bytes) => {
                        buffers.push(bytes);
                        proof {
                            assert(buffers@.map_values(|b: Vec<u8>| b@) =~= before.map_values(|b: Vec<u8>| b@).push(
                                buffers@.last()@,
                            ));
                        }
                    },
                    None => {},
                }
            },
            BufferSource::Bin => {},
        }
        i = i + 1;
    }
    proof {
        assert(sources@.take(i as int) =~= sources@);
    }
    buffers
}

/// The triangles of an index list read three at a time; a last group of
/// fewer than three is dropped.
pub open spec fn index_triangles(indices: Seq<u32>) -> Seq<[u32; 3]> {
    Seq::new(indices.len() / 3, |k: int| [indices[3 * k], indices[3 * k + 1], indices[3 * k + 2]])
}

/// Groups an index list into triangles (see [`index_triangles`]).
pub fn triangles_from_indices(indices: &Vec<u32>) -> (tris: Vec<[u32; 3]>)
    ensures
        tris@ == index_triangles(indices@),
{
    let mut tris: Vec<[u32; 3]> = Vec::new();
    let n = indices.len();
    let mut i: usize = 0;
    while n - i >= 3
        invariant
            n == indices@.len(),
            i == 3 * tris@.len(),
            i <= n,
            forall|k: int| 0 <= k < tris@.len() ==> #[trigger] tris@[k] == [indices@[3 * k], indices@[3 * k + 1], indices@[3 * k + 2]],
        decreases n - i,
    {
        tris.push([indices[i], indices[i + 1], indices[i + 2]]);
        i = i + 3;
    }
    proof {
        assert(tris@.len() == n / 3);
        assert(tris@ =~= index_triangles(indices@));
    }
    tris
}

/// Calls `std::str::from_utf8`. Trusted: it accepts exactly the valid UTF-8
/// byte strings, and the accepted text's characters are the decoded bytes;
/// a rejection gives the error's message, whose wording is not stated.
#[verifier::external_body]
fn str_from_utf8(data: &[u8]) -> (r: Result<&str, String>)
    ensures
        match r {
            Ok(text) => valid_utf8(data@) && text@ == decode_utf8(data@),
            Err(_) => !valid_utf8(data@),
        },
{
    std::str::from_utf8(data).map_err(|e| e.to_string())
}

/// The characters of a string, in order.
pub fn chars_of(text: &str) -> (cs: Vec<char>)
    ensures
        cs@ == text@,
{
    broadcast use vstd::string::group_string_axioms;
    let mut cs: Vec<char> = Vec::new();
    for c in iter: text.chars()
        invariant
            iter.seq() == text@,
            cs@ == text@.take(iter.index() as int),
    {
        cs.push(c);
        proof {
            assert(cs@ =~= text@.take(iter.index() + 1));
        }
    }
    proof {
        assert(cs@ =~= text@);
    }
    cs
}

/// Whether `c` is white space in Unicode's sense, as `char::is_whitespace`
/// decides it.
pub open spec fn is_ws(c: char) -> bool {
    let u = c as u32;
    ||| 0x09 <= u <= 0x0D
    ||| u == 0x20 || u == 0x85 || u == 0xA0 || u == 0x1680
    ||| 0x2000 <= u <= 0x200A
    ||| u == 0x2028 || u == 0x2029 || u == 0x202F || u == 0x205F || u == 0x3000
}

/// Whether `c` is white space (see [`is_ws`]).
pub fn is_whitespace(c: char) -> (b: bool)
    ensures
        b == is_ws(c),
{
    let u = c as u32;
    (0x09 <= u && u <= 0x0D) || u == 0x20 || u == 0x85 || u == 0xA0 || u == 0x1680 || (0x2000 <= u
        && u <= 0x200A) || u == 0x2028 || u == 0x2029 || u == 0x202F || u == 0x205F || u == 0x3000
}

/// The words of a line: its maximal runs of characters that are not white
/// space, in order. Read left to right, a character after a word character
/// extends the last word and any other word character starts a new one.
pub open spec fn tokens(l: Seq<char>) -> Seq<Seq<char>>
    decreases l.len(),
{
    if l.len() == 0 {
        Seq::empty()
    } else if is_ws(l.last()) {
        tokens(l.drop_last())
    } else if l.len() >= 2 && !is_ws(l[l.len() - 2]) {
        let t = tokens(l.drop_last());
        t.update(t.len() - 1, t.last().push(l.last()))
    } else {
        tokens(l.drop_last()).push(seq![l.last()])
    }
}

/// The text cut at every line feed: one more piece than there are line
/// feeds. (Rust's `str::lines` differs only in blank pieces and a carriage
/// return before the line feed, which are white space to the words.)
pub open spec fn split_lines(s: Seq<char>) -> Seq<Seq<char>>
    decreases s.len(),
{
    if s.len() == 0 {
        seq![Seq::empty()]
    } else if s.last() == '\n' {
        split_lines(s.drop_last()).push(Seq::empty())
    } else {
        let ls = split_lines(s.drop_last());
        ls.update(ls.len() - 1, ls.last().push(s.last()))
    }
}

pub(crate) proof fn lemma_split_lines_len(s: Seq<char>)
    ensures
        split_lines(s).len() >= 1,
    decreases s.len(),
{
    if s.len() > 0 {
        lemma_split_lines_len(s.drop_last());
    }
}

/// Whether a character is a decimal digit.
pub open spec fn is_digit(c: char) -> bool {
    48 <= c as u32 <= 57
}

/// The number written by decimal digits.
pub open spec fn digits_value(d: Seq<char>) -> int
    decreases d.len(),
{
    if d.len() == 0 {
        0
    } else {
        digits_value(d.drop_last()) * 10 + (d.last() as u32 - 48)
    }
}

/// At least one character, all decimal digits.
pub open spec fn all_digits(d: Seq<char>) -> bool {
    d.len() > 0 && forall|k: int| 0 <= k < d.len() ==> is_digit(#[trigger] d[k])
}

/// The `i64` that digits `d` give after a sign (`neg` for minus), if they
/// are all digits and the value is in range.
pub open spec fn signed_value(neg: bool, d: Seq<char>) -> Option<int> {
    if !all_digits(d) {
        None
    } else if neg {
        if digits_value(d) <= 0x8000_0000_0000_0000 {
            Some(-digits_value(d))
        } else {
            None
        }
    } else if digits_value(d) <= 0x7FFF_FFFF_FFFF_FFFF {
        Some(digits_value(d))
    } else {
        None
    }
}

/// How `str::parse::<i64>` reads a word: an optional `+` or `-`, then one or
/// more decimal digits, the value within the range of `i64`.
pub open spec fn parse_i64(t: Seq<char>) -> Option<int> {
    if t.len() > 0 && t[0] == '-' {
        signed_value(true, t.drop_first())
    } else if t.len() > 0 && t[0] == '+' {
        signed_value(false, t.drop_first())
    } else {
        signed_value(false, t)
    }
}

proof fn lemma_digits_nonneg(d: Seq<char>)
    requires
        forall|k: int| 0 <= k < d.len() ==> is_digit(#[trigger] d[k]),
    ensures
        digits_value(d) >= 0,
    decreases d.len(),
{
    if d.len() > 0 {
        assert forall|k: int| 0 <= k < d.drop_last().len() implies is_digit(#[trigger] d.drop_last()[k]) by {
            assert(d.drop_last()[k] == d[k]);
        }
        lemma_digits_nonneg(d.drop_last());
        assert(is_digit(d[d.len() - 1]));
    }
}

/// Reads the `i64` written by `t[..end]` (see [`parse_i64`]).
fn parse_i64_prefix(t: &Vec<char>, end: usize) -> (r: Option<i64>)
    requires
        end <= t@.len(),
    ensures
        match r {
            Some(v) => parse_i64(t@.take(end as int)) == Some(v as int),
            None => parse_i64(t@.take(end as int)) is None,
        },
{
    let ghost w = t@.take(end as int);
    let mut start: usize = 0;
    let mut neg = false;
    if end > 0 && t[0] == '-' {
        neg = true;
        start = 1;
    } else if end > 0 && t[0] == '+' {
        start = 1;
    }
    let ghost d = t@.subrange(start as int, end as int);
    proof {
        if end > 0 {
            assert(w[0] == t@[0]);
        }
        if start == 1 {
            assert(w.drop_first() =~= d);
        } else {
            assert(w =~= d);
        }
        assert(parse_i64(w) == signed_value(neg, d));
    }
    if start >= end {
        return None;
    }
    let mut mag: u64 = 0;
    let mut big = false;
    let mut k = start;
    while k < end
        invariant
            start <= k <= end <= t@.len(),
            d == t@.subrange(start as int, end as int),
            parse_i64(w) == signed_value(neg, d),
            w == t@.take(end as int),
            forall|j: int| start <= j < k ==> is_digit(#[trigger] t@[j]),
            !big ==> mag == digits_value(t@.subrange(start as int, k as int)),
            mag <= 0x8000_0000_0000_0000,
            big ==> digits_value(t@.subrange(start as int, k as int)) > 0x8000_0000_0000_0000,
        decreases end - k,
    {
        let c = t[k];
        let u = c as u32;
        if u < 48 || u > 57 {
            proof {
                assert(d[k - start] == c);
                assert(!is_digit(d[k - start]));
                assert(!all_digits(d));
            }
            return None;
        }
        let dig = (u - 48) as u64;
        proof {
            let p = t@.subrange(start as int, k as int);
            let q = t@.subrange(start as int, k + 1);
            assert(q.drop_last() =~= p);
            assert(q.last() == c);
            assert(digits_value(q) == digits_value(p) * 10 + dig);
            assert forall|j: int| 0 <= j < p.len() implies is_digit(#[trigger] p[j]) by {
                assert(p[j] == t@[start + j]);
            }
            lemma_digits_nonneg(p);
        }
        if !big {
            if mag > 922_337_203_685_477_580 || (mag == 922_337_203_685_477_580 && dig > 8) {
                big = true;
            } else {
                mag = mag * 10 + dig;
            }
        }
        k = k + 1;
    }
    proof {
        assert(t@.subrange(start as int, k as int) =~= d);
        assert forall|j: int| 0 <= j < d.len() implies is_digit(#[trigger] d[j]) by {
            assert(d[j] == t@[start + j]);
        }
    }
    if big {
        return None;
    }
    if neg {
        if mag == 0x8000_0000_0000_0000 {
            Some(i64::MIN)
        } else {
            Some(-(mag as i64))
        }
    } else {
        if mag > 0x7FFF_FFFF_FFFF_FFFF {
            None
        } else {
            Some(mag as i64)
        }
    }
}

/// The first index at or after `from` that holds `c`, or the length.
pub open spec fn find_char(s: Seq<char>, c: char, from: int) -> int
    decreases s.len() - from,
{
    if from >= s.len() {
        s.len() as int
    } else if s[from] == c {
        from
    } else {
        find_char(s, c, from + 1)
    }
}

proof fn lemma_find_char(s: Seq<char>, c: char, from: int)
    requires
        0 <= from <= s.len(),
    ensures
        from <= find_char(s, c, from) <= s.len(),
    decreases s.len() - from,
{
    if from < s.len() && s[from] != c {
        lemma_find_char(s, c, from + 1);
    }
}

/// The characters of a word before its first `/` (all of them when it has none).
pub open spec fn before_slash(t: Seq<char>) -> Seq<char> {
    t.take(find_char(t, '/', 0))
}

/// The vertex a face word of an OBJ file names, among the `positions`
/// vertices read so far: the number before any `/`, counted from 1 over the
/// whole file, or from the end when it is not positive. The current object's
/// vertices are those from `base` on, and the index is given within the
/// object: `base` is taken off. `None` when the word holds no such number or
/// names no vertex of the current object.
pub open spec fn obj_index(t: Seq<char>, positions: nat, base: nat) -> Option<u32> {
    match parse_i64(before_slash(t)) {
        Some(i) => {
            let idx = if i > 0 {
                i - 1
            } else {
                positions + i
            };
            if base <= idx < positions {
                Some((idx - base) as u32)
            } else {
                None
            }
        },
        None => None,
    }
}

/// The vertices the words of a face line name, skipping words that name none.
pub open spec fn face_indices(words: Seq<Seq<char>>, positions: nat, base: nat) -> Seq<u32>
    decreases words.len(),
{
    if words.len() == 0 {
        Seq::empty()
    } else {
        let r = face_indices(words.drop_last(), positions, base);
        match obj_index(words.last(), positions, base) {
            Some(v) => r.push(v),
            None => r,
        }
    }
}

fn find_char_from(s: &Vec<char>, c: char, from: usize) -> (i: usize)
    requires
        from <= s@.len(),
    ensures
        i == find_char(s@, c, from as int),
{
    let mut i = from;
    while i < s.len() && s[i] != c
        invariant
            from <= i <= s@.len(),
            find_char(s@, c, i as int) == find_char(s@, c, from as int),
        decreases s@.len() - i,
    {
        i = i + 1;
    }
    i
}

/// The vertex index a face word names (see [`obj_index`]).
fn obj_index_of(t: &Vec<char>, positions: usize, base: usize) -> (r: Option<u32>)
    ensures
        r == obj_index(t@, positions as nat, base as nat),
{
    let e = find_char_from(t, '/', 0);
    proof {
        lemma_find_char(t@, '/', 0);
    }
    match parse_i64_prefix(t, e) {
        Some(i) => {
            let idx: i128 = if i > 0 {
                i as i128 - 1
            } else {
                positions as i128 + i as i128
            };
            if base as i128 <= idx && idx < positions as i128 {
                Some((idx - base as i128) as u32)
            } else {
                None
            }
        },
        None => None,
    }
}

/// The words of a line as sequences.
pub open spec fn words_of(w: Seq<Vec<char>>) -> Seq<Seq<char>> {
    w.map_values(|t: Vec<char>| t@)
}

fn face_ids(w: &Vec<Vec<char>>, positions: usize, base: usize) -> (ids: Vec<u32>)
    requires
        w@.len() >= 1,
    ensures
        ids@ == face_indices(words_of(w@).drop_first(), positions as nat, base as nat),
{
    let mut ids: Vec<u32> = Vec::new();
    let mut k: usize = 1;
    proof {
        assert(words_of(w@).subrange(1, 1) =~= Seq::<Seq<char>>::empty());
    }
    while k < w.len()
        invariant
            1 <= k <= w@.len(),
            ids@ == face_indices(words_of(w@).subrange(1, k as int), positions as nat, base as nat),
        decreases w@.len() - k,
    {
        proof {
            assert(words_of(w@).subrange(1, k + 1).drop_last() =~= words_of(w@).subrange(1, k as int));
            assert(words_of(w@).subrange(1, k + 1).last() == w@[k as int]@);
        }
        match obj_index_of(&w[k], positions, base) {
            Some(v) => ids.push(v),
            None => {},
        }
        k = k + 1;
    }
    proof {
        assert(words_of(w@).subrange(1, k as int) =~= words_of(w@).drop_first());
    }
    ids
}

/// One object of an OBJ file as read: its name, the three coordinate words
/// of each of its vertices, and its faces as vertex indices.
pub struct ObjModel {
    pub name: Seq<char>,
    pub vertices: Seq<Seq<Seq<char>>>,
    pub faces: Seq<Seq<u32>>,
}

/// What the OBJ reader holds between lines: the finished objects, the
/// current object's name, vertices and faces, and how many vertices all
/// objects have had so far (face words count over the whole file; the
/// faces kept count within their object).
pub struct ObjState {
    pub done: Seq<ObjModel>,
    pub name: Seq<char>,
    pub vertices: Seq<Seq<Seq<char>>>,
    pub faces: Seq<Seq<u32>>,
    pub positions: nat,
}

/// The name an object has until an `o` or `g` line names it.
pub open spec fn default_obj_name() -> Seq<char> {
    seq!['I', 'm', 'p', 'o', 'r', 't', 'e', 'd', 'O', 'B', 'J']
}

/// The reader before the first line.
pub open spec fn obj_start() -> ObjState {
    ObjState {
        done: Seq::empty(),
        name: default_obj_name(),
        vertices: Seq::empty(),
        faces: Seq::empty(),
        positions: 0,
    }
}

/// Closes the current object if it has vertices: it joins the finished
/// ones (under the current name) and a new, empty one begins.
pub open spec fn flush_object(st: ObjState) -> ObjState {
    if st.vertices.len() > 0 {
        ObjState {
            done: st.done.push(ObjModel { name: st.name, vertices: st.vertices, faces: st.faces }),
            vertices: Seq::empty(),
            faces: Seq::empty(),
            ..st
        }
    } else {
        st
    }
}

/// What one line, given by its words, does to the reader. Blank lines and
/// comments (`#`) do nothing. `o` and `g` close the current object and name
/// the next; `v` with three coordinates adds a vertex; `f` with three or
/// more words adds a face through the vertices of the current object they
/// name (numbered within the object: the vertices of the objects before it
/// are taken off), if they name at least three. Everything else (`vn`,
/// `vt`, ...) leaves the objects as they are.
pub open spec fn obj_step(st: ObjState, w: Seq<Seq<char>>) -> ObjState {
    if w.len() == 0 || w[0][0] == '#' {
        st
    } else if w[0] == seq!['o'] || w[0] == seq!['g'] {
        let f = flush_object(st);
        if w.len() > 1 {
            ObjState { name: w[1], ..f }
        } else {
            f
        }
    } else if w[0] == seq!['v'] {
        if w.len() >= 4 {
            ObjState { vertices: st.vertices.push(w.subrange(1, 4)), positions: st.positions + 1, ..st }
        } else {
            st
        }
    } else if w[0] == seq!['f'] {
        let ids = face_indices(w.drop_first(), st.positions, obj_base(st));
        if w.len() >= 4 && ids.len() >= 3 {
            ObjState { faces: st.faces.push(ids), ..st }
        } else {
            st
        }
    } else {
        st
    }
}

/// How many vertices the objects before the current one have: all read so
/// far less the current object's.
pub open spec fn obj_base(st: ObjState) -> nat {
    if st.vertices.len() <= st.positions {
        (st.positions - st.vertices.len()) as nat
    } else {
        0
    }
}

/// The reader after the given lines, in order.
pub open spec fn obj_run(st: ObjState, lines: Seq<Seq<char>>) -> ObjState
    decreases lines.len(),
{
    if lines.len() == 0 {
        st
    } else {
        obj_step(obj_run(st, lines.drop_last()), tokens(lines.last()))
    }
}

/// The objects of an OBJ text: every line read in turn, then the last
/// object closed. Objects without vertices are not kept.
pub open spec fn obj_objects(text: Seq<char>) -> Seq<ObjModel> {
    flush_object(obj_run(obj_start(), split_lines(text))).done
}

/// A vertex of an OBJ object: its three coordinate words, unparsed.
pub struct ObjVertex {
    pub x: Vec<char>,
    pub y: Vec<char>,
    pub z: Vec<char>,
}

/// An object read from an OBJ file.
pub struct ObjObject {
    pub name: Vec<char>,
    pub vertices: Vec<ObjVertex>,
    pub faces: Vec<Vec<u32>>,
}

impl ObjVertex {
    pub open spec fn words(self) -> Seq<Seq<char>> {
        seq![self.x@, self.y@, self.z@]
    }
}

impl ObjObject {
    pub open spec fn model(self) -> ObjModel {
        ObjModel {
            name: self.name@,
            vertices: self.vertices@.map_values(|v: ObjVertex| v.words()),
            faces: self.faces@.map_values(|f: Vec<u32>| f@),
        }
    }
}

/// The models of a list of objects.
pub open spec fn models_of(objs: Seq<ObjObject>) -> Seq<ObjModel> {
    objs.map_values(|o: ObjObject| o.model())
}

fn copy_chars(v: &Vec<char>) -> (r: Vec<char>)
    ensures
        r@ == v@,
{
    let mut r: Vec<char> = Vec::new();
    let mut i: usize = 0;
    while i < v.len()
        invariant
            i <= v@.len(),
            r@ == v@.take(i as int),
        decreases v@.len() - i,
    {
        r.push(v[i]);
        i = i + 1;
        proof {
            assert(r@ =~= v@.take(i as int));
        }
    }
    proof {
        assert(v@.take(i as int) =~= v@);
    }
    r
}

/// Whether a word is the single character `c`.
fn is_word(t: &Vec<char>, c: char) -> (b: bool)
    ensures
        b == (t@ == seq![c]),
{
    if t.len() == 1 && t[0] == c {
        proof {
            assert(t@ =~= seq![c]);
        }
        true
    } else {
        proof {
            if t@ == seq![c] {
                assert(t@.len() == 1 && t@[0] == c);
            }
        }
        false
    }
}

struct ObjReader {
    done: Vec<ObjObject>,
    name: Vec<char>,
    vertices: Vec<ObjVertex>,
    faces: Vec<Vec<u32>>,
    positions: usize,
}

impl ObjReader {
    spec fn state(self) -> ObjState {
        ObjState {
            done: models_of(self.done@),
            name: self.name@,
            vertices: self.vertices@.map_values(|v: ObjVertex| v.words()),
            faces: self.faces@.map_values(|f: Vec<u32>| f@),
            positions: self.positions as nat,
        }
    }

    fn new() -> (r: Self)
        ensures
            r.state() == obj_start(),
            r.vertices@.len() == 0,
            r.positions == 0,
    {
        let r = ObjReader {
            done: Vec::new(),
            name: vec!['I', 'm', 'p', 'o', 'r', 't', 'e', 'd', 'O', 'B', 'J'],
            vertices: Vec::new(),
            faces: Vec::new(),
            positions: 0,
        };
        proof {
            assert(r.state().done =~= Seq::<ObjModel>::empty());
            assert(r.state().vertices =~= Seq::<Seq<Seq<char>>>::empty());
            assert(r.state().faces =~= Seq::<Seq<u32>>::empty());
            assert(r.state().name =~= default_obj_name());
        }
        r
    }

    fn flush(&mut self)
        ensures
            final(self).state() == flush_object(old(self).state()),
            final(self).positions == old(self).positions,
            final(self).vertices@.len() <= old(self).vertices@.len(),
    {
        if self.vertices.len() > 0 {
            let mut vertices: Vec<ObjVertex> = Vec::new();
            let mut faces: Vec<Vec<u32>> = Vec::new();
            std::mem::swap(&mut vertices, &mut self.vertices);
            std::mem::swap(&mut faces, &mut self.faces);
            let name = copy_chars(&self.name);
            let ghost before = self.done@;
            self.done.push(ObjObject { name, vertices, faces });
            proof {
                assert(models_of(self.done@) =~= models_of(before).push(self.done@.last().model()));
                assert(self.state().vertices =~= Seq::<Seq<Seq<char>>>::empty());
                assert(self.state().faces =~= Seq::<Seq<u32>>::empty());
            }
        }
    }

    /// Applies one line, given by its (non-empty) words.
    fn take_line(&mut self, w: &Vec<Vec<char>>)
        requires
            old(self).positions < usize::MAX,
            old(self).vertices@.len() <= old(self).positions,
            forall|k: int| 0 <= k < w@.len() ==> (#[trigger] w@[k])@.len() > 0,
        ensures
            final(self).state() == obj_step(old(self).state(), words_of(w@)),
            final(self).positions <= old(self).positions + 1,
            final(self).vertices@.len() <= final(self).positions,
    {
        let ghost ws = words_of(w@);
        let n = w.len();
        if n == 0 {
            return;
        }
        proof {
            assert(ws[0] == w@[0]@);
        }
        let w0 = &w[0];
        if w0[0] == '#' {
            return;
        }
        if is_word(w0, 'o') || is_word(w0, 'g') {
            self.flush();
            if n > 1 {
                self.name = copy_chars(&w[1]);
                proof {
                    assert(ws[1] == w@[1]@);
                }
            }
            return;
        }
        if is_word(w0, 'v') {
            if n >= 4 {
                let v = ObjVertex { x: copy_chars(&w[1]), y: copy_chars(&w[2]), z: copy_chars(&w[3]) };
                let ghost before = self.vertices@;
                self.vertices.push(v);
                self.positions = self.positions + 1;
                proof {
                    assert(v.words() =~= ws.subrange(1, 4));
                    assert(self.vertices@.map_values(|v: ObjVertex| v.words()) =~= before.map_values(
                        |v: ObjVertex| v.words(),
                    ).push(ws.subrange(1, 4)));
                }
            }
            return;
        }
        if is_word(w0, 'f') {
            let ids = face_ids(w, self.positions, self.positions - self.vertices.len());
            if n >= 4 && ids.len() >= 3 {
                let ghost before = self.faces@;
                let ghost idv = ids@;
                self.faces.push(ids);
                proof {
                    assert(self.faces@.map_values(|f: Vec<u32>| f@) =~= before.map_values(|f: Vec<u32>| f@).push(
                        idv,
                    ));
                }
            }
            return;
        }
    }
}

/// The words of a line so far: the finished ones and, when non-empty, the
/// one being read.
spec fn open_words(line: Seq<Vec<char>>, cur: Seq<char>) -> Seq<Seq<char>> {
    if cur.len() > 0 {
        words_of(line).push(cur)
    } else {
        words_of(line)
    }
}

/// Reads the objects of an OBJ text (see [`obj_objects`]).
pub fn parse_obj(text: &Vec<char>) -> (objects: Vec<ObjObject>)
    ensures
        models_of(objects@) == obj_objects(text@),
{
    let mut r = ObjReader::new();
    let mut line: Vec<Vec<char>> = Vec::new();
    let mut cur: Vec<char> = Vec::new();
    let mut line_start: usize = 0;
    let n = text.len();
    let mut i: usize = 0;
    proof {
        assert(text@.take(0) =~= Seq::<char>::empty());
        assert(split_lines(text@.take(0)).drop_last() =~= Seq::<Seq<char>>::empty());
        assert(text@.subrange(0, 0) =~= Seq::<char>::empty());
        assert(open_words(line@, cur@) =~= Seq::<Seq<char>>::empty());
    }
    while i < n
        invariant
            n == text@.len(),
            line_start <= i <= n,
            r.positions <= line_start,
            r.vertices@.len() <= r.positions,
            (line@.len() > 0 || cur@.len() > 0) ==> line_start < i,
            forall|k: int| 0 <= k < line@.len() ==> (#[trigger] line@[k])@.len() > 0,
            cur@.len() > 0 <==> (line_start < i && !is_ws(text@[i - 1])),
            r.state() == obj_run(obj_start(), split_lines(text@.take(i as int)).drop_last()),
            split_lines(text@.take(i as int)).last() == text@.subrange(line_start as int, i as int),
            tokens(text@.subrange(line_start as int, i as int)) == open_words(line@, cur@),
        decreases n - i,
    {
        let c = text[i];
        let ghost pre = text@.take(i as int);
        let ghost l = text@.subrange(line_start as int, i as int);
        proof {
            lemma_split_lines_len(pre);
            assert(text@.take(i + 1).drop_last() =~= pre);
            assert(text@.take(i + 1).last() == c);
        }
        if c == '\n' {
            if cur.len() > 0 {
                let ghost lv = line@;
                line.push(cur);
                cur = Vec::new();
                proof {
                    assert(words_of(line@) =~= words_of(lv).push(line@.last()@));
                }
            }
            proof {
                assert(tokens(l) == words_of(line@));
                assert(split_lines(text@.take(i + 1)).drop_last() =~= split_lines(pre));
                assert(split_lines(pre) =~= split_lines(pre).drop_last().push(l));
            }
            if line.len() > 0 {
                r.take_line(&line);
            }
            line = Vec::new();
            line_start = i + 1;
            proof {
                assert(text@.subrange(line_start as int, i + 1) =~= Seq::<char>::empty());
                assert(open_words(line@, cur@) =~= Seq::<Seq<char>>::empty());
            }
        } else {
            let ws = is_whitespace(c);
            proof {
                let ls = split_lines(pre);
                assert(split_lines(text@.take(i + 1)).drop_last() =~= ls.drop_last());
                assert(text@.subrange(line_start as int, i + 1) =~= l.push(c));
                assert(l.push(c).drop_last() =~= l);
            }
            if ws {
                proof {
                    assert(tokens(l.push(c)) == tokens(l));
                }
                if cur.len() > 0 {
                    let ghost lv = line@;
                    line.push(cur);
                    cur = Vec::new();
                    proof {
                        assert(words_of(line@) =~= words_of(lv).push(line@.last()@));
                    }
                }
            } else {
                let ghost cv = cur@;
                cur.push(c);
                proof {
                    let t = tokens(l);
                    if cv.len() > 0 {
                        assert(l.push(c)[l.len() - 1] == text@[i - 1]);
                        assert(t == words_of(line@).push(cv));
                        assert(tokens(l.push(c)) == t.update(t.len() - 1, t.last().push(c)));
                        assert(t.update(t.len() - 1, t.last().push(c)) =~= words_of(line@).push(cur@));
                    } else {
                        if l.len() > 0 {
                            assert(l.push(c)[l.len() - 1] == text@[i - 1]);
                        }
                        assert(tokens(l.push(c)) == t.push(seq![c]));
                        assert(cur@ =~= seq![c]);
                    }
                }
            }
        }
        i = i + 1;
    }
    proof {
        assert(text@.take(i as int) =~= text@);
        lemma_split_lines_len(text@);
    }
    if cur.len() > 0 {
        let ghost lv = line@;
        line.push(cur);
        proof {
            assert(words_of(line@) =~= words_of(lv).push(line@.last()@));
        }
    }
    proof {
        let ls = split_lines(text@);
        assert(ls =~= ls.drop_last().push(ls.last()));
    }
    if line.len() > 0 {
        r.take_line(&line);
    }
    r.flush();
    r.done
}

/// Reads the objects of an OBJ file: the bytes must be UTF-8, else the
/// decoding error's message is returned.
pub fn import_obj(data: &[u8]) -> (r: Result<Vec<ObjObject>, String>)
    ensures
        match r {
            Ok(objects) => valid_utf8(data@) && models_of(objects@) == obj_objects(decode_utf8(data@)),
            Err(_) => !valid_utf8(data@),
        },
{
    match str_from_utf8(data) {
        Ok(text) => {
            let cs = chars_of(text);
            Ok(parse_obj(&cs))
        },
        Err(e) => Err(e),
    }
}

/// Whether every index of every face is below `n`.
pub open spec fn faces_below(faces: Seq<Seq<u32>>, n: int) -> bool {
    forall|f: int, k: int| 0 <= f < faces.len() && 0 <= k < faces[f].len() ==> (#[trigger] faces[f][k]) < n
}

/// What the reader keeps true: the current object's vertices are among
/// those read, and every face kept names a vertex of its own object.
pub open spec fn obj_state_ok(st: ObjState) -> bool {
    &&& st.vertices.len() <= st.positions
    &&& faces_below(st.faces, st.vertices.len() as int)
    &&& forall|o: int| 0 <= o < st.done.len() ==> faces_below(#[trigger] st.done[o].faces, st.done[o].vertices.len() as int)
}

proof fn lemma_face_indices_below(words: Seq<Seq<char>>, positions: nat, base: nat)
    requires
        base <= positions,
    ensures
        forall|k: int| 0 <= k < face_indices(words, positions, base).len() ==> (#[trigger] face_indices(
            words,
            positions,
            base,
        )[k]) < positions - base,
    decreases words.len(),
{
    if words.len() > 0 {
        lemma_face_indices_below(words.drop_last(), positions, base);
        let r = face_indices(words.drop_last(), positions, base);
        match obj_index(words.last(), positions, base) {
            Some(v) => {
                assert forall|k: int| 0 <= k < r.push(v).len() implies (#[trigger] r.push(v)[k]) < positions - base by {
                    if k < r.len() {
                        assert(r.push(v)[k] == r[k]);
                    }
                }
            },
            None => {},
        }
    }
}

proof fn lemma_obj_step_ok(st: ObjState, w: Seq<Seq<char>>)
    requires
        obj_state_ok(st),
    ensures
        obj_state_ok(obj_step(st, w)),
{
    let f = flush_object(st);
    assert(obj_state_ok(f)) by {
        if st.vertices.len() > 0 {
            let m = ObjModel { name: st.name, vertices: st.vertices, faces: st.faces };
            assert(f.done == st.done.push(m));
            assert forall|o: int| 0 <= o < f.done.len() implies faces_below(
                #[trigger] f.done[o].faces,
                f.done[o].vertices.len() as int,
            ) by {
                if o < st.done.len() {
                    assert(f.done[o] == st.done[o]);
                }
            }
            assert(faces_below(f.faces, f.vertices.len() as int));
        }
    }
    if w.len() == 0 || w[0][0] == '#' {
    } else if w[0] == seq!['o'] || w[0] == seq!['g'] {
    } else if w[0] == seq!['v'] {
        if w.len() >= 4 {
            let n = obj_step(st, w);
            assert forall|fi: int, k: int| 0 <= fi < n.faces.len() && 0 <= k < n.faces[fi].len() implies (#[trigger] n.faces[fi][k])
                < n.vertices.len() as int by {
                assert(st.faces[fi][k] < st.vertices.len());
            }
        }
    } else if w[0] == seq!['f'] {
        let base = obj_base(st);
        let ids = face_indices(w.drop_first(), st.positions, base);
        lemma_face_indices_below(w.drop_first(), st.positions, base);
        if w.len() >= 4 && ids.len() >= 3 {
            let n = obj_step(st, w);
            assert(n.faces == st.faces.push(ids));
            assert forall|fi: int, k: int| 0 <= fi < n.faces.len() && 0 <= k < n.faces[fi].len() implies (#[trigger] n.faces[fi][k])
                < n.vertices.len() as int by {
                if fi < st.faces.len() {
                    assert(n.faces[fi] == st.faces[fi]);
                } else {
                    assert(n.faces[fi] == ids);
                }
            }
        }
    }
}

proof fn lemma_obj_run_ok(st: ObjState, lines: Seq<Seq<char>>)
    requires
        obj_state_ok(st),
    ensures
        obj_state_ok(obj_run(st, lines)),
    decreases lines.len(),
{
    if lines.len() > 0 {
        lemma_obj_run_ok(st, lines.drop_last());
        lemma_obj_step_ok(obj_run(st, lines.drop_last()), tokens(lines.last()));
    }
}

/// Every face of every object read from an OBJ text names a vertex of that
/// object: its index is below the object's own vertex count (face words
/// count over the whole file, and the reader takes off the vertices of the
/// objects before).
pub proof fn law_obj_faces_name_vertices(text: Seq<char>)
    ensures
        forall|o: int|
            0 <= o < obj_objects(text).len() ==> faces_below(
                #[trigger] obj_objects(text)[o].faces,
                obj_objects(text)[o].vertices.len() as int,
            ),
{
    let st0 = obj_start();
    lemma_obj_run_ok(st0, split_lines(text));
    let st = obj_run(st0, split_lines(text));
    let f = flush_object(st);
    assert forall|o: int| 0 <= o < f.done.len() implies faces_below(
        #[trigger] f.done[o].faces,
        f.done[o].vertices.len() as int,
    ) by {
        if o < st.done.len() {
            assert(f.done[o] == st.done[o]);
        }
    }
}

proof fn lemma_decimal(n: nat)
    ensures
        all_digits(decimal(n)),
        digits_value(decimal(n)) == n,
    decreases n,
{
    let d = decimal(n);
    if n < 10 {
        assert(d.drop_last() =~= Seq::<char>::empty());
        assert(((48 + n) as char) as u32 == 48 + n);
        assert(digits_value(d.drop_last()) == 0);
        assert(d.last() == (48 + n) as char);
    } else {
        lemma_decimal(n / 10);
        assert(((48 + n % 10) as char) as u32 == 48 + n % 10);
        assert(d.last() == (48 + n % 10) as char);
        assert(n == (n / 10) * 10 + n % 10) by (nonlinear_arith);
        assert(digits_value(d) == digits_value(d.drop_last()) * 10 + (d.last() as u32 - 48));
        assert(d.drop_last() =~= decimal(n / 10));
        assert forall|k: int| 0 <= k < d.len() implies is_digit(#[trigger] d[k]) by {
            if k < d.len() - 1 {
                assert(d[k] == decimal(n / 10)[k]);
            }
        }
    }
}

/// A character of a written face corner: a digit or a slash.
pub(crate) open spec fn corner_char(c: char) -> bool {
    is_digit(c) || c == '/'
}

pub(crate) proof fn lemma_corner_word_chars(n: nat, uv: bool, normals: bool)
    ensures
        obj_corner_word(n, uv, normals).len() > 0,
        forall|k: int|
            0 <= k < obj_corner_word(n, uv, normals).len() ==> corner_char(#[trigger] obj_corner_word(n, uv, normals)[k]),
        forall|k: int|
            0 <= k < obj_corner_word(n, uv, normals).len() ==> !is_ws(#[trigger] obj_corner_word(n, uv, normals)[k]),
{
    lemma_decimal(n);
    let d = decimal(n);
    let w = obj_corner_word(n, uv, normals);
    assert forall|k: int| 0 <= k < w.len() implies corner_char(#[trigger] w[k]) by {
        if uv && normals {
            if k < d.len() {
                assert(w[k] == d[k]);
            } else if k == d.len() {
            } else if k < 2 * d.len() + 1 {
                assert(w[k] == d[k - d.len() - 1]);
            } else if k == 2 * d.len() + 1 {
            } else {
                assert(w[k] == d[k - 2 * d.len() - 2]);
            }
        } else if normals {
            if k < d.len() {
                assert(w[k] == d[k]);
            } else if k < d.len() + 2 {
            } else {
                assert(w[k] == d[k - d.len() - 2]);
            }
        } else {
            assert(w[k] == d[k]);
        }
    }
    assert forall|k: int| 0 <= k < w.len() implies !is_ws(#[trigger] w[k]) by {
        assert(corner_char(w[k]));
    }
}

proof fn lemma_find_char_at(s: Seq<char>, c: char, from: int, at: int)
    requires
        0 <= from <= at <= s.len(),
        forall|k: int| from <= k < at ==> s[k] != c,
        at == s.len() || s[at] == c,
    ensures
        find_char(s, c, from) == at,
    decreases at - from,
{
    if from < at {
        lemma_find_char_at(s, c, from + 1, at);
    }
}

proof fn lemma_corner_before_slash(n: nat, uv: bool, normals: bool)
    ensures
        before_slash(obj_corner_word(n, uv, normals)) == decimal(n),
{
    lemma_decimal(n);
    let d = decimal(n);
    let w = obj_corner_word(n, uv, normals);
    assert forall|k: int| 0 <= k < d.len() implies w[k] != '/' by {
        assert(w[k] == d[k]);
        assert(is_digit(d[k]));
    }
    if normals {
        assert(w[d.len() as int] == '/');
    } else {
        assert(w =~= d);
    }
    lemma_find_char_at(w, '/', 0, d.len() as int);
    assert(w.take(d.len() as int) =~= d);
}

/// The words of the corners of a written face line.
spec fn obj_corner_words(ids: Seq<u32>, offset: nat, uv: bool, normals: bool) -> Seq<Seq<char>> {
    Seq::new(ids.len(), |k: int| obj_corner_word((ids[k] + 1 + offset) as nat, uv, normals))
}

pub(crate) proof fn lemma_tokens_word(l: Seq<char>, w: Seq<char>)
    requires
        l.len() == 0 || is_ws(l.last()),
        w.len() > 0,
        forall|k: int| 0 <= k < w.len() ==> !is_ws(#[trigger] w[k]),
    ensures
        tokens(l + w) == tokens(l).push(w),
    decreases w.len(),
{
    let lw = l + w;
    if w.len() == 1 {
        assert(lw.drop_last() =~= l);
        assert(lw.last() == w[0]);
        if lw.len() >= 2 {
            assert(lw[lw.len() - 2] == l.last());
        }
        assert(seq![lw.last()] =~= w);
    } else {
        lemma_tokens_word(l, w.drop_last());
        assert(lw.drop_last() =~= l + w.drop_last());
        assert(lw.last() == w[w.len() - 1]);
        assert(lw[lw.len() - 2] == w[w.len() - 2]);
        let t = tokens(l).push(w.drop_last());
        assert(w.drop_last().push(w.last()) =~= w);
        assert(t.update(t.len() - 1, t.last().push(w.last())) =~= tokens(l).push(w));
    }
}

pub(crate) proof fn lemma_tokens_ws(l: Seq<char>, c: char)
    requires
        is_ws(c),
    ensures
        tokens(l.push(c)) == tokens(l),
{
    assert(l.push(c).drop_last() =~= l);
}

proof fn lemma_face_tokens(ids: Seq<u32>, offset: nat, uv: bool, normals: bool)
    ensures
        tokens(seq!['f', ' '] + obj_corners(ids, offset, uv, normals)) == seq![seq!['f']] + obj_corner_words(
            ids,
            offset,
            uv,
            normals,
        ),
        (seq!['f', ' '] + obj_corners(ids, offset, uv, normals)).last() == ' ',
    decreases ids.len(),
{
    let line = seq!['f', ' '] + obj_corners(ids, offset, uv, normals);
    if ids.len() == 0 {
        assert(line =~= seq!['f'].push(' '));
        lemma_tokens_ws(seq!['f'], ' ');
        lemma_tokens_word(Seq::<char>::empty(), seq!['f']);
        assert(Seq::<char>::empty() + seq!['f'] =~= seq!['f']);
        assert(obj_corner_words(ids, offset, uv, normals) =~= Seq::<Seq<char>>::empty());
        assert(seq![seq!['f']] + obj_corner_words(ids, offset, uv, normals) =~= seq![seq!['f']]);
    } else {
        let prev = seq!['f', ' '] + obj_corners(ids.drop_last(), offset, uv, normals);
        lemma_face_tokens(ids.drop_last(), offset, uv, normals);
        let n = (ids.last() + 1 + offset) as nat;
        let w = obj_corner_word(n, uv, normals);
        lemma_corner_word_chars(n, uv, normals);
        lemma_tokens_word(prev, w);
        lemma_tokens_ws(prev + w, ' ');
        assert(line =~= (prev + w).push(' '));
        let ws0 = obj_corner_words(ids.drop_last(), offset, uv, normals);
        assert(obj_corner_words(ids, offset, uv, normals) =~= ws0.push(w));
        assert(seq![seq!['f']] + ws0.push(w) =~= (seq![seq!['f']] + ws0).push(w));
    }
}

proof fn lemma_corner_index(id: u32, offset: nat, count: nat, uv: bool, normals: bool)
    requires
        id < count,
        offset + count <= 0x7FFF_FFFF_FFFF_FFFF,
    ensures
        obj_index(obj_corner_word((id + 1 + offset) as nat, uv, normals), offset + count, offset) == Some(id),
{
    let m = (id + 1 + offset) as nat;
    let d = decimal(m);
    lemma_decimal(m);
    lemma_corner_before_slash(m, uv, normals);
    assert(is_digit(d[0]));
    assert(parse_i64(d) == Some(m as int));
}

proof fn lemma_corner_indices(ids: Seq<u32>, offset: nat, count: nat, uv: bool, normals: bool)
    requires
        forall|k: int| 0 <= k < ids.len() ==> #[trigger] ids[k] < count,
        offset + count <= 0x7FFF_FFFF_FFFF_FFFF,
    ensures
        face_indices(obj_corner_words(ids, offset, uv, normals), offset + count, offset) == ids,
    decreases ids.len(),
{
    if ids.len() > 0 {
        assert(forall|k: int| 0 <= k < ids.drop_last().len() ==> #[trigger] ids.drop_last()[k] == ids[k]);
        lemma_corner_indices(ids.drop_last(), offset, count, uv, normals);
        let ws = obj_corner_words(ids, offset, uv, normals);
        assert(ws.drop_last() =~= obj_corner_words(ids.drop_last(), offset, uv, normals));
        assert(ids[ids.len() - 1] < count);
        lemma_corner_index(ids.last(), offset, count, uv, normals);
        assert(ids.drop_last().push(ids.last()) =~= ids);
    }
}

/// A face line as the OBJ writer writes it reads back as the same face:
/// given a reader whose current object's vertices come after `offset`
/// others and who has read `offset + count` vertices in all, the line of a
/// face of three or more indices below `count`, written with that offset
/// (with or without texture coordinate and normal numbers), adds exactly
/// that face, indices and order kept, and changes nothing else.
pub proof fn law_obj_face_roundtrip(st: ObjState, ids: Seq<u32>, offset: nat, count: nat, uv: bool, normals: bool)
    requires
        obj_base(st) == offset,
        st.positions == offset + count,
        offset + count <= 0x7FFF_FFFF_FFFF_FFFF,
        ids.len() >= 3,
        forall|k: int| 0 <= k < ids.len() ==> #[trigger] ids[k] < count,
    ensures
        obj_step(st, tokens(obj_face_line(ids, offset, uv, normals))) == (ObjState { faces: st.faces.push(ids), ..st }),
{
    let body = seq!['f', ' '] + obj_corners(ids, offset, uv, normals);
    assert(obj_face_line(ids, offset, uv, normals) =~= body.push('\n'));
    lemma_tokens_ws(body, '\n');
    lemma_face_tokens(ids, offset, uv, normals);
    lemma_corner_indices(ids, offset, count, uv, normals);
    let w = tokens(obj_face_line(ids, offset, uv, normals));
    let ws = obj_corner_words(ids, offset, uv, normals);
    assert(w == seq![seq!['f']] + ws);
    assert(w[0] == seq!['f']);
    assert(w.drop_first() =~= ws);
    assert(w[0][0] == 'f');
    assert(w[0] != seq!['o']) by {
        assert(seq!['o'][0] == 'o');
    }
    assert(w[0] != seq!['g']) by {
        assert(seq!['g'][0] == 'g');
    }
    assert(w[0] != seq!['v']) by {
        assert(seq!['v'][0] == 'v');
    }
}

} // verus!
