//! Writing OBJ text: one block of lines per object, whose coordinate words
//! are given, and what reading that text back gives.
use vstd::prelude::*;
use super::exporters::{obj_corner_word, obj_corners, write_obj_face};
use super::importers::{
    flush_object, is_ws, law_obj_face_roundtrip, lemma_corner_word_chars, lemma_split_lines_len, lemma_tokens_word,
    lemma_tokens_ws, obj_base,
    obj_objects, obj_run, obj_start, obj_step, split_lines, tokens, ObjModel, ObjState, ObjVertex,
};

verus! {

/// The two coordinate words of a texture coordinate.
pub struct ObjTexcoord {
    pub u: Vec<char>,
    pub v: Vec<char>,
}

/// An object to write as OBJ: its name, the coordinate words of its
/// vertices, texture coordinates and normals, and its faces as vertex
/// indices within the object.
pub struct ObjExportObject {
    pub name: Vec<char>,
    pub vertices: Vec<ObjVertex>,
    pub texcoords: Vec<ObjTexcoord>,
    pub normals: Vec<ObjVertex>,
    pub faces: Vec<Vec<u32>>,
}

impl ObjExportObject {
    /// What reading the object back should give: its name, vertex words
    /// and faces.
    pub open spec fn model(self) -> ObjModel {
        ObjModel {
            name: self.name@,
            vertices: self.vertices@.map_values(|v: ObjVertex| v.words()),
            faces: self.faces@.map_values(|f: Vec<u32>| f@),
        }
    }
}

/// A line of words: the first, then each other after one space.
pub open spec fn words_line(head: Seq<char>, rest: Seq<Seq<char>>) -> Seq<char>
    decreases rest.len(),
{
    if rest.len() == 0 {
        head
    } else {
        words_line(head, rest.drop_last()) + seq![' '] + rest.last()
    }
}

/// Lines joined into text, each ended by a line feed.
pub open spec fn lines_text(ls: Seq<Seq<char>>) -> Seq<char>
    decreases ls.len(),
{
    if ls.len() == 0 {
        Seq::empty()
    } else {
        lines_text(ls.drop_last()) + ls.last() + seq!['\n']
    }
}

/// The comment line an OBJ file starts with.
pub open spec fn obj_header() -> Seq<char> {
    words_line(
        seq!['#'],
        seq![
            seq!['E', 'x', 'p', 'o', 'r', 't', 'e', 'd'],
            seq!['b', 'y'],
            seq!['L', 'i', 'l', 'i'],
            seq!['M', 'o', 'd', 'e', 'l', 'e', 'r'],
        ],
    )
}

/// One line per vertex: `head` and its three coordinate words.
pub open spec fn vertex_lines(head: Seq<char>, vs: Seq<ObjVertex>) -> Seq<Seq<char>> {
    Seq::new(vs.len(), |k: int| words_line(head, vs[k].words()))
}

/// One `vt` line per texture coordinate.
pub open spec fn texcoord_lines(ts: Seq<ObjTexcoord>) -> Seq<Seq<char>> {
    Seq::new(ts.len(), |k: int| words_line(seq!['v', 't'], seq![ts[k].u@, ts[k].v@]))
}

/// One face line per face (see [`obj_face_line`](super::exporters::obj_face_line)).
pub open spec fn face_lines(faces: Seq<Vec<u32>>, offset: nat, uv: bool, normals: bool) -> Seq<Seq<char>> {
    Seq::new(faces.len(), |k: int| seq!['f', ' '] + obj_corners(faces[k]@, offset, uv, normals))
}

/// The lines of one object whose vertices come after `offset` others: its
/// `o` line, its `v` lines, its `vt` and `vn` lines, and its face lines.
pub open spec fn object_lines(o: ObjExportObject, offset: nat, uv: bool, normals: bool) -> Seq<Seq<char>> {
    seq![words_line(seq!['o'], seq![o.name@])] + vertex_lines(seq!['v'], o.vertices@) + texcoord_lines(o.texcoords@)
        + vertex_lines(seq!['v', 'n'], o.normals@) + face_lines(o.faces@, offset, uv, normals)
}

/// How many vertices the objects have in all.
pub open spec fn total_vertices(objs: Seq<ObjExportObject>) -> nat
    decreases objs.len(),
{
    if objs.len() == 0 {
        0
    } else {
        total_vertices(objs.drop_last()) + objs.last().vertices@.len()
    }
}

/// The lines of the objects in turn, each numbering its vertices after
/// those of the objects before it.
pub open spec fn objects_lines(objs: Seq<ObjExportObject>, uv: bool, normals: bool) -> Seq<Seq<char>>
    decreases objs.len(),
{
    if objs.len() == 0 {
        Seq::empty()
    } else {
        objects_lines(objs.drop_last(), uv, normals) + object_lines(
            objs.last(),
            total_vertices(objs.drop_last()),
            uv,
            normals,
        )
    }
}

/// The text of an OBJ file: the header line, then each object's lines.
pub open spec fn obj_text(objs: Seq<ObjExportObject>, uv: bool, normals: bool) -> Seq<char> {
    lines_text(seq![obj_header()] + objects_lines(objs, uv, normals))
}

/// Whether every face index, numbered over the whole file, fits a `usize`.
pub open spec fn obj_export_fits(objs: Seq<ObjExportObject>) -> bool {
    &&& total_vertices(objs) <= usize::MAX
    &&& forall|i: int, f: int, k: int|
        0 <= i < objs.len() && 0 <= f < objs[i].faces@.len() && 0 <= k < objs[i].faces@[f]@.len() ==> (
        #[trigger] objs[i].faces@[f]@[k]) + 1 + total_vertices(objs.take(i)) <= usize::MAX
}

fn push_chars(out: &mut Vec<char>, s: &Vec<char>)
    ensures
        final(out)@ == old(out)@ + s@,
{
    let mut i: usize = 0;
    while i < s.len()
        invariant
            i <= s@.len(),
            out@ == old(out)@ + s@.take(i as int),
        decreases s@.len() - i,
    {
        out.push(s[i]);
        i = i + 1;
        proof {
            assert(out@ =~= old(out)@ + s@.take(i as int));
        }
    }
    proof {
        assert(s@.take(i as int) =~= s@);
    }
}

fn push_vertex_line(out: &mut Vec<char>, normal: bool, v: &ObjVertex)
    ensures
        final(out)@ == old(out)@ + words_line(if normal { seq!['v', 'n'] } else { seq!['v'] }, v.words()) + seq!['\n'],
{
    out.push('v');
    if normal {
        out.push('n');
    }
    out.push(' ');
    push_chars(out, &v.x);
    out.push(' ');
    push_chars(out, &v.y);
    out.push(' ');
    push_chars(out, &v.z);
    out.push('\n');
    proof {
        let head = if normal { seq!['v', 'n'] } else { seq!['v'] };
        let ws = v.words();
        assert(ws.drop_last().drop_last().drop_last() =~= Seq::<Seq<char>>::empty());
        assert(ws.drop_last().drop_last() =~= seq![v.x@]);
        assert(ws.drop_last() =~= seq![v.x@, v.y@]);
        let w1 = words_line(head, ws.drop_last().drop_last());
        let w2 = words_line(head, ws.drop_last());
        assert(words_line(head, ws.drop_last().drop_last().drop_last()) == head);
        assert(w1 == head + seq![' '] + v.x@);
        assert(w2 == w1 + seq![' '] + v.y@);
        assert(words_line(head, ws) == w2 + seq![' '] + v.z@);
        assert(out@ =~= old(out)@ + words_line(head, ws) + seq!['\n']);
    }
}

fn push_texcoord_line(out: &mut Vec<char>, t: &ObjTexcoord)
    ensures
        final(out)@ == old(out)@ + words_line(seq!['v', 't'], seq![t.u@, t.v@]) + seq!['\n'],
{
    out.push('v');
    out.push('t');
    out.push(' ');
    push_chars(out, &t.u);
    out.push(' ');
    push_chars(out, &t.v);
    out.push('\n');
    proof {
        let ws = seq![t.u@, t.v@];
        assert(ws.drop_last().drop_last() =~= Seq::<Seq<char>>::empty());
        assert(ws.drop_last() =~= seq![t.u@]);
        let w1 = words_line(seq!['v', 't'], ws.drop_last());
        assert(words_line(seq!['v', 't'], ws.drop_last().drop_last()) == seq!['v', 't']);
        assert(w1 == seq!['v', 't'] + seq![' '] + t.u@);
        assert(words_line(seq!['v', 't'], ws) == w1 + seq![' '] + t.v@);
        assert(out@ =~= old(out)@ + words_line(seq!['v', 't'], ws) + seq!['\n']);
    }
}

proof fn lemma_lines_text_push(ls: Seq<Seq<char>>, l: Seq<char>)
    ensures
        lines_text(ls.push(l)) == lines_text(ls) + l + seq!['\n'],
{
    assert(ls.push(l).drop_last() =~= ls);
}

proof fn lemma_lines_text_append(a: Seq<Seq<char>>, b: Seq<Seq<char>>)
    ensures
        lines_text(a + b) == lines_text(a) + lines_text(b),
    decreases b.len(),
{
    if b.len() == 0 {
        assert(a + b =~= a);
        assert(lines_text(a) + lines_text(b) =~= lines_text(a));
    } else {
        lemma_lines_text_append(a, b.drop_last());
        assert((a + b).drop_last() =~= a + b.drop_last());
        assert((a + b).last() == b.last());
        assert(lines_text(a + b) =~= lines_text(a) + lines_text(b));
    }
}

/// Pushes one line per vertex (see [`vertex_lines`]).
fn push_lines_of_vertices(out: &mut Vec<char>, normal: bool, vs: &Vec<ObjVertex>)
    ensures
        final(out)@ == old(out)@ + lines_text(
            vertex_lines(if normal { seq!['v', 'n'] } else { seq!['v'] }, vs@),
        ),
{
    let ghost head = if normal { seq!['v', 'n'] } else { seq!['v'] };
    let mut i: usize = 0;
    proof {
        assert(vertex_lines(head, vs@.take(0)) =~= Seq::<Seq<char>>::empty());
    }
    while i < vs.len()
        invariant
            i <= vs@.len(),
            head == (if normal { seq!['v', 'n'] } else { seq!['v'] }),
            out@ == old(out)@ + lines_text(vertex_lines(head, vs@.take(i as int))),
        decreases vs@.len() - i,
    {
        push_vertex_line(out, normal, &vs[i]);
        proof {
            let l = words_line(head, vs@[i as int].words());
            assert(vertex_lines(head, vs@.take(i + 1)) =~= vertex_lines(head, vs@.take(i as int)).push(l));
            lemma_lines_text_push(vertex_lines(head, vs@.take(i as int)), l);
        }
        i = i + 1;
    }
    proof {
        assert(vs@.take(i as int) =~= vs@);
    }
}

fn push_lines_of_texcoords(out: &mut Vec<char>, ts: &Vec<ObjTexcoord>)
    ensures
        final(out)@ == old(out)@ + lines_text(texcoord_lines(ts@)),
{
    let mut i: usize = 0;
    proof {
        assert(texcoord_lines(ts@.take(0)) =~= Seq::<Seq<char>>::empty());
    }
    while i < ts.len()
        invariant
            i <= ts@.len(),
            out@ == old(out)@ + lines_text(texcoord_lines(ts@.take(i as int))),
        decreases ts@.len() - i,
    {
        push_texcoord_line(out, &ts[i]);
        proof {
            let t = ts@[i as int];
            let l = words_line(seq!['v', 't'], seq![t.u@, t.v@]);
            assert(texcoord_lines(ts@.take(i + 1)) =~= texcoord_lines(ts@.take(i as int)).push(l));
            lemma_lines_text_push(texcoord_lines(ts@.take(i as int)), l);
        }
        i = i + 1;
    }
    proof {
        assert(ts@.take(i as int) =~= ts@);
    }
}

fn push_lines_of_faces(out: &mut Vec<char>, faces: &Vec<Vec<u32>>, offset: usize, uv: bool, normals: bool)
    requires
        forall|f: int, k: int|
            0 <= f < faces@.len() && 0 <= k < faces@[f]@.len() ==> (#[trigger] faces@[f]@[k]) + 1 + offset
                <= usize::MAX,
    ensures
        final(out)@ == old(out)@ + lines_text(face_lines(faces@, offset as nat, uv, normals)),
{
    let mut i: usize = 0;
    proof {
        assert(face_lines(faces@.take(0), offset as nat, uv, normals) =~= Seq::<Seq<char>>::empty());
    }
    while i < faces.len()
        invariant
            i <= faces@.len(),
            forall|f: int, k: int|
                0 <= f < faces@.len() && 0 <= k < faces@[f]@.len() ==> (#[trigger] faces@[f]@[k]) + 1 + offset
                    <= usize::MAX,
            out@ == old(out)@ + lines_text(face_lines(faces@.take(i as int), offset as nat, uv, normals)),
        decreases faces@.len() - i,
    {
        let ids = faces[i].as_slice();
        assert forall|k: int| 0 <= k < ids@.len() implies #[trigger] ids@[k] + 1 + offset <= usize::MAX by {
            assert(faces@[i as int]@[k] == ids@[k]);
        }
        let line = write_obj_face(ids, offset, uv, normals);
        let ghost before = out@;
        let mut j: usize = 0;
        while j < line.len()
            invariant
                j <= line@.len(),
                out@ == before + line@.take(j as int),
            decreases line@.len() - j,
        {
            out.push(line[j]);
            j = j + 1;
            proof {
                assert(out@ =~= before + line@.take(j as int));
            }
        }
        proof {
            assert(line@.take(j as int) =~= line@);
            let body = seq!['f', ' '] + obj_corners(faces@[i as int]@, offset as nat, uv, normals);
            assert(line@ =~= body + seq!['\n']);
            assert(face_lines(faces@.take(i + 1), offset as nat, uv, normals) =~= face_lines(
                faces@.take(i as int),
                offset as nat,
                uv,
                normals,
            ).push(body));
            lemma_lines_text_push(face_lines(faces@.take(i as int), offset as nat, uv, normals), body);
            assert(out@ =~= old(out)@ + lines_text(face_lines(faces@.take(i + 1), offset as nat, uv, normals)));
        }
        i = i + 1;
    }
    proof {
        assert(faces@.take(i as int) =~= faces@);
    }
}

proof fn lemma_total_take(objs: Seq<ObjExportObject>, i: int)
    requires
        0 <= i <= objs.len(),
    ensures
        total_vertices(objs.take(i)) <= total_vertices(objs),
        i < objs.len() ==> total_vertices(objs.take(i + 1)) == total_vertices(objs.take(i))
            + objs[i].vertices@.len(),
    decreases objs.len() - i,
{
    if i < objs.len() {
        assert(objs.take(i + 1).drop_last() =~= objs.take(i));
        lemma_total_take(objs, i + 1);
    } else {
        assert(objs.take(i) =~= objs);
    }
}

proof fn lemma_object_text(o: ObjExportObject, offset: nat, uv: bool, normals: bool)
    ensures
        lines_text(object_lines(o, offset, uv, normals)) == seq!['o', ' '] + o.name@ + seq!['\n'] + lines_text(
            vertex_lines(seq!['v'], o.vertices@),
        ) + lines_text(texcoord_lines(o.texcoords@)) + lines_text(vertex_lines(seq!['v', 'n'], o.normals@))
            + lines_text(face_lines(o.faces@, offset, uv, normals)),
{
    let ol = words_line(seq!['o'], seq![o.name@]);
    assert(seq![o.name@].drop_last() =~= Seq::<Seq<char>>::empty());
    assert(words_line(seq!['o'], seq![o.name@].drop_last()) == seq!['o']);
    assert(ol =~= seq!['o', ' '] + o.name@);
    let a = seq![ol];
    let v = vertex_lines(seq!['v'], o.vertices@);
    let t = texcoord_lines(o.texcoords@);
    let n = vertex_lines(seq!['v', 'n'], o.normals@);
    let f = face_lines(o.faces@, offset, uv, normals);
    lemma_lines_text_push(Seq::<Seq<char>>::empty(), ol);
    assert(Seq::<Seq<char>>::empty().push(ol) =~= a);
    lemma_lines_text_append(a, v);
    lemma_lines_text_append(a + v, t);
    lemma_lines_text_append(a + v + t, n);
    lemma_lines_text_append(a + v + t + n, f);
    assert(lines_text(Seq::<Seq<char>>::empty()) =~= Seq::<char>::empty());
    assert(lines_text(a) =~= seq!['o', ' '] + o.name@ + seq!['\n']);
}

proof fn lemma_header_text()
    ensures
        lines_text(seq![obj_header()]) == seq![
            '#', ' ', 'E', 'x', 'p', 'o', 'r', 't', 'e', 'd', ' ', 'b', 'y', ' ', 'L', 'i', 'l', 'i', ' ', 'M', 'o',
            'd', 'e', 'l', 'e', 'r', '\n',
        ],
{
    reveal_with_fuel(words_line, 5);
    lemma_lines_text_push(Seq::<Seq<char>>::empty(), obj_header());
    assert(Seq::<Seq<char>>::empty().push(obj_header()) =~= seq![obj_header()]);
    assert(lines_text(Seq::<Seq<char>>::empty()) =~= Seq::<char>::empty());
    let w = seq![
        seq!['E', 'x', 'p', 'o', 'r', 't', 'e', 'd'],
        seq!['b', 'y'],
        seq!['L', 'i', 'l', 'i'],
        seq!['M', 'o', 'd', 'e', 'l', 'e', 'r'],
    ];
    assert(w.drop_last().drop_last().drop_last().drop_last() =~= Seq::<Seq<char>>::empty());
    assert(w.drop_last().drop_last().drop_last() =~= seq![w[0]]);
    assert(w.drop_last().drop_last() =~= seq![w[0], w[1]]);
    assert(w.drop_last() =~= seq![w[0], w[1], w[2]]);
    assert(obj_header() =~= seq![
        '#', ' ', 'E', 'x', 'p', 'o', 'r', 't', 'e', 'd', ' ', 'b', 'y', ' ', 'L', 'i', 'l', 'i', ' ', 'M', 'o',
        'd', 'e', 'l', 'e', 'r',
    ]);
}

fn push_object(out: &mut Vec<char>, o: &ObjExportObject, offset: usize, uv: bool, normals: bool)
    requires
        forall|f: int, k: int|
            0 <= f < o.faces@.len() && 0 <= k < o.faces@[f]@.len() ==> (#[trigger] o.faces@[f]@[k]) + 1 + offset
                <= usize::MAX,
    ensures
        final(out)@ == old(out)@ + lines_text(object_lines(*o, offset as nat, uv, normals)),
{
    let ghost g0 = out@;
    out.push('o');
    out.push(' ');
    push_chars(out, &o.name);
    out.push('\n');
    let ghost p = seq!['o', ' '] + o.name@ + seq!['\n'];
    proof {
        assert(out@ =~= g0 + p);
    }
    let ghost g1 = out@;
    push_lines_of_vertices(out, false, &o.vertices);
    let ghost g2 = out@;
    push_lines_of_texcoords(out, &o.texcoords);
    let ghost g3 = out@;
    push_lines_of_vertices(out, true, &o.normals);
    let ghost g4 = out@;
    push_lines_of_faces(out, &o.faces, offset, uv, normals);
    proof {
        lemma_object_text(*o, offset as nat, uv, normals);
        let lv = lines_text(vertex_lines(seq!['v'], o.vertices@));
        let lt = lines_text(texcoord_lines(o.texcoords@));
        let ln = lines_text(vertex_lines(seq!['v', 'n'], o.normals@));
        let lf = lines_text(face_lines(o.faces@, offset as nat, uv, normals));
        vstd::seq_lib::lemma_concat_associative(g0, p, lv);
        vstd::seq_lib::lemma_concat_associative(g0, p + lv, lt);
        vstd::seq_lib::lemma_concat_associative(g0, p + lv + lt, ln);
        vstd::seq_lib::lemma_concat_associative(g0, p + lv + lt + ln, lf);
    }
}

/// Writes the OBJ text of the objects (see [`obj_text`]): a comment line,
/// then for each object its `o` line, its `v` lines, its `vt` and `vn`
/// lines as given, and its face lines, whose vertex numbers count from 1
/// over the whole file. Every such number must fit a `usize`.
pub fn write_obj(objects: &Vec<ObjExportObject>, uv: bool, normals: bool) -> (text: Vec<char>)
    requires
        obj_export_fits(objects@),
    ensures
        text@ == obj_text(objects@, uv, normals),
{
    let mut out: Vec<char> = Vec::new();
    let header = vec![
        '#', ' ', 'E', 'x', 'p', 'o', 'r', 't', 'e', 'd', ' ', 'b', 'y', ' ', 'L', 'i', 'l', 'i', ' ', 'M', 'o', 'd',
        'e', 'l', 'e', 'r', '\n',
    ];
    push_chars(&mut out, &header);
    proof {
        lemma_header_text();
        assert(objects_lines(objects@.take(0), uv, normals) =~= Seq::<Seq<char>>::empty());
        assert(seq![obj_header()] + objects_lines(objects@.take(0), uv, normals) =~= seq![obj_header()]);
        assert(out@ =~= lines_text(seq![obj_header()]));
    }
    let mut offset: usize = 0;
    let mut i: usize = 0;
    while i < objects.len()
        invariant
            i <= objects@.len(),
            obj_export_fits(objects@),
            offset == total_vertices(objects@.take(i as int)),
            out@ == lines_text(seq![obj_header()] + objects_lines(objects@.take(i as int), uv, normals)),
        decreases objects@.len() - i,
    {
        let o = &objects[i];
        let ghost before = out@;
        proof {
            assert forall|f: int, k: int|
                0 <= f < o.faces@.len() && 0 <= k < o.faces@[f]@.len() implies (#[trigger] o.faces@[f]@[k]) + 1
                + offset <= usize::MAX by {
                assert(objects@[i as int].faces@[f]@[k] + 1 + total_vertices(objects@.take(i as int)) <= usize::MAX);
            }
        }
        push_object(&mut out, o, offset, uv, normals);
        proof {
            let hs = seq![obj_header()];
            let prev = objects_lines(objects@.take(i as int), uv, normals);
            let cur = object_lines(*o, offset as nat, uv, normals);
            assert(objects@.take(i + 1).drop_last() =~= objects@.take(i as int));
            assert(objects@.take(i + 1).last() == *o);
            assert(objects_lines(objects@.take(i + 1), uv, normals) == prev + cur);
            assert(hs + (prev + cur) =~= (hs + prev) + cur);
            lemma_lines_text_append(hs + prev, cur);
            lemma_total_take(objects@, i as int);
            lemma_total_take(objects@, i + 1);
        }
        offset = offset + o.vertices.len();
        i = i + 1;
    }
    proof {
        assert(objects@.take(i as int) =~= objects@);
    }
    out
}

/// A word that the reader reads back whole: at least one character, none
/// of them white space.
pub open spec fn plain_word(w: Seq<char>) -> bool {
    w.len() > 0 && forall|k: int| 0 <= k < w.len() ==> !is_ws(#[trigger] w[k])
}

/// Three plain coordinate words.
pub open spec fn plain_vertex(v: ObjVertex) -> bool {
    plain_word(v.x@) && plain_word(v.y@) && plain_word(v.z@)
}

/// Two plain coordinate words.
pub open spec fn plain_texcoord(t: ObjTexcoord) -> bool {
    plain_word(t.u@) && plain_word(t.v@)
}

/// An object that reads back as written: a plain name, at least one
/// vertex, plain coordinate words, and faces of at least three indices
/// below its vertex count.
pub open spec fn object_readable(o: ObjExportObject) -> bool {
    &&& plain_word(o.name@)
    &&& o.vertices@.len() > 0
    &&& forall|k: int| 0 <= k < o.vertices@.len() ==> plain_vertex(#[trigger] o.vertices@[k])
    &&& forall|k: int| 0 <= k < o.texcoords@.len() ==> plain_texcoord(#[trigger] o.texcoords@[k])
    &&& forall|k: int| 0 <= k < o.normals@.len() ==> plain_vertex(#[trigger] o.normals@[k])
    &&& forall|f: int| 0 <= f < o.faces@.len() ==> (#[trigger] o.faces@[f])@.len() >= 3
    &&& forall|f: int, k: int|
        0 <= f < o.faces@.len() && 0 <= k < o.faces@[f]@.len() ==> (#[trigger] o.faces@[f]@[k]) < o.vertices@.len()
}

/// Objects that read back as written, with vertex numbers within `i64`.
pub open spec fn obj_export_readable(objs: Seq<ObjExportObject>) -> bool {
    &&& total_vertices(objs) <= 0x7FFF_FFFF_FFFF_FFFF
    &&& forall|i: int| 0 <= i < objs.len() ==> object_readable(#[trigger] objs[i])
}

/// No line feed in a line.
spec fn no_nl(l: Seq<char>) -> bool {
    forall|j: int| 0 <= j < l.len() ==> l[j] != '\n'
}

spec fn lines_ok(ls: Seq<Seq<char>>) -> bool {
    forall|k: int| 0 <= k < ls.len() ==> no_nl(#[trigger] ls[k])
}

proof fn lemma_lines_ok_concat(a: Seq<Seq<char>>, b: Seq<Seq<char>>)
    requires
        lines_ok(a),
        lines_ok(b),
    ensures
        lines_ok(a + b),
{
    assert forall|k: int| 0 <= k < (a + b).len() implies no_nl(#[trigger] (a + b)[k]) by {
        if k < a.len() {
            assert((a + b)[k] == a[k]);
        } else {
            assert((a + b)[k] == b[k - a.len()]);
        }
    }
}

proof fn lemma_split_no_nl(l: Seq<char>)
    requires
        no_nl(l),
    ensures
        split_lines(l) == seq![l],
    decreases l.len(),
{
    if l.len() > 0 {
        assert(no_nl(l.drop_last()));
        lemma_split_no_nl(l.drop_last());
        assert(l[l.len() - 1] != '\n');
        assert(l.drop_last().push(l.last()) =~= l);
        assert(seq![l.drop_last()].update(0, l) =~= seq![l]);
    } else {
        assert(l =~= Seq::<char>::empty());
    }
}

proof fn lemma_split_append(x: Seq<char>, y: Seq<char>)
    requires
        x.len() == 0 || x.last() == '\n',
    ensures
        split_lines(x + y) == split_lines(x).drop_last() + split_lines(y),
    decreases y.len(),
{
    let s = split_lines(x).drop_last();
    if y.len() == 0 {
        assert(x + y =~= x);
        if x.len() == 0 {
            assert(split_lines(x) =~= seq![Seq::<char>::empty()]);
        } else {
            assert(split_lines(x) == split_lines(x.drop_last()).push(Seq::<char>::empty()));
        }
        assert(split_lines(x) =~= s + split_lines(y));
    } else {
        lemma_split_append(x, y.drop_last());
        assert((x + y).drop_last() =~= x + y.drop_last());
        assert((x + y).last() == y.last());
        let yl = split_lines(y.drop_last());
        lemma_split_lines_len(y.drop_last());
        if y.last() == '\n' {
            assert((s + yl).push(Seq::<char>::empty()) =~= s + yl.push(Seq::<char>::empty()));
        } else {
            let l = s + yl;
            assert(l.update(l.len() - 1, l.last().push(y.last())) =~= s + yl.update(
                yl.len() - 1,
                yl.last().push(y.last()),
            ));
        }
    }
}

proof fn lemma_split_text(ls: Seq<Seq<char>>)
    requires
        lines_ok(ls),
    ensures
        split_lines(lines_text(ls)) == ls.push(Seq::<char>::empty()),
    decreases ls.len(),
{
    if ls.len() == 0 {
        assert(lines_text(ls) =~= Seq::<char>::empty());
        assert(split_lines(Seq::<char>::empty()) =~= seq![Seq::<char>::empty()]);
        assert(ls.push(Seq::<char>::empty()) =~= seq![Seq::<char>::empty()]);
    } else {
        let l = ls.last();
        let x = lines_text(ls.drop_last());
        assert(lines_ok(ls.drop_last())) by {
            assert forall|k: int| 0 <= k < ls.drop_last().len() implies no_nl(#[trigger] ls.drop_last()[k]) by {
                assert(ls.drop_last()[k] == ls[k]);
            }
        }
        lemma_split_text(ls.drop_last());
        if ls.drop_last().len() > 0 {
            assert(x == lines_text(ls.drop_last().drop_last()) + ls.drop_last().last() + seq!['\n']);
        } else {
            assert(x =~= Seq::<char>::empty());
        }
        assert(lines_text(ls) =~= x + l.push('\n'));
        lemma_split_append(x, l.push('\n'));
        assert(no_nl(ls[ls.len() - 1]));
        lemma_split_no_nl(l);
        assert(l.push('\n').drop_last() =~= l);
        assert(split_lines(l.push('\n')) =~= seq![l, Seq::<char>::empty()]);
        assert(ls.drop_last().push(Seq::<char>::empty()).drop_last() =~= ls.drop_last());
        assert(ls.drop_last() + seq![l, Seq::<char>::empty()] =~= ls.push(Seq::<char>::empty()));
    }
}

proof fn lemma_run_append(st: ObjState, a: Seq<Seq<char>>, b: Seq<Seq<char>>)
    ensures
        obj_run(st, a + b) == obj_run(obj_run(st, a), b),
    decreases b.len(),
{
    if b.len() == 0 {
        assert(a + b =~= a);
    } else {
        lemma_run_append(st, a, b.drop_last());
        assert((a + b).drop_last() =~= a + b.drop_last());
        assert((a + b).last() == b.last());
    }
}

proof fn lemma_run_push(st: ObjState, ls: Seq<Seq<char>>, l: Seq<char>)
    ensures
        obj_run(st, ls.push(l)) == obj_step(obj_run(st, ls), tokens(l)),
{
    assert(ls.push(l).drop_last() =~= ls);
}

proof fn lemma_words_line(head: Seq<char>, rest: Seq<Seq<char>>)
    requires
        plain_word(head),
        forall|k: int| 0 <= k < rest.len() ==> plain_word(#[trigger] rest[k]),
    ensures
        tokens(words_line(head, rest)) == seq![head] + rest,
        no_nl(words_line(head, rest)),
    decreases rest.len(),
{
    if rest.len() == 0 {
        lemma_tokens_word(Seq::<char>::empty(), head);
        assert(Seq::<char>::empty() + head =~= head);
        assert(seq![head] + rest =~= seq![head]);
        assert forall|j: int| 0 <= j < head.len() implies head[j] != '\n' by {
            assert(!is_ws(head[j]));
        }
    } else {
        let w = rest.last();
        assert(plain_word(rest[rest.len() - 1]));
        assert forall|k: int| 0 <= k < rest.drop_last().len() implies plain_word(#[trigger] rest.drop_last()[k]) by {
            assert(rest.drop_last()[k] == rest[k]);
        }
        lemma_words_line(head, rest.drop_last());
        let wl = words_line(head, rest.drop_last());
        lemma_tokens_ws(wl, ' ');
        assert(wl.push(' ') =~= wl + seq![' ']);
        lemma_tokens_word(wl + seq![' '], w);
        assert(seq![head] + rest =~= (seq![head] + rest.drop_last()).push(w));
        let full = words_line(head, rest);
        assert forall|j: int| 0 <= j < full.len() implies full[j] != '\n' by {
            if j < wl.len() {
                assert(full[j] == wl[j]);
            } else if j > wl.len() {
                assert(full[j] == w[j - wl.len() - 1]);
                assert(!is_ws(w[j - wl.len() - 1]));
            }
        }
    }
}

proof fn lemma_face_body_no_nl(ids: Seq<u32>, offset: nat, uv: bool, normals: bool)
    ensures
        no_nl(seq!['f', ' '] + obj_corners(ids, offset, uv, normals)),
    decreases ids.len(),
{
    let b = seq!['f', ' '] + obj_corners(ids, offset, uv, normals);
    if ids.len() > 0 {
        lemma_face_body_no_nl(ids.drop_last(), offset, uv, normals);
        let prev = seq!['f', ' '] + obj_corners(ids.drop_last(), offset, uv, normals);
        let n = (ids.last() + 1 + offset) as nat;
        let w = obj_corner_word(n, uv, normals);
        lemma_corner_word_chars(n, uv, normals);
        assert(b =~= prev + w + seq![' ']);
        assert forall|j: int| 0 <= j < b.len() implies b[j] != '\n' by {
            if j < prev.len() {
                assert(b[j] == prev[j]);
            } else if j < prev.len() + w.len() {
                assert(b[j] == w[j - prev.len()]);
                assert(!is_ws(w[j - prev.len()]));
            }
        }
    } else {
        assert(b =~= seq!['f', ' ']);
    }
}

proof fn lemma_vertex_line(v: ObjVertex, head: Seq<char>)
    requires
        plain_vertex(v),
        plain_word(head),
    ensures
        tokens(words_line(head, v.words())) == seq![head, v.x@, v.y@, v.z@],
        no_nl(words_line(head, v.words())),
{
    let ws = v.words();
    assert forall|k: int| 0 <= k < ws.len() implies plain_word(#[trigger] ws[k]) by {}
    lemma_words_line(head, ws);
    assert(seq![head] + ws =~= seq![head, v.x@, v.y@, v.z@]);
}

/// What a line whose first word is `vt` or `vn` does: nothing.
proof fn lemma_step_skip(st: ObjState, w: Seq<Seq<char>>)
    requires
        w.len() > 0,
        w[0] == seq!['v', 't'] || w[0] == seq!['v', 'n'],
    ensures
        obj_step(st, w) == st,
{
    assert(w[0].len() == 2);
    assert(w[0][0] == 'v');
    assert(w[0] != seq!['o']);
    assert(w[0] != seq!['g']);
    assert(w[0] != seq!['v']);
    assert(w[0] != seq!['f']);
}

proof fn lemma_run_vertices(st: ObjState, vs: Seq<ObjVertex>)
    requires
        forall|k: int| 0 <= k < vs.len() ==> plain_vertex(#[trigger] vs[k]),
    ensures
        obj_run(st, vertex_lines(seq!['v'], vs)) == (ObjState {
            vertices: st.vertices + vs.map_values(|v: ObjVertex| v.words()),
            positions: st.positions + vs.len(),
            ..st
        }),
        lines_ok(vertex_lines(seq!['v'], vs)),
    decreases vs.len(),
{
    let ls = vertex_lines(seq!['v'], vs);
    if vs.len() == 0 {
        assert(ls =~= Seq::<Seq<char>>::empty());
        assert(st.vertices + vs.map_values(|v: ObjVertex| v.words()) =~= st.vertices);
    } else {
        let v = vs.last();
        assert(plain_vertex(vs[vs.len() - 1]));
        assert forall|k: int| 0 <= k < vs.drop_last().len() implies plain_vertex(#[trigger] vs.drop_last()[k]) by {
            assert(vs.drop_last()[k] == vs[k]);
        }
        lemma_run_vertices(st, vs.drop_last());
        let l = words_line(seq!['v'], v.words());
        assert(ls =~= vertex_lines(seq!['v'], vs.drop_last()).push(l));
        lemma_run_push(st, vertex_lines(seq!['v'], vs.drop_last()), l);
        lemma_vertex_line(v, seq!['v']);
        let w = tokens(l);
        assert(w[0] == seq!['v']);
        assert(w[0][0] == 'v');
        assert(w[0] != seq!['o']) by {
            assert(seq!['o'][0] == 'o');
        }
        assert(w[0] != seq!['g']) by {
            assert(seq!['g'][0] == 'g');
        }
        assert(w.subrange(1, 4) =~= v.words());
        assert(vs.map_values(|v: ObjVertex| v.words()) =~= vs.drop_last().map_values(|v: ObjVertex| v.words()).push(
            v.words(),
        ));
        assert(st.vertices + vs.map_values(|v: ObjVertex| v.words()) =~= (st.vertices + vs.drop_last().map_values(
            |v: ObjVertex| v.words(),
        )).push(v.words()));
        lemma_lines_ok_concat(vertex_lines(seq!['v'], vs.drop_last()), seq![l]);
        assert(vertex_lines(seq!['v'], vs.drop_last()) + seq![l] =~= ls);
    }
}

proof fn lemma_run_normals(st: ObjState, vs: Seq<ObjVertex>)
    requires
        forall|k: int| 0 <= k < vs.len() ==> plain_vertex(#[trigger] vs[k]),
    ensures
        obj_run(st, vertex_lines(seq!['v', 'n'], vs)) == st,
        lines_ok(vertex_lines(seq!['v', 'n'], vs)),
    decreases vs.len(),
{
    let ls = vertex_lines(seq!['v', 'n'], vs);
    if vs.len() == 0 {
        assert(ls =~= Seq::<Seq<char>>::empty());
    } else {
        let v = vs.last();
        assert(plain_vertex(vs[vs.len() - 1]));
        assert forall|k: int| 0 <= k < vs.drop_last().len() implies plain_vertex(#[trigger] vs.drop_last()[k]) by {
            assert(vs.drop_last()[k] == vs[k]);
        }
        lemma_run_normals(st, vs.drop_last());
        let l = words_line(seq!['v', 'n'], v.words());
        assert(ls =~= vertex_lines(seq!['v', 'n'], vs.drop_last()).push(l));
        lemma_run_push(st, vertex_lines(seq!['v', 'n'], vs.drop_last()), l);
        lemma_vertex_line(v, seq!['v', 'n']);
        lemma_step_skip(st, tokens(l));
        lemma_lines_ok_concat(vertex_lines(seq!['v', 'n'], vs.drop_last()), seq![l]);
        assert(vertex_lines(seq!['v', 'n'], vs.drop_last()) + seq![l] =~= ls);
    }
}

proof fn lemma_run_texcoords(st: ObjState, ts: Seq<ObjTexcoord>)
    requires
        forall|k: int| 0 <= k < ts.len() ==> plain_texcoord(#[trigger] ts[k]),
    ensures
        obj_run(st, texcoord_lines(ts)) == st,
        lines_ok(texcoord_lines(ts)),
    decreases ts.len(),
{
    let ls = texcoord_lines(ts);
    if ts.len() == 0 {
        assert(ls =~= Seq::<Seq<char>>::empty());
    } else {
        let t = ts.last();
        assert(plain_texcoord(ts[ts.len() - 1]));
        assert forall|k: int| 0 <= k < ts.drop_last().len() implies plain_texcoord(#[trigger] ts.drop_last()[k]) by {
            assert(ts.drop_last()[k] == ts[k]);
        }
        lemma_run_texcoords(st, ts.drop_last());
        let ws = seq![t.u@, t.v@];
        let l = words_line(seq!['v', 't'], ws);
        assert(ls =~= texcoord_lines(ts.drop_last()).push(l));
        lemma_run_push(st, texcoord_lines(ts.drop_last()), l);
        assert forall|k: int| 0 <= k < ws.len() implies plain_word(#[trigger] ws[k]) by {}
        lemma_words_line(seq!['v', 't'], ws);
        lemma_step_skip(st, tokens(l));
        lemma_lines_ok_concat(texcoord_lines(ts.drop_last()), seq![l]);
        assert(texcoord_lines(ts.drop_last()) + seq![l] =~= ls);
    }
}

proof fn lemma_run_faces(st: ObjState, faces: Seq<Vec<u32>>, offset: nat, count: nat, uv: bool, normals: bool)
    requires
        obj_base(st) == offset,
        st.positions == offset + count,
        offset + count <= 0x7FFF_FFFF_FFFF_FFFF,
        forall|f: int| 0 <= f < faces.len() ==> (#[trigger] faces[f])@.len() >= 3,
        forall|f: int, k: int| 0 <= f < faces.len() && 0 <= k < faces[f]@.len() ==> (#[trigger] faces[f]@[k]) < count,
    ensures
        obj_run(st, face_lines(faces, offset, uv, normals)) == (ObjState {
            faces: st.faces + faces.map_values(|f: Vec<u32>| f@),
            ..st
        }),
        lines_ok(face_lines(faces, offset, uv, normals)),
    decreases faces.len(),
{
    let ls = face_lines(faces, offset, uv, normals);
    if faces.len() == 0 {
        assert(ls =~= Seq::<Seq<char>>::empty());
        assert(st.faces + faces.map_values(|f: Vec<u32>| f@) =~= st.faces);
    } else {
        let f = faces.last();
        assert(faces[faces.len() - 1]@.len() >= 3);
        assert forall|g: int| 0 <= g < faces.drop_last().len() implies (#[trigger] faces.drop_last()[g])@.len() >= 3 by {
            assert(faces.drop_last()[g] == faces[g]);
        }
        assert forall|g: int, k: int| 0 <= g < faces.drop_last().len() && 0 <= k < faces.drop_last()[g]@.len() implies (
        #[trigger] faces.drop_last()[g]@[k]) < count by {
            assert(faces.drop_last()[g] == faces[g]);
        }
        lemma_run_faces(st, faces.drop_last(), offset, count, uv, normals);
        let body = seq!['f', ' '] + obj_corners(f@, offset, uv, normals);
        assert(ls =~= face_lines(faces.drop_last(), offset, uv, normals).push(body));
        lemma_run_push(st, face_lines(faces.drop_last(), offset, uv, normals), body);
        let mid = obj_run(st, face_lines(faces.drop_last(), offset, uv, normals));
        assert forall|k: int| 0 <= k < f@.len() implies #[trigger] f@[k] < count by {
            assert(faces[faces.len() - 1]@[k] < count);
        }
        law_obj_face_roundtrip(mid, f@, offset, count, uv, normals);
        assert(tokens(body) == tokens(body.push('\n'))) by {
            lemma_tokens_ws(body, '\n');
        }
        assert(body.push('\n') =~= super::exporters::obj_face_line(f@, offset, uv, normals));
        assert(faces.map_values(|f: Vec<u32>| f@) =~= faces.drop_last().map_values(|f: Vec<u32>| f@).push(f@));
        assert(st.faces + faces.map_values(|f: Vec<u32>| f@) =~= (st.faces + faces.drop_last().map_values(
            |f: Vec<u32>| f@,
        )).push(f@));
        lemma_face_body_no_nl(f@, offset, uv, normals);
        lemma_lines_ok_concat(face_lines(faces.drop_last(), offset, uv, normals), seq![body]);
        assert(face_lines(faces.drop_last(), offset, uv, normals) + seq![body] =~= ls);
    }
}

proof fn lemma_run_object(st: ObjState, o: ObjExportObject, offset: nat, uv: bool, normals: bool)
    requires
        object_readable(o),
        st.positions == offset,
        st.vertices.len() <= st.positions,
        st.vertices.len() == 0 ==> st.faces.len() == 0,
        offset + o.vertices@.len() <= 0x7FFF_FFFF_FFFF_FFFF,
    ensures
        obj_run(st, object_lines(o, offset, uv, normals)) == (ObjState {
            done: flush_object(st).done,
            name: o.name@,
            vertices: o.model().vertices,
            faces: o.model().faces,
            positions: offset + o.vertices@.len(),
        }),
        lines_ok(object_lines(o, offset, uv, normals)),
{
    let n = o.vertices@.len();
    let ol = words_line(seq!['o'], seq![o.name@]);
    let a = seq![ol];
    let v = vertex_lines(seq!['v'], o.vertices@);
    let t = texcoord_lines(o.texcoords@);
    let nl = vertex_lines(seq!['v', 'n'], o.normals@);
    let f = face_lines(o.faces@, offset, uv, normals);
    assert forall|k: int| 0 <= k < seq![o.name@].len() implies plain_word(#[trigger] seq![o.name@][k]) by {}
    assert(plain_word(seq!['o'])) by {
        assert(!is_ws(seq!['o'][0]));
    }
    lemma_words_line(seq!['o'], seq![o.name@]);
    let w = tokens(ol);
    assert(w =~= seq![seq!['o'], o.name@]);
    assert(w[0][0] == 'o');
    let f0 = flush_object(st);
    assert(f0.vertices =~= Seq::<Seq<Seq<char>>>::empty());
    assert(f0.faces =~= Seq::<Seq<u32>>::empty());
    let s1 = ObjState { name: o.name@, ..f0 };
    assert(obj_step(st, w) == s1);
    lemma_run_push(st, Seq::<Seq<char>>::empty(), ol);
    assert(Seq::<Seq<char>>::empty().push(ol) =~= a);
    assert(obj_run(st, a) == s1);
    lemma_run_append(st, a, v);
    lemma_run_vertices(s1, o.vertices@);
    let s2 = ObjState { vertices: o.model().vertices, positions: offset + n, ..s1 };
    assert(s1.vertices + o.vertices@.map_values(|v: ObjVertex| v.words()) =~= o.model().vertices);
    assert(obj_run(st, a + v) == s2);
    lemma_run_append(st, a + v, t);
    lemma_run_texcoords(s2, o.texcoords@);
    lemma_run_append(st, a + v + t, nl);
    lemma_run_normals(s2, o.normals@);
    lemma_run_append(st, a + v + t + nl, f);
    assert(obj_base(s2) == offset);
    lemma_run_faces(s2, o.faces@, offset, n, uv, normals);
    assert(s2.faces + o.faces@.map_values(|f: Vec<u32>| f@) =~= o.model().faces);
    assert(lines_ok(a)) by {
        assert forall|k: int| 0 <= k < a.len() implies no_nl(#[trigger] a[k]) by {
            assert(a[k] == ol);
        }
    }
    lemma_lines_ok_concat(a, v);
    lemma_lines_ok_concat(a + v, t);
    lemma_lines_ok_concat(a + v + t, nl);
    lemma_lines_ok_concat(a + v + t + nl, f);
}

proof fn lemma_header_read()
    ensures
        obj_step(obj_start(), tokens(obj_header())) == obj_start(),
        no_nl(obj_header()),
{
    let rest = seq![
        seq!['E', 'x', 'p', 'o', 'r', 't', 'e', 'd'],
        seq!['b', 'y'],
        seq!['L', 'i', 'l', 'i'],
        seq!['M', 'o', 'd', 'e', 'l', 'e', 'r'],
    ];
    assert(plain_word(seq!['#'])) by {
        assert(!is_ws(seq!['#'][0]));
    }
    assert forall|k: int| 0 <= k < rest.len() implies plain_word(#[trigger] rest[k]) by {
        let r = rest[k];
        assert forall|j: int| 0 <= j < r.len() implies !is_ws(#[trigger] r[j]) by {
            if k == 0 {
                assert(r == seq!['E', 'x', 'p', 'o', 'r', 't', 'e', 'd']);
            } else if k == 1 {
                assert(r == seq!['b', 'y']);
            } else if k == 2 {
                assert(r == seq!['L', 'i', 'l', 'i']);
            } else {
                assert(r == seq!['M', 'o', 'd', 'e', 'l', 'e', 'r']);
            }
        }
    }
    lemma_words_line(seq!['#'], rest);
    let w = tokens(obj_header());
    assert(w[0] == seq!['#']);
    assert(w[0][0] == '#');
}

proof fn lemma_run_objects(objs: Seq<ObjExportObject>, uv: bool, normals: bool)
    requires
        obj_export_readable(objs),
    ensures
        flush_object(obj_run(obj_start(), seq![obj_header()] + objects_lines(objs, uv, normals))).done
            == objs.map_values(|o: ObjExportObject| o.model()),
        obj_run(obj_start(), seq![obj_header()] + objects_lines(objs, uv, normals)).positions == total_vertices(objs),
        obj_run(obj_start(), seq![obj_header()] + objects_lines(objs, uv, normals)).vertices.len() <= obj_run(
            obj_start(),
            seq![obj_header()] + objects_lines(objs, uv, normals),
        ).positions,
        obj_run(obj_start(), seq![obj_header()] + objects_lines(objs, uv, normals)).vertices.len() == 0 ==> obj_run(
            obj_start(),
            seq![obj_header()] + objects_lines(objs, uv, normals),
        ).faces.len() == 0,
        lines_ok(seq![obj_header()] + objects_lines(objs, uv, normals)),
    decreases objs.len(),
{
    let hs = seq![obj_header()];
    let ls = hs + objects_lines(objs, uv, normals);
    if objs.len() == 0 {
        lemma_header_read();
        assert(ls =~= Seq::<Seq<char>>::empty().push(obj_header()));
        lemma_run_push(obj_start(), Seq::<Seq<char>>::empty(), obj_header());
        assert(objs.map_values(|o: ObjExportObject| o.model()) =~= Seq::<ObjModel>::empty());
        assert(flush_object(obj_start()).done =~= Seq::<ObjModel>::empty());
        assert forall|k: int| 0 <= k < ls.len() implies no_nl(#[trigger] ls[k]) by {
            assert(ls[k] == obj_header());
        }
    } else {
        let dl = objs.drop_last();
        let o = objs.last();
        assert(object_readable(objs[objs.len() - 1]));
        assert forall|i: int| 0 <= i < dl.len() implies object_readable(#[trigger] dl[i]) by {
            assert(dl[i] == objs[i]);
        }
        assert(total_vertices(objs) == total_vertices(dl) + o.vertices@.len());
        lemma_run_objects(dl, uv, normals);
        let pre = hs + objects_lines(dl, uv, normals);
        let cur = object_lines(o, total_vertices(dl), uv, normals);
        assert(ls =~= pre + cur);
        lemma_run_append(obj_start(), pre, cur);
        let st = obj_run(obj_start(), pre);
        lemma_run_object(st, o, total_vertices(dl), uv, normals);
        assert(objs.map_values(|o: ObjExportObject| o.model()) =~= dl.map_values(|o: ObjExportObject| o.model()).push(
            o.model(),
        ));
        lemma_lines_ok_concat(pre, cur);
    }
}

/// Reading back the OBJ text of objects gives those objects, in order,
/// each with its name, the coordinate words of its vertices, and its faces
/// with indices counted within the object; the texture coordinate and
/// normal lines and either form of face word change nothing of it. This
/// holds of objects that each have at least one vertex, a name and
/// coordinate words without white space, and faces of three or more
/// indices below their vertex count, with all vertex numbers within `i64`.
pub proof fn law_obj_export_import(objs: Seq<ObjExportObject>, uv: bool, normals: bool)
    requires
        obj_export_readable(objs),
    ensures
        obj_objects(obj_text(objs, uv, normals)) == objs.map_values(|o: ObjExportObject| o.model()),
{
    lemma_run_objects(objs, uv, normals);
    let ls = seq![obj_header()] + objects_lines(objs, uv, normals);
    lemma_split_text(ls);
    lemma_run_push(obj_start(), ls, Seq::<char>::empty());
    assert(tokens(Seq::<char>::empty()) =~= Seq::<Seq<char>>::empty());
}

} // verus!
