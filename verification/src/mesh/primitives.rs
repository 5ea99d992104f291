//! Face lists of the primitive shapes: which vertices each face joins, by
//! index. The vertex positions are floating point and are computed by the
//! caller; every index a face list uses is proved to name one of the
//! primitive's vertices.
use vstd::prelude::*;

verus! {

/// The face lists of a vector of faces.
pub open spec fn face_lists(faces: Seq<Vec<u32>>) -> Seq<Seq<u32>> {
    faces.map_values(|f: Vec<u32>| f@)
}

/// Whether every index of every face is below `n`.
pub open spec fn indices_below(faces: Seq<Seq<u32>>, n: int) -> bool {
    forall|k: int, m: int| 0 <= k < faces.len() && 0 <= m < faces[k].len() ==> (#[trigger] faces[k][m]) < n
}

/// The faces of rows `0..r` of a grid whose row `i` holds the faces `row(i)`.
pub open spec fn rows_upto(row: spec_fn(int) -> Seq<Seq<u32>>, r: int) -> Seq<Seq<u32>>
    decreases r,
{
    if r <= 0 {
        Seq::empty()
    } else {
        rows_upto(row, r - 1) + row(r - 1)
    }
}

proof fn lemma_rows_below(row: spec_fn(int) -> Seq<Seq<u32>>, r: int, n: int)
    requires
        forall|i: int| 0 <= i < r ==> indices_below(#[trigger] row(i), n),
    ensures
        indices_below(rows_upto(row, r), n),
    decreases r,
{
    if r > 0 {
        lemma_rows_below(row, r - 1, n);
        let a = rows_upto(row, r - 1);
        let b = row(r - 1);
        assert(indices_below(b, n));
        assert forall|k: int, m: int|
            0 <= k < (a + b).len() && 0 <= m < (a + b)[k].len() implies (#[trigger] (a + b)[k][m]) < n by {
            if k < a.len() {
                assert((a + b)[k] == a[k]);
            } else {
                assert((a + b)[k] == b[k - a.len()]);
            }
        }
    }
}

/// The quad at row `i`, column `j` of a grid of `rows` by `cols` vertices
/// (row-major) closed around in both directions.
pub open spec fn wrap_quad(rows: int, cols: int, i: int, j: int) -> Seq<u32> {
    seq![
        (i * cols + j) as u32,
        (i * cols + (j + 1) % cols) as u32,
        (((i + 1) % rows) * cols + (j + 1) % cols) as u32,
        (((i + 1) % rows) * cols + j) as u32,
    ]
}

/// Row `i` of the quads of a closed grid.
pub open spec fn wrap_row(rows: int, cols: int, i: int) -> Seq<Seq<u32>> {
    Seq::new(cols as nat, |j: int| wrap_quad(rows, cols, i, j))
}

/// All quads of a closed grid, row by row.
pub open spec fn wrap_grid(rows: int, cols: int) -> Seq<Seq<u32>> {
    rows_upto(|i: int| wrap_row(rows, cols, i), rows)
}

proof fn lemma_cell_below(rows: int, cols: int, i: int, j: int)
    requires
        0 <= i < rows,
        0 <= j < cols,
    ensures
        0 <= i * cols + j < rows * cols,
{
    assert(i * cols + j < rows * cols) by (nonlinear_arith)
        requires
            0 <= i < rows,
            0 <= j < cols,
    ;
    assert(0 <= i * cols) by (nonlinear_arith)
        requires
            0 <= i,
            0 <= j < cols,
    ;
}

/// A closed grid's quads use only its `rows * cols` vertices.
pub proof fn law_wrap_grid_in_range(rows: int, cols: int)
    requires
        rows >= 1,
        cols >= 1,
        rows * cols <= u32::MAX,
    ensures
        indices_below(wrap_grid(rows, cols), rows * cols),
{
    let row = |i: int| wrap_row(rows, cols, i);
    assert forall|i: int| 0 <= i < rows implies indices_below(#[trigger] row(i), rows * cols) by {
        assert forall|k: int, m: int|
            0 <= k < row(i).len() && 0 <= m < row(i)[k].len() implies (#[trigger] row(i)[k][m]) < rows * cols by {
            let q = row(i)[k];
            assert(q == wrap_quad(rows, cols, i, k));
            lemma_cell_below(rows, cols, i, k);
            lemma_cell_below(rows, cols, i, (k + 1) % cols);
            lemma_cell_below(rows, cols, (i + 1) % rows, (k + 1) % cols);
            lemma_cell_below(rows, cols, (i + 1) % rows, k);
        }
    }
    lemma_rows_below(row, rows, rows * cols);
}

/// The quads of a closed grid (see [`wrap_grid`]).
fn wrap_grid_faces(rows: u32, cols: u32) -> (faces: Vec<Vec<u32>>)
    requires
        rows >= 1,
        cols >= 1,
        rows * cols <= u32::MAX,
    ensures
        face_lists(faces@) == wrap_grid(rows as int, cols as int),
{
    let ghost row = |i: int| wrap_row(rows as int, cols as int, i);
    let mut faces: Vec<Vec<u32>> = Vec::new();
    let mut i: u32 = 0;
    proof {
        assert(face_lists(faces@) =~= rows_upto(row, 0));
    }
    while i < rows
        invariant
            i <= rows,
            rows >= 1,
            cols >= 1,
            rows * cols <= u32::MAX,
            row == (|i: int| wrap_row(rows as int, cols as int, i)),
            face_lists(faces@) == rows_upto(row, i as int),
        decreases rows - i,
    {
        let ghost before = face_lists(faces@);
        let mut j: u32 = 0;
        proof {
            assert(face_lists(faces@) =~= before + row(i as int).take(0));
        }
        while j < cols
            invariant
                i < rows,
                j <= cols,
                rows >= 1,
                cols >= 1,
                rows * cols <= u32::MAX,
                row == (|i: int| wrap_row(rows as int, cols as int, i)),
                face_lists(faces@) == before + row(i as int).take(j as int),
            decreases cols - j,
        {
            proof {
                lemma_cell_below(rows as int, cols as int, i as int, j as int);
                lemma_cell_below(rows as int, cols as int, i as int, (j + 1) % (cols as int));
                lemma_cell_below(rows as int, cols as int, (i + 1) % (rows as int), (j + 1) % (cols as int));
                lemma_cell_below(rows as int, cols as int, (i + 1) % (rows as int), j as int);
            }
            let a = i * cols + j;
            let b = i * cols + (j + 1) % cols;
            let c = ((i + 1) % rows) * cols + (j + 1) % cols;
            let d = ((i + 1) % rows) * cols + j;
            let quad = vec![a, b, c, d];
            let ghost pre = faces@;
            faces.push(quad);
            proof {
                assert(quad@ =~= wrap_quad(rows as int, cols as int, i as int, j as int));
                assert(face_lists(faces@) =~= face_lists(pre).push(quad@));
                assert(row(i as int).take(j + 1) =~= row(i as int).take(j as int).push(
                    wrap_quad(rows as int, cols as int, i as int, j as int),
                ));
                assert(face_lists(faces@) =~= before + row(i as int).take(j + 1));
            }
            j = j + 1;
        }
        proof {
            assert(row(i as int).take(cols as int) =~= row(i as int));
            assert(rows_upto(row, i + 1) == rows_upto(row, i as int) + row(i as int));
        }
        i = i + 1;
    }
    faces
}

/// The quads of a torus with `segments` rings of `segments` vertices (at
/// least four each).
pub open spec fn torus_faces_spec(segments: u32) -> Seq<Seq<u32>> {
    let s = if segments < 4 {
        4
    } else {
        segments as int
    };
    wrap_grid(s, s)
}

/// The faces of a torus (see [`torus_faces_spec`]). The vertex indices are
/// 32-bit, so the vertex count must fit in `u32`.
pub fn torus_faces(segments: u32) -> (faces: Vec<Vec<u32>>)
    requires
        segments * segments <= u32::MAX,
    ensures
        face_lists(faces@) == torus_faces_spec(segments),
        indices_below(
            torus_faces_spec(segments),
            if segments < 4 {
                16
            } else {
                segments * segments
            },
        ),
{
    let s = if segments < 4 {
        4
    } else {
        segments
    };
    proof {
        if segments < 4 {
            assert(s * s == 16);
        }
        law_wrap_grid_in_range(s as int, s as int);
    }
    wrap_grid_faces(s, s)
}

/// The quads of a torus knot's tube: `segments` rings (at least 16) of
/// eight vertices.
pub open spec fn torus_knot_faces_spec(segments: u32) -> Seq<Seq<u32>> {
    let s = if segments < 16 {
        16
    } else {
        segments as int
    };
    wrap_grid(s, 8)
}

/// The faces of a torus knot (see [`torus_knot_faces_spec`]).
pub fn torus_knot_faces(segments: u32) -> (faces: Vec<Vec<u32>>)
    requires
        segments * 8 <= u32::MAX,
    ensures
        face_lists(faces@) == torus_knot_faces_spec(segments),
        indices_below(
            torus_knot_faces_spec(segments),
            if segments < 16 {
                128
            } else {
                segments * 8
            },
        ),
{
    let s = if segments < 16 {
        16
    } else {
        segments
    };
    proof {
        law_wrap_grid_in_range(s as int, 8);
    }
    wrap_grid_faces(s, 8)
}

/// The number of sides of a round primitive: `segments`, but at least three.
pub open spec fn sides(segments: u32) -> int {
    if segments < 3 {
        3
    } else {
        segments as int
    }
}

/// The vertex count of a sphere: the two poles and `s - 1` rings of `s`.
pub open spec fn sphere_vertex_count(segments: u32) -> int {
    2 + (sides(segments) - 1) * sides(segments)
}

/// The quad of band `i`, column `j` of a sphere with `s` sides: between
/// rings `i` and `i + 1`, which start at vertex `1 + i * s`.
pub open spec fn sphere_quad(s: int, i: int, j: int) -> Seq<u32> {
    let base = 1 + i * s;
    seq![(base + j) as u32, (base + (j + 1) % s) as u32, (base + s + (j + 1) % s) as u32, (base + s + j) as u32]
}

/// A sphere's faces: a fan of triangles round the top pole (vertex 0),
/// the bands of quads between consecutive rings, and a fan round the
/// bottom pole (the last vertex).
pub open spec fn sphere_faces_spec(segments: u32) -> Seq<Seq<u32>> {
    let s = sides(segments);
    let base = 1 + (s - 2) * s;
    let last = sphere_vertex_count(segments) - 1;
    Seq::new(s as nat, |k: int| seq![0u32, (1 + (k + 1) % s) as u32, (1 + k) as u32]) + rows_upto(
        |i: int| Seq::new(s as nat, |j: int| sphere_quad(s, i, j)),
        s - 2,
    ) + Seq::new(s as nat, |j: int| seq![(base + j) as u32, (base + (j + 1) % s) as u32, last as u32])
}

/// A sphere's faces use only its vertices.
pub proof fn law_sphere_in_range(segments: u32)
    requires
        sphere_vertex_count(segments) <= u32::MAX,
    ensures
        indices_below(sphere_faces_spec(segments), sphere_vertex_count(segments)),
{
    let s = sides(segments);
    let n = sphere_vertex_count(segments);
    let base = 1 + (s - 2) * s;
    assert(base + s == n - 1) by (nonlinear_arith)
        requires base == 1 + (s - 2) * s, n == 2 + (s - 1) * s;
    let top = Seq::new(s as nat, |k: int| seq![0u32, (1 + (k + 1) % s) as u32, (1 + k) as u32]);
    let row = |i: int| Seq::new(s as nat, |j: int| sphere_quad(s, i, j));
    let bands = rows_upto(row, s - 2);
    let bottom = Seq::new(s as nat, |j: int| seq![(base + j) as u32, (base + (j + 1) % s) as u32, (n - 1) as u32]);
    assert(indices_below(top, n)) by {
        assert forall|k: int, m: int| 0 <= k < top.len() && 0 <= m < top[k].len() implies (#[trigger] top[k][m]) < n by {
            assert(1 + s <= n) by (nonlinear_arith)
                requires n == 2 + (s - 1) * s, s >= 3;
        }
    }
    assert forall|i: int| 0 <= i < s - 2 implies indices_below(#[trigger] row(i), n) by {
        assert forall|k: int, m: int|
            0 <= k < row(i).len() && 0 <= m < row(i)[k].len() implies (#[trigger] row(i)[k][m]) < n by {
            assert(1 + i * s + s + s <= n - 1) by (nonlinear_arith)
                requires 0 <= i < s - 2, n == 2 + (s - 1) * s, s >= 3;
            assert(0 <= i * s) by (nonlinear_arith)
                requires 0 <= i, s >= 3;
        }
    }
    lemma_rows_below(row, s - 2, n);
    assert(indices_below(bottom, n));
    let all = top + bands + bottom;
    assert(all == sphere_faces_spec(segments));
    assert forall|k: int, m: int| 0 <= k < all.len() && 0 <= m < all[k].len() implies (#[trigger] all[k][m]) < n by {
        if k < top.len() {
            assert(all[k] == top[k]);
        } else if k < top.len() + bands.len() {
            assert(all[k] == bands[k - top.len()]);
        } else {
            assert(all[k] == bottom[k - top.len() - bands.len()]);
        }
    }
}

/// The faces of a sphere (see [`sphere_faces_spec`]). The vertex indices
/// are 32-bit, so the vertex count must fit in `u32`.
pub fn sphere_faces(segments: u32) -> (faces: Vec<Vec<u32>>)
    requires
        sphere_vertex_count(segments) <= u32::MAX,
    ensures
        face_lists(faces@) == sphere_faces_spec(segments),
        indices_below(sphere_faces_spec(segments), sphere_vertex_count(segments)),
{
    proof {
        law_sphere_in_range(segments);
    }
    let s: u32 = if segments < 3 {
        3
    } else {
        segments
    };
    let ghost si = s as int;
    proof {
        assert(si == sides(segments));
        assert((si - 1) * si + 2 <= u32::MAX);
        assert(si * (si - 1) == (si - 1) * si) by (nonlinear_arith);
    }
    let ghost top = Seq::new(si as nat, |k: int| seq![0u32, (1 + (k + 1) % si) as u32, (1 + k) as u32]);
    let ghost row = |i: int| Seq::new(si as nat, |j: int| sphere_quad(si, i, j));
    let mut faces: Vec<Vec<u32>> = Vec::new();
    let mut k: u32 = 0;
    while k < s
        invariant
            k <= s,
            si == s as int,
            si >= 3,
            (si - 1) * si + 2 <= u32::MAX,
            top == Seq::new(si as nat, |k: int| seq![0u32, (1 + (k + 1) % si) as u32, (1 + k) as u32]),
            face_lists(faces@) == top.take(k as int),
        decreases s - k,
    {
        proof {
            assert(1 + si <= (si - 1) * si + 2) by (nonlinear_arith)
                requires si >= 3;
        }
        let tri = vec![0u32, 1 + (k + 1) % s, 1 + k];
        let ghost pre = faces@;
        faces.push(tri);
        proof {
            assert(tri@ =~= top[k as int]);
            assert(face_lists(faces@) =~= face_lists(pre).push(tri@));
            assert(top.take(k + 1) =~= top.take(k as int).push(top[k as int]));
        }
        k = k + 1;
    }
    proof {
        assert(top.take(si) =~= top);
        assert(face_lists(faces@) =~= top + rows_upto(row, 0));
    }
    let mut i: u32 = 0;
    while i < s - 2
        invariant
            i <= s - 2,
            si == s as int,
            si >= 3,
            (si - 1) * si + 2 <= u32::MAX,
            row == (|i: int| Seq::new(si as nat, |j: int| sphere_quad(si, i, j))),
            face_lists(faces@) == top + rows_upto(row, i as int),
        decreases s - 2 - i,
    {
        let ghost before = face_lists(faces@);
        proof {
            assert(1 + (i as int) * si + si + si <= 2 + (si - 1) * si) by (nonlinear_arith)
                requires 0 <= i < si - 2, si >= 3;
            assert(0 <= (i as int) * si) by (nonlinear_arith)
                requires 0 <= i, si >= 3;
        }
        let base = 1 + i * s;
        let mut j: u32 = 0;
        proof {
            assert(face_lists(faces@) =~= before + row(i as int).take(0));
        }
        while j < s
            invariant
                j <= s,
                si == s as int,
                si >= 3,
                i < s - 2,
                base == 1 + i * s,
                base + s + s <= u32::MAX,
                row == (|i: int| Seq::new(si as nat, |j: int| sphere_quad(si, i, j))),
                face_lists(faces@) == before + row(i as int).take(j as int),
            decreases s - j,
        {
            let quad = vec![base + j, base + (j + 1) % s, base + s + (j + 1) % s, base + s + j];
            let ghost pre = faces@;
            faces.push(quad);
            proof {
                assert(quad@ =~= sphere_quad(si, i as int, j as int));
                assert(face_lists(faces@) =~= face_lists(pre).push(quad@));
                assert(row(i as int).take(j + 1) =~= row(i as int).take(j as int).push(row(i as int)[j as int]));
            }
            j = j + 1;
        }
        proof {
            assert(row(i as int).take(si) =~= row(i as int));
            assert(rows_upto(row, i + 1) == rows_upto(row, i as int) + row(i as int));
            assert(face_lists(faces@) =~= top + rows_upto(row, i + 1));
        }
        i = i + 1;
    }
    let ghost mid = face_lists(faces@);
    proof {
        assert(1 + (si - 2) * si + si == 1 + (si - 1) * si) by (nonlinear_arith);
        assert(0 <= (si - 2) * si) by (nonlinear_arith)
            requires si >= 3;
    }
    let base = 1 + (s - 2) * s;
    let last = 1 + (s - 1) * s;
    let ghost bottom = Seq::new(si as nat, |j: int| seq![(base + j) as u32, (base + (j + 1) % si) as u32, last]);
    let mut j: u32 = 0;
    proof {
        assert(face_lists(faces@) =~= mid + bottom.take(0));
    }
    while j < s
        invariant
            j <= s,
            si == s as int,
            si >= 3,
            base + s == last,
            bottom == Seq::new(si as nat, |j: int| seq![(base + j) as u32, (base + (j + 1) % si) as u32, last]),
            face_lists(faces@) == mid + bottom.take(j as int),
        decreases s - j,
    {
        let tri = vec![base + j, base + (j + 1) % s, last];
        let ghost pre = faces@;
        faces.push(tri);
        proof {
            assert(tri@ =~= bottom[j as int]);
            assert(face_lists(faces@) =~= face_lists(pre).push(tri@));
            assert(bottom.take(j + 1) =~= bottom.take(j as int).push(bottom[j as int]));
        }
        j = j + 1;
    }
    proof {
        assert(bottom.take(si) =~= bottom);
        assert((last as int) == sphere_vertex_count(segments) - 1);
    }
    faces
}

/// A cylinder's faces: vertex `2i` is on the top rim and `2i + 1` below it;
/// the side quads, then a fan round the top centre (vertex `2s`), then a
/// fan round the bottom centre (vertex `2s + 1`).
pub open spec fn cylinder_faces_spec(segments: u32) -> Seq<Seq<u32>> {
    let s = sides(segments);
    Seq::new(
        s as nat,
        |i: int| seq![(2 * i) as u32, (2 * ((i + 1) % s)) as u32, (2 * ((i + 1) % s) + 1) as u32, (2 * i + 1) as u32],
    ) + Seq::new(s as nat, |i: int| seq![(2 * s) as u32, (2 * i) as u32, (2 * ((i + 1) % s)) as u32]) + Seq::new(
        s as nat,
        |i: int| seq![(2 * s + 1) as u32, (2 * ((i + 1) % s) + 1) as u32, (2 * i + 1) as u32],
    )
}

/// The faces of a cylinder (see [`cylinder_faces_spec`]); it has
/// `2 * sides + 2` vertices, which must fit in `u32`.
pub fn cylinder_faces(segments: u32) -> (faces: Vec<Vec<u32>>)
    requires
        2 * sides(segments) + 2 <= u32::MAX,
    ensures
        face_lists(faces@) == cylinder_faces_spec(segments),
        indices_below(cylinder_faces_spec(segments), 2 * sides(segments) + 2),
{
    let s: u32 = if segments < 3 {
        3
    } else {
        segments
    };
    let ghost si = s as int;
    let ghost side = Seq::new(
        si as nat,
        |i: int| seq![(2 * i) as u32, (2 * ((i + 1) % si)) as u32, (2 * ((i + 1) % si) + 1) as u32, (2 * i + 1) as u32],
    );
    let ghost top = Seq::new(si as nat, |i: int| seq![(2 * si) as u32, (2 * i) as u32, (2 * ((i + 1) % si)) as u32]);
    let ghost bottom = Seq::new(
        si as nat,
        |i: int| seq![(2 * si + 1) as u32, (2 * ((i + 1) % si) + 1) as u32, (2 * i + 1) as u32],
    );
    let mut faces: Vec<Vec<u32>> = Vec::new();
    let mut i: u32 = 0;
    while i < s
        invariant
            i <= s,
            si == s as int,
            2 * si + 2 <= u32::MAX,
            side == Seq::new(
                si as nat,
                |i: int| seq![(2 * i) as u32, (2 * ((i + 1) % si)) as u32, (2 * ((i + 1) % si) + 1) as u32, (2 * i + 1) as u32],
            ),
            face_lists(faces@) == side.take(i as int),
        decreases s - i,
    {
        let next = (i + 1) % s;
        let quad = vec![i * 2, next * 2, next * 2 + 1, i * 2 + 1];
        let ghost pre = faces@;
        faces.push(quad);
        proof {
            assert(quad@ =~= side[i as int]);
            assert(face_lists(faces@) =~= face_lists(pre).push(quad@));
            assert(side.take(i + 1) =~= side.take(i as int).push(side[i as int]));
        }
        i = i + 1;
    }
    proof {
        assert(side.take(si) =~= side);
        assert(face_lists(faces@) =~= side + top.take(0));
    }
    let top_center = s * 2;
    let mut i: u32 = 0;
    while i < s
        invariant
            i <= s,
            si == s as int,
            2 * si + 2 <= u32::MAX,
            top_center == 2 * s,
            top == Seq::new(si as nat, |i: int| seq![(2 * si) as u32, (2 * i) as u32, (2 * ((i + 1) % si)) as u32]),
            face_lists(faces@) == side + top.take(i as int),
        decreases s - i,
    {
        let next = (i + 1) % s;
        let tri = vec![top_center, i * 2, next * 2];
        let ghost pre = faces@;
        faces.push(tri);
        proof {
            assert(tri@ =~= top[i as int]);
            assert(face_lists(faces@) =~= face_lists(pre).push(tri@));
            assert(top.take(i + 1) =~= top.take(i as int).push(top[i as int]));
        }
        i = i + 1;
    }
    proof {
        assert(top.take(si) =~= top);
        assert(face_lists(faces@) =~= side + top + bottom.take(0));
    }
    let bottom_center = s * 2 + 1;
    let mut i: u32 = 0;
    while i < s
        invariant
            i <= s,
            si == s as int,
            2 * si + 2 <= u32::MAX,
            bottom_center == 2 * s + 1,
            bottom == Seq::new(
                si as nat,
                |i: int| seq![(2 * si + 1) as u32, (2 * ((i + 1) % si) + 1) as u32, (2 * i + 1) as u32],
            ),
            face_lists(faces@) == side + top + bottom.take(i as int),
        decreases s - i,
    {
        let next = (i + 1) % s;
        let tri = vec![bottom_center, next * 2 + 1, i * 2 + 1];
        let ghost pre = faces@;
        faces.push(tri);
        proof {
            assert(tri@ =~= bottom[i as int]);
            assert(face_lists(faces@) =~= face_lists(pre).push(tri@));
            assert(bottom.take(i + 1) =~= bottom.take(i as int).push(bottom[i as int]));
        }
        i = i + 1;
    }
    proof {
        assert(bottom.take(si) =~= bottom);
        let all = side + top + bottom;
        assert(all == cylinder_faces_spec(segments));
        assert forall|k: int, m: int| 0 <= k < all.len() && 0 <= m < all[k].len() implies (#[trigger] all[k][m]) < 2 * si
            + 2 by {
            if k < si {
                assert(all[k] == side[k]);
            } else if k < 2 * si {
                assert(all[k] == top[k - si]);
            } else {
                assert(all[k] == bottom[k - 2 * si]);
            }
        }
    }
    faces
}

/// A cone's faces: the tip is vertex 0, the rim vertices are `1..=s` and
/// the base centre is `s + 1`; the side triangles, then the base fan.
pub open spec fn cone_faces_spec(segments: u32) -> Seq<Seq<u32>> {
    let s = sides(segments);
    Seq::new(s as nat, |i: int| seq![0u32, (i + 1) as u32, ((i + 1) % s + 1) as u32]) + Seq::new(
        s as nat,
        |i: int| seq![(s + 1) as u32, ((i + 1) % s + 1) as u32, (i + 1) as u32],
    )
}

/// The faces of a cone (see [`cone_faces_spec`]); it has `sides + 2`
/// vertices, which must fit in `u32`.
pub fn cone_faces(segments: u32) -> (faces: Vec<Vec<u32>>)
    requires
        sides(segments) + 2 <= u32::MAX,
    ensures
        face_lists(faces@) == cone_faces_spec(segments),
        indices_below(cone_faces_spec(segments), sides(segments) + 2),
{
    let s: u32 = if segments < 3 {
        3
    } else {
        segments
    };
    let ghost si = s as int;
    let ghost side = Seq::new(si as nat, |i: int| seq![0u32, (i + 1) as u32, ((i + 1) % si + 1) as u32]);
    let ghost base = Seq::new(si as nat, |i: int| seq![(si + 1) as u32, ((i + 1) % si + 1) as u32, (i + 1) as u32]);
    let mut faces: Vec<Vec<u32>> = Vec::new();
    let mut i: u32 = 0;
    while i < s
        invariant
            i <= s,
            si == s as int,
            si + 2 <= u32::MAX,
            side == Seq::new(si as nat, |i: int| seq![0u32, (i + 1) as u32, ((i + 1) % si + 1) as u32]),
            face_lists(faces@) == side.take(i as int),
        decreases s - i,
    {
        let next = (i + 1) % s;
        let tri = vec![0u32, i + 1, next + 1];
        let ghost pre = faces@;
        faces.push(tri);
        proof {
            assert(tri@ =~= side[i as int]);
            assert(face_lists(faces@) =~= face_lists(pre).push(tri@));
            assert(side.take(i + 1) =~= side.take(i as int).push(side[i as int]));
        }
        i = i + 1;
    }
    proof {
        assert(side.take(si) =~= side);
        assert(face_lists(faces@) =~= side + base.take(0));
    }
    let base_center = s + 1;
    let mut i: u32 = 0;
    while i < s
        invariant
            i <= s,
            si == s as int,
            si + 2 <= u32::MAX,
            base_center == s + 1,
            base == Seq::new(si as nat, |i: int| seq![(si + 1) as u32, ((i + 1) % si + 1) as u32, (i + 1) as u32]),
            face_lists(faces@) == side + base.take(i as int),
        decreases s - i,
    {
        let next = (i + 1) % s;
        let tri = vec![base_center, next + 1, i + 1];
        let ghost pre = faces@;
        faces.push(tri);
        proof {
            assert(tri@ =~= base[i as int]);
            assert(face_lists(faces@) =~= face_lists(pre).push(tri@));
            assert(base.take(i + 1) =~= base.take(i as int).push(base[i as int]));
        }
        i = i + 1;
    }
    proof {
        assert(base.take(si) =~= base);
        let all = side + base;
        assert(all == cone_faces_spec(segments));
        assert forall|k: int, m: int| 0 <= k < all.len() && 0 <= m < all[k].len() implies (#[trigger] all[k][m]) < si
            + 2 by {
            if k < si {
                assert(all[k] == side[k]);
            } else {
                assert(all[k] == base[k - si]);
            }
        }
    }
    faces
}

/// The `m`-th edge of a face: from corner `m` to the next corner, the last
/// one closing back to the first.
pub open spec fn face_edge(f: Seq<u32>, m: int) -> (u32, u32) {
    (f[m], if m + 1 < f.len() { f[m + 1] } else { f[0] })
}

/// Whether two edges join the same two vertices, in either direction.
pub open spec fn same_edge(e: (u32, u32), g: (u32, u32)) -> bool {
    (e.0 == g.0 && e.1 == g.1) || (e.0 == g.1 && e.1 == g.0)
}

/// Whether no corner of a face repeats another.
pub open spec fn corners_distinct(f: Seq<u32>) -> bool {
    forall|a: int, b: int| 0 <= a < b < f.len() ==> f[a] != f[b]
}

/// Whether edge `m` of face `k` is also an edge of another face.
pub open spec fn edge_shared(faces: Seq<Seq<u32>>, k: int, m: int) -> bool {
    exists|k2: int, m2: int|
        0 <= k2 < faces.len() && k2 != k && 0 <= m2 < faces[k2].len() && #[trigger] same_edge(
            face_edge(faces[k2], m2),
            face_edge(faces[k], m),
        )
}

/// Whether the faces close up: every edge of every face is also an edge
/// of another face, so the surface has no hole.
pub open spec fn closed_surface(faces: Seq<Seq<u32>>) -> bool {
    forall|k: int, m: int|
        0 <= k < faces.len() && 0 <= m < faces[k].len() ==> #[trigger] edge_shared(faces, k, m)
}

/// The vertex after `i` round a ring of `s`.
spec fn ring_next(i: int, s: int) -> int {
    if i + 1 < s {
        i + 1
    } else {
        0
    }
}

/// The vertex before `i` round a ring of `s`.
spec fn ring_prev(i: int, s: int) -> int {
    if i == 0 {
        s - 1
    } else {
        i - 1
    }
}

proof fn lemma_ring_next(i: int, s: int)
    requires
        0 <= i < s,
    ensures
        (i + 1) % s == ring_next(i, s),
        0 <= ring_next(i, s) < s,
        0 <= ring_prev(i, s) < s,
        ring_next(ring_prev(i, s), s) == i,
        s >= 2 ==> ring_next(i, s) != i && ring_prev(i, s) != i,
{
    if i + 1 < s {
        vstd::arithmetic::div_mod::lemma_small_mod((i + 1) as nat, s as nat);
    } else {
        vstd::arithmetic::div_mod::lemma_mod_self_0(s);
    }
}

proof fn lemma_cylinder_face(segments: u32, k: int)
    requires
        2 * sides(segments) + 2 <= u32::MAX,
        0 <= k < 3 * sides(segments),
    ensures
        ({
            let s = sides(segments);
            let f = cylinder_faces_spec(segments)[k];
            &&& cylinder_faces_spec(segments).len() == 3 * s
            &&& k < s ==> {
                let n = ring_next(k, s);
                f.len() == 4 && f[0] == 2 * k && f[1] == 2 * n && f[2] == 2 * n + 1 && f[3] == 2 * k + 1
            }
            &&& s <= k < 2 * s ==> {
                let i = k - s;
                f.len() == 3 && f[0] == 2 * s && f[1] == 2 * i && f[2] == 2 * ring_next(i, s)
            }
            &&& 2 * s <= k ==> {
                let i = k - 2 * s;
                f.len() == 3 && f[0] == 2 * s + 1 && f[1] == 2 * ring_next(i, s) + 1 && f[2] == 2 * i + 1
            }
        }),
{
    let s = sides(segments);
    let a = Seq::new(
        s as nat,
        |i: int| seq![(2 * i) as u32, (2 * ((i + 1) % s)) as u32, (2 * ((i + 1) % s) + 1) as u32, (2 * i + 1) as u32],
    );
    let b = Seq::new(s as nat, |i: int| seq![(2 * s) as u32, (2 * i) as u32, (2 * ((i + 1) % s)) as u32]);
    let c = Seq::new(s as nat, |i: int| seq![(2 * s + 1) as u32, (2 * ((i + 1) % s) + 1) as u32, (2 * i + 1) as u32]);
    assert(cylinder_faces_spec(segments) == a + b + c);
    if k < s {
        lemma_ring_next(k, s);
        assert(cylinder_faces_spec(segments)[k] == a[k]);
    } else if k < 2 * s {
        lemma_ring_next(k - s, s);
        assert(cylinder_faces_spec(segments)[k] == b[k - s]);
    } else {
        lemma_ring_next(k - 2 * s, s);
        assert(cylinder_faces_spec(segments)[k] == c[k - 2 * s]);
    }
}

/// A cylinder's faces close up with no hole and none is degenerate: no
/// face repeats a corner, and every edge of every face is an edge of
/// another face, so the side quads, the top cap and the bottom cap meet
/// along every rim edge. There are `3s` faces for `s` sides: `s` quads,
/// then `s` triangles round the top centre (vertex `2s`), then `s` round
/// the bottom centre (vertex `2s + 1`).
pub proof fn law_cylinder_closed(segments: u32)
    requires
        2 * sides(segments) + 2 <= u32::MAX,
    ensures
        cylinder_faces_spec(segments).len() == 3 * sides(segments),
        forall|k: int|
            0 <= k < cylinder_faces_spec(segments).len() ==> corners_distinct(#[trigger] cylinder_faces_spec(segments)[k]),
        closed_surface(cylinder_faces_spec(segments)),
        forall|k: int|
            0 <= k < sides(segments) ==> (#[trigger] cylinder_faces_spec(segments)[k]).len() == 4,
        forall|k: int|
            sides(segments) <= k < 2 * sides(segments) ==> (#[trigger] cylinder_faces_spec(segments)[k]).len() == 3
                && cylinder_faces_spec(segments)[k][0] == 2 * sides(segments),
        forall|k: int|
            2 * sides(segments) <= k < 3 * sides(segments) ==> (#[trigger] cylinder_faces_spec(segments)[k]).len() == 3
                && cylinder_faces_spec(segments)[k][0] == 2 * sides(segments) + 1,
{
    let s = sides(segments);
    let fs = cylinder_faces_spec(segments);
    lemma_cylinder_face(segments, 0);
    assert forall|k: int| 0 <= k < fs.len() implies corners_distinct(#[trigger] fs[k]) by {
        lemma_cylinder_face(segments, k);
        if k < s {
            lemma_ring_next(k, s);
        } else if k < 2 * s {
            lemma_ring_next(k - s, s);
        } else {
            lemma_ring_next(k - 2 * s, s);
        }
    }
    assert forall|k: int, m: int| 0 <= k < fs.len() && 0 <= m < fs[k].len() implies #[trigger] edge_shared(fs, k, m) by {
        lemma_cylinder_face(segments, k);
        if k < s {
            let i = k;
            lemma_ring_next(i, s);
            let n = ring_next(i, s);
            let p = ring_prev(i, s);
            lemma_ring_next(n, s);
            lemma_ring_next(p, s);
            if m == 0 {
                lemma_cylinder_face(segments, s + i);
                assert(same_edge(face_edge(fs[s + i], 1), face_edge(fs[k], m)));
            } else if m == 1 {
                lemma_cylinder_face(segments, n);
                assert(same_edge(face_edge(fs[n], 3), face_edge(fs[k], m)));
            } else if m == 2 {
                lemma_cylinder_face(segments, 2 * s + i);
                assert(same_edge(face_edge(fs[2 * s + i], 1), face_edge(fs[k], m)));
            } else {
                lemma_cylinder_face(segments, p);
                assert(same_edge(face_edge(fs[p], 1), face_edge(fs[k], m)));
            }
        } else if k < 2 * s {
            let i = k - s;
            lemma_ring_next(i, s);
            let n = ring_next(i, s);
            let p = ring_prev(i, s);
            lemma_ring_next(n, s);
            lemma_ring_next(p, s);
            if m == 0 {
                lemma_cylinder_face(segments, s + p);
                assert(same_edge(face_edge(fs[s + p], 2), face_edge(fs[k], m)));
            } else if m == 1 {
                lemma_cylinder_face(segments, i);
                assert(same_edge(face_edge(fs[i], 0), face_edge(fs[k], m)));
            } else {
                lemma_cylinder_face(segments, s + n);
                assert(same_edge(face_edge(fs[s + n], 0), face_edge(fs[k], m)));
            }
        } else {
            let i = k - 2 * s;
            lemma_ring_next(i, s);
            let n = ring_next(i, s);
            let p = ring_prev(i, s);
            lemma_ring_next(n, s);
            lemma_ring_next(p, s);
            if m == 0 {
                lemma_cylinder_face(segments, 2 * s + n);
                assert(same_edge(face_edge(fs[2 * s + n], 2), face_edge(fs[k], m)));
            } else if m == 1 {
                lemma_cylinder_face(segments, i);
                assert(same_edge(face_edge(fs[i], 2), face_edge(fs[k], m)));
            } else {
                lemma_cylinder_face(segments, 2 * s + p);
                assert(same_edge(face_edge(fs[2 * s + p], 0), face_edge(fs[k], m)));
            }
        }
    }
    assert forall|k: int| 0 <= k < s implies (#[trigger] fs[k]).len() == 4 by {
        lemma_cylinder_face(segments, k);
    }
    assert forall|k: int| s <= k < 2 * s implies (#[trigger] fs[k]).len() == 3 && fs[k][0] == 2 * s by {
        lemma_cylinder_face(segments, k);
    }
    assert forall|k: int| 2 * s <= k < 3 * s implies (#[trigger] fs[k]).len() == 3 && fs[k][0] == 2 * s + 1 by {
        lemma_cylinder_face(segments, k);
    }
}

proof fn lemma_cone_face(segments: u32, k: int)
    requires
        sides(segments) + 2 <= u32::MAX,
        0 <= k < 2 * sides(segments),
    ensures
        ({
            let s = sides(segments);
            let f = cone_faces_spec(segments)[k];
            &&& cone_faces_spec(segments).len() == 2 * s
            &&& k < s ==> f.len() == 3 && f[0] == 0 && f[1] == k + 1 && f[2] == ring_next(k, s) + 1
            &&& s <= k ==> {
                let i = k - s;
                f.len() == 3 && f[0] == s + 1 && f[1] == ring_next(i, s) + 1 && f[2] == i + 1
            }
        }),
{
    let s = sides(segments);
    let a = Seq::new(s as nat, |i: int| seq![0u32, (i + 1) as u32, ((i + 1) % s + 1) as u32]);
    let b = Seq::new(s as nat, |i: int| seq![(s + 1) as u32, ((i + 1) % s + 1) as u32, (i + 1) as u32]);
    assert(cone_faces_spec(segments) == a + b);
    if k < s {
        lemma_ring_next(k, s);
        assert(cone_faces_spec(segments)[k] == a[k]);
    } else {
        lemma_ring_next(k - s, s);
        assert(cone_faces_spec(segments)[k] == b[k - s]);
    }
}

/// A cone's faces close up with no hole and none is degenerate: no face
/// repeats a corner, and every edge of every face is an edge of another
/// face, so the side triangles and the base meet along every rim edge.
/// There are `2s` triangles for `s` sides: `s` round the tip (vertex 0),
/// then `s` round the base centre (vertex `s + 1`).
pub proof fn law_cone_closed(segments: u32)
    requires
        sides(segments) + 2 <= u32::MAX,
    ensures
        cone_faces_spec(segments).len() == 2 * sides(segments),
        forall|k: int|
            0 <= k < cone_faces_spec(segments).len() ==> corners_distinct(#[trigger] cone_faces_spec(segments)[k]),
        closed_surface(cone_faces_spec(segments)),
        forall|k: int|
            0 <= k < sides(segments) ==> (#[trigger] cone_faces_spec(segments)[k]).len() == 3
                && cone_faces_spec(segments)[k][0] == 0,
        forall|k: int|
            sides(segments) <= k < 2 * sides(segments) ==> (#[trigger] cone_faces_spec(segments)[k]).len() == 3
                && cone_faces_spec(segments)[k][0] == sides(segments) + 1,
{
    let s = sides(segments);
    let fs = cone_faces_spec(segments);
    lemma_cone_face(segments, 0);
    assert forall|k: int| 0 <= k < fs.len() implies corners_distinct(#[trigger] fs[k]) by {
        lemma_cone_face(segments, k);
        if k < s {
            lemma_ring_next(k, s);
        } else {
            lemma_ring_next(k - s, s);
        }
    }
    assert forall|k: int, m: int| 0 <= k < fs.len() && 0 <= m < fs[k].len() implies #[trigger] edge_shared(fs, k, m) by {
        lemma_cone_face(segments, k);
        let i = if k < s {
            k
        } else {
            k - s
        };
        lemma_ring_next(i, s);
        let n = ring_next(i, s);
        let p = ring_prev(i, s);
        lemma_ring_next(n, s);
        lemma_ring_next(p, s);
        if k < s {
            if m == 0 {
                lemma_cone_face(segments, p);
                assert(same_edge(face_edge(fs[p], 2), face_edge(fs[k], m)));
            } else if m == 1 {
                lemma_cone_face(segments, s + i);
                assert(same_edge(face_edge(fs[s + i], 1), face_edge(fs[k], m)));
            } else {
                lemma_cone_face(segments, n);
                assert(same_edge(face_edge(fs[n], 0), face_edge(fs[k], m)));
            }
        } else {
            if m == 0 {
                lemma_cone_face(segments, s + n);
                assert(same_edge(face_edge(fs[s + n], 2), face_edge(fs[k], m)));
            } else if m == 1 {
                lemma_cone_face(segments, i);
                assert(same_edge(face_edge(fs[i], 1), face_edge(fs[k], m)));
            } else {
                lemma_cone_face(segments, s + p);
                assert(same_edge(face_edge(fs[s + p], 0), face_edge(fs[k], m)));
            }
        }
    }
    assert forall|k: int| 0 <= k < s implies (#[trigger] fs[k]).len() == 3 && fs[k][0] == 0 by {
        lemma_cone_face(segments, k);
    }
    assert forall|k: int| s <= k < 2 * s implies (#[trigger] fs[k]).len() == 3 && fs[k][0] == s + 1 by {
        lemma_cone_face(segments, k);
    }
}

proof fn lemma_cell_unique(cols: int, i: int, j: int, i2: int, j2: int)
    requires
        0 <= j < cols,
        0 <= j2 < cols,
        0 <= i,
        0 <= i2,
        i * cols + j == i2 * cols + j2,
    ensures
        i == i2 && j == j2,
{
    if i < i2 {
        assert(i * cols + cols <= i2 * cols) by (nonlinear_arith)
            requires
                i < i2,
                0 <= cols,
        ;
    } else if i2 < i {
        assert(i2 * cols + cols <= i * cols) by (nonlinear_arith)
            requires
                i2 < i,
                0 <= cols,
        ;
    }
}

proof fn lemma_grid_rows(rows: int, cols: int, row: spec_fn(int) -> Seq<Seq<u32>>, r: int)
    requires
        1 <= cols,
        0 <= r <= rows,
        forall|i: int| #[trigger] row(i) == wrap_row(rows, cols, i),
    ensures
        rows_upto(row, r).len() == r * cols,
        forall|i: int, j: int|
            0 <= i < r && 0 <= j < cols ==> #[trigger] rows_upto(row, r)[i * cols + j] == wrap_quad(rows, cols, i, j),
    decreases r,
{
    if r > 0 {
        lemma_grid_rows(rows, cols, row, r - 1);
        let a = rows_upto(row, r - 1);
        let b = row(r - 1);
        assert(rows_upto(row, r) == a + b);
        assert((r - 1) * cols + cols == r * cols) by (nonlinear_arith);
        assert forall|i: int, j: int|
            0 <= i < r && 0 <= j < cols implies #[trigger] rows_upto(row, r)[i * cols + j] == wrap_quad(rows, cols, i, j) by {
            if i < r - 1 {
                lemma_cell_below(r - 1, cols, i, j);
                assert((a + b)[i * cols + j] == a[i * cols + j]);
            } else {
                assert(i * cols + j - (r - 1) * cols == j);
                assert((a + b)[i * cols + j] == b[j]);
            }
        }
    } else {
        assert(rows_upto(row, 0).len() == 0);
    }
}

proof fn lemma_grid_face(rows: int, cols: int, k: int) -> (ij: (int, int))
    requires
        2 <= rows,
        2 <= cols,
        rows * cols <= u32::MAX,
        0 <= k < rows * cols,
    ensures
        wrap_grid(rows, cols).len() == rows * cols,
        0 <= ij.0 < rows,
        0 <= ij.1 < cols,
        k == ij.0 * cols + ij.1,
        ({
            let (i, j) = ij;
            let f = wrap_grid(rows, cols)[k];
            let (ni, nj) = (ring_next(i, rows), ring_next(j, cols));
            &&& f.len() == 4
            &&& f[0] == i * cols + j
            &&& f[1] == i * cols + nj
            &&& f[2] == ni * cols + nj
            &&& f[3] == ni * cols + j
        }),
{
    let row = |i: int| wrap_row(rows, cols, i);
    lemma_grid_rows(rows, cols, row, rows);
    let i = k / cols;
    let j = k % cols;
    vstd::arithmetic::div_mod::lemma_fundamental_div_mod(k, cols);
    assert(0 <= j < cols);
    assert(0 <= i < rows) by (nonlinear_arith)
        requires
            k == cols * i + j,
            0 <= j < cols,
            0 <= k < rows * cols,
    ;
    assert(k == i * cols + j) by (nonlinear_arith)
        requires
            k == cols * i + j,
    ;
    lemma_ring_next(i, rows);
    lemma_ring_next(j, cols);
    let ni = ring_next(i, rows);
    let nj = ring_next(j, cols);
    lemma_cell_below(rows, cols, i, j);
    lemma_cell_below(rows, cols, i, nj);
    lemma_cell_below(rows, cols, ni, nj);
    lemma_cell_below(rows, cols, ni, j);
    assert(wrap_grid(rows, cols)[i * cols + j] == wrap_quad(rows, cols, i, j));
    (i, j)
}

/// A closed grid of at least two rows and two columns closes up with no
/// hole and has no degenerate quad: no quad repeats a corner, and every
/// edge of every quad is an edge of another quad. There is one quad per
/// grid vertex.
pub proof fn law_wrap_grid_closed(rows: int, cols: int)
    requires
        2 <= rows,
        2 <= cols,
        rows * cols <= u32::MAX,
    ensures
        wrap_grid(rows, cols).len() == rows * cols,
        forall|k: int| 0 <= k < wrap_grid(rows, cols).len() ==> corners_distinct(#[trigger] wrap_grid(rows, cols)[k]),
        closed_surface(wrap_grid(rows, cols)),
{
    let fs = wrap_grid(rows, cols);
    assert(rows * cols >= 4) by (nonlinear_arith)
        requires
            2 <= rows,
            2 <= cols,
    ;
    lemma_grid_face(rows, cols, 0);
    assert forall|k: int| 0 <= k < fs.len() implies corners_distinct(#[trigger] fs[k]) by {
        let (i, j) = lemma_grid_face(rows, cols, k);
        lemma_ring_next(i, rows);
        lemma_ring_next(j, cols);
        let ni = ring_next(i, rows);
        let nj = ring_next(j, cols);
        let f = fs[k];
        assert forall|a: int, b: int| 0 <= a < b < f.len() implies f[a] != f[b] by {
            if f[a] == f[b] {
                let ca = if a == 0 { (i, j) } else if a == 1 { (i, nj) } else if a == 2 { (ni, nj) } else { (ni, j) };
                let cb = if b == 0 { (i, j) } else if b == 1 { (i, nj) } else if b == 2 { (ni, nj) } else { (ni, j) };
                lemma_cell_unique(cols, ca.0, ca.1, cb.0, cb.1);
            }
        }
    }
    assert forall|k: int, m: int| 0 <= k < fs.len() && 0 <= m < fs[k].len() implies #[trigger] edge_shared(fs, k, m) by {
        let (i, j) = lemma_grid_face(rows, cols, k);
        lemma_ring_next(i, rows);
        lemma_ring_next(j, cols);
        let ni = ring_next(i, rows);
        let nj = ring_next(j, cols);
        let pi = ring_prev(i, rows);
        let pj = ring_prev(j, cols);
        let (ci, cj, m2) = if m == 0 {
            (pi, j, 2int)
        } else if m == 1 {
            (i, nj, 3int)
        } else if m == 2 {
            (ni, j, 0int)
        } else {
            (i, pj, 1int)
        };
        lemma_ring_next(ci, rows);
        lemma_ring_next(cj, cols);
        lemma_cell_below(rows, cols, ci, cj);
        let k2 = ci * cols + cj;
        let (i2, j2) = lemma_grid_face(rows, cols, k2);
        lemma_cell_unique(cols, i2, j2, ci, cj);
        if k2 == k {
            lemma_cell_unique(cols, i, j, ci, cj);
        }
        assert(same_edge(face_edge(fs[k2], m2), face_edge(fs[k], m)));
    }
}

/// A torus's quads close up with no hole and none is degenerate (see
/// [`law_wrap_grid_closed`]).
pub proof fn law_torus_closed(segments: u32)
    requires
        segments * segments <= u32::MAX,
    ensures
        forall|k: int|
            0 <= k < torus_faces_spec(segments).len() ==> corners_distinct(#[trigger] torus_faces_spec(segments)[k]),
        closed_surface(torus_faces_spec(segments)),
{
    let s: int = if segments < 4 {
        4
    } else {
        segments as int
    };
    if segments >= 4 {
        assert(s * s == segments * segments);
    }
    law_wrap_grid_closed(s, s);
}

/// A torus knot's tube closes up with no hole and none of its quads is
/// degenerate (see [`law_wrap_grid_closed`]).
pub proof fn law_torus_knot_closed(segments: u32)
    requires
        segments * 8 <= u32::MAX,
    ensures
        forall|k: int|
            0 <= k < torus_knot_faces_spec(segments).len() ==> corners_distinct(
                #[trigger] torus_knot_faces_spec(segments)[k],
            ),
        closed_surface(torus_knot_faces_spec(segments)),
{
    let s: int = if segments < 16 {
        16
    } else {
        segments as int
    };
    law_wrap_grid_closed(s, 8);
}

proof fn lemma_rows_index(row: spec_fn(int) -> Seq<Seq<u32>>, cols: int, r: int)
    requires
        1 <= cols,
        0 <= r,
        forall|i: int| 0 <= i < r ==> (#[trigger] row(i)).len() == cols,
    ensures
        rows_upto(row, r).len() == r * cols,
        forall|i: int, j: int|
            0 <= i < r && 0 <= j < cols ==> #[trigger] rows_upto(row, r)[i * cols + j] == row(i)[j],
    decreases r,
{
    if r > 0 {
        lemma_rows_index(row, cols, r - 1);
        let a = rows_upto(row, r - 1);
        let b = row(r - 1);
        assert(b.len() == cols);
        assert(rows_upto(row, r) == a + b);
        assert((r - 1) * cols + cols == r * cols) by (nonlinear_arith);
        assert forall|i: int, j: int|
            0 <= i < r && 0 <= j < cols implies #[trigger] rows_upto(row, r)[i * cols + j] == row(i)[j] by {
            if i < r - 1 {
                lemma_cell_below(r - 1, cols, i, j);
                assert((a + b)[i * cols + j] == a[i * cols + j]);
            } else {
                assert(i * cols + j - (r - 1) * cols == j);
                assert((a + b)[i * cols + j] == b[j]);
            }
        }
    } else {
        assert(rows_upto(row, 0).len() == 0);
    }
}

/// Where face `k` of a sphere with `s` sides lies: the top fan (`0`), a
/// band (`1`, with its band and column) or the bottom fan (`2`).
proof fn lemma_sphere_face(segments: u32, k: int) -> (pos: (int, int, int))
    requires
        sphere_vertex_count(segments) <= u32::MAX,
        0 <= k < sphere_faces_spec(segments).len(),
    ensures
        ({
            let s = sides(segments);
            let f = sphere_faces_spec(segments)[k];
            let (part, i, j) = pos;
            let base = 1 + (s - 2) * s;
            let last = 1 + (s - 1) * s;
            &&& sphere_faces_spec(segments).len() == s * s
            &&& last == base + s
            &&& 0 <= j < s
            &&& part == 0 ==> k == j && f.len() == 3 && f[0] == 0 && f[1] == 1 + ring_next(j, s) && f[2] == 1 + j
            &&& part == 1 ==> {
                let b = 1 + i * s;
                &&& 0 <= i < s - 2
                &&& k == s + i * s + j
                &&& f.len() == 4
                &&& f[0] == b + j
                &&& f[1] == b + ring_next(j, s)
                &&& f[2] == b + s + ring_next(j, s)
                &&& f[3] == b + s + j
            }
            &&& part == 2 ==> k == s + (s - 2) * s + j && f.len() == 3 && f[0] == base + j && f[1] == base + ring_next(
                j,
                s,
            ) && f[2] == last
            &&& 0 <= part <= 2
        }),
{
    let s = sides(segments);
    let base = 1 + (s - 2) * s;
    let last = sphere_vertex_count(segments) - 1;
    assert(last == 1 + (s - 1) * s);
    assert((s - 1) * s == (s - 2) * s + s) by (nonlinear_arith);
    assert(s * s == s + (s - 2) * s + s) by (nonlinear_arith);
    let top = Seq::new(s as nat, |k: int| seq![0u32, (1 + (k + 1) % s) as u32, (1 + k) as u32]);
    let row = |i: int| Seq::new(s as nat, |j: int| sphere_quad(s, i, j));
    let bands = rows_upto(row, s - 2);
    let bottom = Seq::new(s as nat, |j: int| seq![(base + j) as u32, (base + (j + 1) % s) as u32, last as u32]);
    lemma_rows_index(row, s, s - 2);
    assert(sphere_faces_spec(segments) == top + bands + bottom);
    assert(0 <= (s - 2) * s) by (nonlinear_arith)
        requires
            s >= 3,
    ;
    if k < s {
        lemma_ring_next(k, s);
        assert(sphere_faces_spec(segments)[k] == top[k]);
        (0, 0, k)
    } else if k < s + (s - 2) * s {
        let t = k - s;
        let i = t / s;
        let j = t % s;
        vstd::arithmetic::div_mod::lemma_fundamental_div_mod(t, s);
        assert(0 <= i < s - 2) by (nonlinear_arith)
            requires
                t == s * i + j,
                0 <= j < s,
                0 <= t < (s - 2) * s,
        ;
        assert(t == i * s + j) by (nonlinear_arith)
            requires
                t == s * i + j,
        ;
        lemma_ring_next(j, s);
        lemma_cell_below(s - 1, s, i + 1, j);
        lemma_cell_below(s - 1, s, i + 1, ring_next(j, s));
        assert((i + 1) * s == i * s + s) by (nonlinear_arith);
        assert(sphere_faces_spec(segments)[k] == bands[i * s + j]);
        assert(bands[i * s + j] == row(i)[j]);
        (1, i, j)
    } else {
        let j = k - s - (s - 2) * s;
        lemma_ring_next(j, s);
        assert(sphere_faces_spec(segments)[k] == bottom[j]);
        (2, 0, j)
    }
}

proof fn lemma_sphere_top(segments: u32, j: int)
    requires
        sphere_vertex_count(segments) <= u32::MAX,
        0 <= j < sides(segments),
    ensures
        ({
            let s = sides(segments);
            let f = sphere_faces_spec(segments)[j];
            &&& j < sphere_faces_spec(segments).len()
            &&& f.len() == 3 && f[0] == 0 && f[1] == 1 + ring_next(j, s) && f[2] == 1 + j
        }),
{
    let s = sides(segments);
    assert(s * s >= s) by (nonlinear_arith)
        requires
            s >= 3,
    ;
    lemma_sphere_face(segments, 0);
    let (part, i, j2) = lemma_sphere_face(segments, j);
    if part == 1 {
        assert(0 <= i * s) by (nonlinear_arith)
            requires
                0 <= i,
                s >= 3,
        ;
    }
    assert(0 <= (s - 2) * s) by (nonlinear_arith)
        requires
            s >= 3,
    ;
}

proof fn lemma_sphere_band(segments: u32, i: int, j: int)
    requires
        sphere_vertex_count(segments) <= u32::MAX,
        0 <= i < sides(segments) - 2,
        0 <= j < sides(segments),
    ensures
        ({
            let s = sides(segments);
            let k = s + i * s + j;
            let f = sphere_faces_spec(segments)[k];
            let b = 1 + i * s;
            &&& 0 <= k < sphere_faces_spec(segments).len()
            &&& f.len() == 4
            &&& f[0] == b + j
            &&& f[1] == b + ring_next(j, s)
            &&& f[2] == b + s + ring_next(j, s)
            &&& f[3] == b + s + j
        }),
{
    let s = sides(segments);
    lemma_sphere_face(segments, 0);
    lemma_cell_below(s - 2, s, i, j);
    assert(s + (s - 2) * s + s == s * s) by (nonlinear_arith);
    let k = s + i * s + j;
    let (part, i2, j2) = lemma_sphere_face(segments, k);
    if part == 1 {
        lemma_cell_unique(s, i2, j2, i, j);
    }
}

proof fn lemma_sphere_bottom(segments: u32, j: int)
    requires
        sphere_vertex_count(segments) <= u32::MAX,
        0 <= j < sides(segments),
    ensures
        ({
            let s = sides(segments);
            let k = s + (s - 2) * s + j;
            let f = sphere_faces_spec(segments)[k];
            let base = 1 + (s - 2) * s;
            &&& 0 <= k < sphere_faces_spec(segments).len()
            &&& f.len() == 3 && f[0] == base + j && f[1] == base + ring_next(j, s) && f[2] == base + s
        }),
{
    let s = sides(segments);
    lemma_sphere_face(segments, 0);
    assert(s + (s - 2) * s + s == s * s) by (nonlinear_arith);
    let k = s + (s - 2) * s + j;
    let (part, i2, j2) = lemma_sphere_face(segments, k);
    if part == 1 {
        lemma_cell_below(s - 2, s, i2, j2);
    }
}

#[verifier::rlimit(50)]
proof fn lemma_sphere_edge(segments: u32, k: int, m: int)
    requires
        sphere_vertex_count(segments) <= u32::MAX,
        0 <= k < sphere_faces_spec(segments).len(),
        0 <= m < sphere_faces_spec(segments)[k].len(),
    ensures
        edge_shared(sphere_faces_spec(segments), k, m),
{
    let s = sides(segments);
    let fs = sphere_faces_spec(segments);
    let (part, i, j) = lemma_sphere_face(segments, k);
    lemma_ring_next(j, s);
    let nj = ring_next(j, s);
    let pj = ring_prev(j, s);
    lemma_ring_next(nj, s);
    lemma_ring_next(pj, s);
    if part == 0 {
        if m == 0 {
            lemma_sphere_top(segments, nj);
            assert(same_edge(face_edge(fs[nj], 2), face_edge(fs[k], m)));
        } else if m == 1 {
            lemma_sphere_band(segments, 0, j);
            assert(same_edge(face_edge(fs[s + 0 * s + j], 0), face_edge(fs[k], m)));
        } else {
            lemma_sphere_top(segments, pj);
            assert(same_edge(face_edge(fs[pj], 0), face_edge(fs[k], m)));
        }
    } else if part == 1 {
        if m == 0 {
            if i == 0 {
                lemma_sphere_top(segments, j);
                assert(same_edge(face_edge(fs[j], 1), face_edge(fs[k], m)));
            } else {
                lemma_sphere_band(segments, i - 1, j);
                assert(1 + (i - 1) * s + s == 1 + i * s) by (nonlinear_arith);
                assert(same_edge(face_edge(fs[s + (i - 1) * s + j], 2), face_edge(fs[k], m)));
            }
        } else if m == 1 {
            lemma_sphere_band(segments, i, nj);
            assert(same_edge(face_edge(fs[s + i * s + nj], 3), face_edge(fs[k], m)));
        } else if m == 2 {
            if i == s - 3 {
                lemma_sphere_bottom(segments, j);
                assert(1 + i * s + s == 1 + (s - 2) * s) by (nonlinear_arith)
                    requires
                        i == s - 3,
                ;
                assert(same_edge(face_edge(fs[s + (s - 2) * s + j], 0), face_edge(fs[k], m)));
            } else {
                lemma_sphere_band(segments, i + 1, j);
                assert(1 + (i + 1) * s == 1 + i * s + s) by (nonlinear_arith);
                assert(same_edge(face_edge(fs[s + (i + 1) * s + j], 0), face_edge(fs[k], m)));
            }
        } else {
            lemma_sphere_band(segments, i, pj);
            assert(same_edge(face_edge(fs[s + i * s + pj], 1), face_edge(fs[k], m)));
        }
    } else {
        if m == 0 {
            lemma_sphere_band(segments, s - 3, j);
            assert(1 + (s - 3) * s + s == 1 + (s - 2) * s) by (nonlinear_arith);
            assert(same_edge(face_edge(fs[s + (s - 3) * s + j], 2), face_edge(fs[k], m)));
        } else if m == 1 {
            lemma_sphere_bottom(segments, nj);
            assert(same_edge(face_edge(fs[s + (s - 2) * s + nj], 2), face_edge(fs[k], m)));
        } else {
            lemma_sphere_bottom(segments, pj);
            assert(same_edge(face_edge(fs[s + (s - 2) * s + pj], 1), face_edge(fs[k], m)));
        }
    }
    }

/// A sphere's faces close up with no hole and none is degenerate: no face
/// repeats a corner, and every edge of every face is an edge of another
/// face, so the top fan, the bands of quads and the bottom fan meet along
/// every ring. The top fan's triangles all hold the top pole (vertex 0)
/// and the bottom fan's the bottom pole (the last vertex).
pub proof fn law_sphere_closed(segments: u32)
    requires
        sphere_vertex_count(segments) <= u32::MAX,
    ensures
        forall|k: int|
            0 <= k < sphere_faces_spec(segments).len() ==> corners_distinct(#[trigger] sphere_faces_spec(segments)[k]),
        closed_surface(sphere_faces_spec(segments)),
        forall|k: int|
            0 <= k < sides(segments) ==> (#[trigger] sphere_faces_spec(segments)[k]).len() == 3
                && sphere_faces_spec(segments)[k][0] == 0,
        forall|k: int|
            sphere_faces_spec(segments).len() - sides(segments) <= k < sphere_faces_spec(segments).len() ==> (
            #[trigger] sphere_faces_spec(segments)[k]).len() == 3 && sphere_faces_spec(segments)[k][2]
                == sphere_vertex_count(segments) - 1,
{
    let s = sides(segments);
    let fs = sphere_faces_spec(segments);
    lemma_sphere_face(segments, 0);
    assert(sphere_vertex_count(segments) - 1 == 1 + (s - 1) * s);
    assert forall|k: int| 0 <= k < fs.len() implies corners_distinct(#[trigger] fs[k]) by {
        let (part, i, j) = lemma_sphere_face(segments, k);
        lemma_ring_next(j, s);
    }
    assert forall|k: int, m: int| 0 <= k < fs.len() && 0 <= m < fs[k].len() implies #[trigger] edge_shared(fs, k, m) by {
        lemma_sphere_edge(segments, k, m);
    }
    assert forall|k: int| 0 <= k < s implies (#[trigger] fs[k]).len() == 3 && fs[k][0] == 0 by {
        lemma_sphere_top(segments, k);
    }
    assert forall|k: int| fs.len() - s <= k < fs.len() implies (#[trigger] fs[k]).len() == 3 && fs[k][2]
        == sphere_vertex_count(segments) - 1 by {
        let (part, i, j) = lemma_sphere_face(segments, k);
        if part == 1 {
            lemma_cell_below(s - 2, s, i, j);
        }
    }
}

} // verus!
