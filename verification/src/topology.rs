//! Vertex/face incidence, border detection and the candidate edges of
//! the quadric-error edge collapse.

use vstd::prelude::*;
use crate::compressor::Compressor;

verus! {

/// A triangle as three vertex indices.
pub type Tri = [usize; 3];

/// Every vertex index of every face is below `n`.
pub open spec fn faces_in_range(faces: Seq<Tri>, n: nat) -> bool {
    forall|fi: int, j: int| 0 <= fi < faces.len() && 0 <= j < 3 ==> (#[trigger] faces[fi][j]) < n
}

/// The face index `fi`, once for each of the first `j` corners of `f`
/// that is the vertex `v`.
pub open spec fn corner_hits(f: Tri, v: usize, fi: usize, j: int) -> Seq<usize>
    decreases j,
{
    if j <= 0 {
        seq![]
    } else {
        corner_hits(f, v, fi, j - 1) + (if f[j - 1] == v { seq![fi] } else { seq![] })
    }
}

/// The faces around `v`, in face order, a face listed once per corner
/// that is `v`.
pub open spec fn incident_faces(faces: Seq<Tri>, v: usize) -> Seq<usize>
    decreases faces.len(),
{
    if faces.len() == 0 {
        seq![]
    } else {
        incident_faces(faces.drop_last(), v) + corner_hits(
            faces.last(),
            v,
            (faces.len() - 1) as usize,
            3,
        )
    }
}

/// `vf` lists, for each of the `n` vertices, exactly its incident faces.
pub open spec fn is_vertex_face_map(faces: Seq<Tri>, n: nat, vf: Seq<Vec<usize>>) -> bool {
    &&& vf.len() == n
    &&& forall|v: int| 0 <= v < n ==> (#[trigger] vf[v])@ == incident_faces(faces, v as usize)
}

proof fn lemma_corner_hits_bound(f: Tri, v: usize, fi: usize, j: int)
    requires
        j <= 3,
    ensures
        forall|k: int|
            0 <= k < corner_hits(f, v, fi, j).len() ==> #[trigger] corner_hits(f, v, fi, j)[k] == fi
                && (f[0] == v || f[1] == v || f[2] == v),
    decreases j,
{
    if j > 0 {
        lemma_corner_hits_bound(f, v, fi, j - 1);
        let pre = corner_hits(f, v, fi, j - 1);
        let tail: Seq<usize> = if f[j - 1] == v { seq![fi] } else { seq![] };
        assert forall|k: int| 0 <= k < corner_hits(f, v, fi, j).len() implies #[trigger] corner_hits(f, v, fi, j)[k] == fi
                && (f[0] == v || f[1] == v || f[2] == v) by {
            if k < pre.len() {
                assert(corner_hits(f, v, fi, j)[k] == pre[k]);
            } else {
                assert(corner_hits(f, v, fi, j)[k] == tail[k - pre.len()]);
            }
        }
    }
}

/// Every entry of `incident_faces(faces, v)` is a face index, and the
/// face it names has `v` as a corner.
pub proof fn lemma_incident_faces_valid(faces: Seq<Tri>, v: usize)
    requires
        faces.len() <= usize::MAX,
    ensures
        forall|k: int|
            0 <= k < incident_faces(faces, v).len() ==> {
                let fi = #[trigger] incident_faces(faces, v)[k];
                &&& fi < faces.len()
                &&& (faces[fi as int][0] == v || faces[fi as int][1] == v || faces[fi as int][2] == v)
            },
    decreases faces.len(),
{
    if faces.len() > 0 {
        let pre = faces.drop_last();
        lemma_incident_faces_valid(pre, v);
        let last = (faces.len() - 1) as usize;
        let h = corner_hits(faces.last(), v, last, 3);
        lemma_corner_hits_bound(faces.last(), v, last, 3);
        assert forall|k: int| 0 <= k < incident_faces(faces, v).len() implies {
            let fi = #[trigger] incident_faces(faces, v)[k];
            &&& fi < faces.len()
            &&& (faces[fi as int][0] == v || faces[fi as int][1] == v || faces[fi as int][2] == v)
        } by {
            let ip = incident_faces(pre, v);
            if k < ip.len() {
                let fi = ip[k];
                assert(incident_faces(faces, v)[k] == fi);
                assert(pre[fi as int] == faces[fi as int]);
            } else {
                assert(incident_faces(faces, v)[k] == h[k - ip.len()]);
            }
        }
    }
}

impl Compressor {
    /// For each of the `num_verts` vertices, the faces that have it as a
    /// corner, in face order.
    pub fn build_vertex_face_map(num_verts: usize, faces: &Vec<Tri>) -> (map: Vec<Vec<usize>>)
        requires
            faces_in_range(faces@, num_verts as nat),
        ensures
            is_vertex_face_map(faces@, num_verts as nat, map@),
    {
        let mut map: Vec<Vec<usize>> = Vec::new();
        for v in 0..num_verts
            invariant
                map.len() == v,
                forall|u: int| 0 <= u < v ==> (#[trigger] map@[u])@ == Seq::<usize>::empty(),
        {
            map.push(Vec::new());
        }
        let nf = faces.len();
        for fi in 0..nf
            invariant
                nf == faces.len(),
                faces_in_range(faces@, num_verts as nat),
                map.len() == num_verts,
                forall|v: int|
                    0 <= v < num_verts ==> (#[trigger] map@[v])@ == incident_faces(
                        faces@.take(fi as int),
                        v as usize,
                    ),
        {
            let f = faces[fi];
            assert(faces@.take(fi + 1).drop_last() =~= faces@.take(fi as int));
            for j in 0..3
                invariant
                    nf == faces.len(),
                    0 <= fi < nf,
                    f == faces@[fi as int],
                    faces_in_range(faces@, num_verts as nat),
                    map.len() == num_verts,
                    forall|v: int|
                        0 <= v < num_verts ==> (#[trigger] map@[v])@ == incident_faces(
                            faces@.take(fi as int),
                            v as usize,
                        ) + corner_hits(f, v as usize, fi, j as int),
            {
                let x = f[j];
                assert(faces@[fi as int][j as int] < num_verts);
                let mut inner: Vec<usize> = Vec::new();
                map.set_and_swap(x, &mut inner);
                inner.push(fi);
                map.set_and_swap(x, &mut inner);
            }
        }
        assert(faces@.take(nf as int) =~= faces@);
        map
    }
}

/// An undirected edge as (smaller index, larger index).
pub open spec fn edge_key(x: usize, y: usize) -> (usize, usize) {
    if x <= y {
        (x, y)
    } else {
        (y, x)
    }
}

/// The edges among the first `k` sides of `f` (side `i` joins corner `i`
/// to corner `(i + 1) % 3`) that have `v` as an end.
pub open spec fn touching_sides(f: Tri, v: usize, k: int) -> Seq<(usize, usize)>
    decreases k,
{
    if k <= 0 {
        seq![]
    } else {
        touching_sides(f, v, k - 1) + (if f[k - 1] == v || f[k % 3] == v {
            seq![edge_key(f[k - 1], f[k % 3])]
        } else {
            seq![]
        })
    }
}

/// The edges at `v` of the faces listed in `fl`, one entry per face side.
pub open spec fn vertex_edges(faces: Seq<Tri>, fl: Seq<usize>, v: usize) -> Seq<(usize, usize)>
    decreases fl.len(),
{
    if fl.len() == 0 {
        seq![]
    } else {
        vertex_edges(faces, fl.drop_last(), v) + touching_sides(faces[fl.last() as int], v, 3)
    }
}

/// How many times `x` occurs in `s`.
pub open spec fn count_in<T>(s: Seq<T>, x: T) -> nat
    decreases s.len(),
{
    if s.len() == 0 {
        0
    } else {
        count_in(s.drop_last(), x) + (if s.last() == x { 1nat } else { 0nat })
    }
}

/// `v` lies on the border: one of its edges is a side of exactly one of
/// the faces listed around it.
pub open spec fn is_border_vertex(faces: Seq<Tri>, fl: Seq<usize>, v: usize) -> bool {
    let es = vertex_edges(faces, fl, v);
    exists|i: int| 0 <= i < es.len() && count_in(es, #[trigger] es[i]) == 1
}

/// Every listed face index names a face.
pub open spec fn face_lists_in_range(vf: Seq<Vec<usize>>, nf: nat) -> bool {
    forall|v: int, k: int| 0 <= v < vf.len() && 0 <= k < vf[v]@.len() ==> (#[trigger] vf[v]@[k]) < nf
}

fn edges_at_vertex(faces: &Vec<Tri>, fl: &Vec<usize>, v: usize) -> (es: Vec<(usize, usize)>)
    requires
        forall|k: int| 0 <= k < fl@.len() ==> (#[trigger] fl@[k]) < faces@.len(),
    ensures
        es@ == vertex_edges(faces@, fl@, v),
{
    let mut es: Vec<(usize, usize)> = Vec::new();
    let n = fl.len();
    for k in 0..n
        invariant
            n == fl@.len(),
            forall|k: int| 0 <= k < fl@.len() ==> (#[trigger] fl@[k]) < faces@.len(),
            es@ == vertex_edges(faces@, fl@.take(k as int), v),
    {
        let f = faces[fl[k]];
        assert(fl@.take(k + 1).drop_last() =~= fl@.take(k as int));
        let ghost base = es@;
        for i in 0..3
            invariant
                f == faces@[fl@[k as int] as int],
                es@ == base + touching_sides(f, v, i as int),
        {
            let x = f[i];
            let y = f[(i + 1) % 3];
            if x == v || y == v {
                let e = if x <= y { (x, y) } else { (y, x) };
                es.push(e);
            }
            assert(base + touching_sides(f, v, i + 1) =~= base + touching_sides(f, v, i as int) + (
            if f[i as int] == v || f[(i + 1) % 3] == v {
                seq![edge_key(f[i as int], f[(i + 1) % 3])]
            } else {
                seq![]
            }));
        }
    }
    assert(fl@.take(n as int) =~= fl@);
    es
}

fn count_edge(es: &Vec<(usize, usize)>, x: (usize, usize)) -> (c: usize)
    ensures
        c == count_in(es@, x),
{
    let mut c: usize = 0;
    let n = es.len();
    for k in 0..n
        invariant
            n == es@.len(),
            c == count_in(es@.take(k as int), x),
            c <= k,
    {
        assert(es@.take(k + 1).drop_last() =~= es@.take(k as int));
        let e = es[k];
        if e.0 == x.0 && e.1 == x.1 {
            c = c + 1;
        }
    }
    assert(es@.take(n as int) =~= es@);
    c
}

impl Compressor {
    /// For each of the `num_verts` vertices, whether it lies on the border:
    /// some edge at it is the side of exactly one of its listed faces.
    pub fn detect_borders(num_verts: usize, faces: &Vec<Tri>, vertex_faces: &Vec<Vec<usize>>) -> (borders: Vec<bool>)
        requires
            vertex_faces@.len() == num_verts,
            face_lists_in_range(vertex_faces@, faces@.len()),
        ensures
            borders@.len() == num_verts,
            forall|v: int|
                0 <= v < num_verts ==> #[trigger] borders@[v] == is_border_vertex(
                    faces@,
                    vertex_faces@[v]@,
                    v as usize,
                ),
    {
        let mut borders: Vec<bool> = Vec::new();
        for vi in 0..num_verts
            invariant
                vertex_faces@.len() == num_verts,
                face_lists_in_range(vertex_faces@, faces@.len()),
                borders@.len() == vi,
                forall|v: int|
                    0 <= v < vi ==> #[trigger] borders@[v] == is_border_vertex(
                        faces@,
                        vertex_faces@[v]@,
                        v as usize,
                    ),
        {
            let fl = &vertex_faces[vi];
            assert forall|k: int| 0 <= k < fl@.len() implies (#[trigger] fl@[k]) < faces@.len() by {
                assert(vertex_faces@[vi as int]@[k] < faces@.len());
            }
            let es = edges_at_vertex(faces, fl, vi);
            let mut found = false;
            let m = es.len();
            let mut i: usize = 0;
            while i < m && !found
                invariant
                    m == es@.len(),
                    i <= m,
                    found ==> exists|t: int| 0 <= t < es@.len() && count_in(es@, #[trigger] es@[t]) == 1,
                    !found ==> forall|t: int| 0 <= t < i ==> count_in(es@, #[trigger] es@[t]) != 1,
                decreases m - i + (if found { 0int } else { 1int }),
            {
                let c = count_edge(&es, es[i]);
                if c == 1 {
                    found = true;
                } else {
                    i = i + 1;
                }
            }
            proof {
                let es_v = vertex_edges(faces@, vertex_faces@[vi as int]@, vi);
                assert(es@ == es_v);
            }
            borders.push(found);
        }
        borders
    }
}

/// The edge on side `s % 3` of face `s / 3`.
pub open spec fn side_edge(faces: Seq<Tri>, s: int) -> (usize, usize) {
    let f = faces[s / 3];
    let i = s % 3;
    edge_key(f[i], f[(i + 1) % 3])
}

/// Side `s` carries an edge that no earlier side carries.
pub open spec fn first_side(faces: Seq<Tri>, s: int) -> bool {
    forall|t: int| 0 <= t < s ==> side_edge(faces, t) != #[trigger] side_edge(faces, s)
}

/// The two face lists have two different faces in common.
pub open spec fn shares_two_faces(la: Seq<usize>, lb: Seq<usize>) -> bool {
    exists|x: usize, y: usize|
        x != y && #[trigger] la.contains(x) && lb.contains(x) && #[trigger] la.contains(y)
            && lb.contains(y)
}

/// With border preservation on, an edge with a border end that fewer
/// than two faces share is kept out of the collapse candidates.
pub open spec fn is_kept_boundary(
    vf: Seq<Vec<usize>>,
    borders: Seq<bool>,
    preserve_borders: bool,
    e: (usize, usize),
) -> bool {
    &&& preserve_borders
    &&& (borders[e.0 as int] || borders[e.1 as int])
    &&& !shares_two_faces(vf[e.0 as int]@, vf[e.1 as int]@)
}

/// The candidate edges found among the first `s` face sides: each edge
/// at its first side, unless it is a kept boundary.
pub open spec fn candidate_edges(
    faces: Seq<Tri>,
    vf: Seq<Vec<usize>>,
    borders: Seq<bool>,
    preserve_borders: bool,
    s: int,
) -> Seq<(usize, usize)>
    decreases s,
{
    if s <= 0 {
        seq![]
    } else {
        let prev = candidate_edges(faces, vf, borders, preserve_borders, s - 1);
        let e = side_edge(faces, s - 1);
        if first_side(faces, s - 1) && !is_kept_boundary(vf, borders, preserve_borders, e) {
            prev.push(e)
        } else {
            prev
        }
    }
}

/// The 128-bit key of an edge.
pub open spec fn edge_code(e: (usize, usize)) -> int {
    e.0 as int * 0x1_0000_0000_0000_0000 + e.1 as int
}

proof fn lemma_edge_code_injective(e1: (usize, usize), e2: (usize, usize))
    requires
        edge_code(e1) == edge_code(e2),
    ensures
        e1 == e2,
{
    let a1 = e1.0 as int;
    let a2 = e2.0 as int;
    let b1 = e1.1 as int;
    let b2 = e2.1 as int;
    assert(0 <= b1 < 0x1_0000_0000_0000_0000 && 0 <= b2 < 0x1_0000_0000_0000_0000);
    assert(a1 == a2) by (nonlinear_arith)
        requires
            a1 * 0x1_0000_0000_0000_0000 + b1 == a2 * 0x1_0000_0000_0000_0000 + b2,
            0 <= b1 < 0x1_0000_0000_0000_0000,
            0 <= b2 < 0x1_0000_0000_0000_0000,
    {
        if a1 < a2 {
            assert(a2 * 0x1_0000_0000_0000_0000 >= (a1 + 1) * 0x1_0000_0000_0000_0000);
        } else if a1 > a2 {
            assert(a1 * 0x1_0000_0000_0000_0000 >= (a2 + 1) * 0x1_0000_0000_0000_0000);
        }
    }
}

fn edge_code_exec(a: usize, b: usize) -> (k: u128)
    ensures
        k as int == edge_code((a, b)),
{
    let ai = a as u128;
    let bi = b as u128;
    assert(ai * 0x1_0000_0000_0000_0000 + bi <= u128::MAX) by (nonlinear_arith)
        requires
            ai <= 0xffff_ffff_ffff_ffff,
            bi <= 0xffff_ffff_ffff_ffff,
    ;
    ai * 0x1_0000_0000_0000_0000u128 + bi
}

fn list_contains(l: &Vec<usize>, x: usize) -> (r: bool)
    ensures
        r == l@.contains(x),
{
    let n = l.len();
    for i in 0..n
        invariant
            n == l@.len(),
            forall|k: int| 0 <= k < i ==> l@[k] != x,
    {
        if l[i] == x {
            return true;
        }
    }
    false
}

fn shares_two_faces_exec(la: &Vec<usize>, lb: &Vec<usize>) -> (r: bool)
    ensures
        r == shares_two_faces(la@, lb@),
{
    let mut first: Option<usize> = None;
    let n = la.len();
    for i in 0..n
        invariant
            n == la@.len(),
            first is None ==> forall|k: int| 0 <= k < i ==> !lb@.contains(#[trigger] la@[k]),
            first matches Some(y) ==> la@.contains(y) && lb@.contains(y) && forall|k: int|
                0 <= k < i && lb@.contains(#[trigger] la@[k]) ==> la@[k] == y,
    {
        let x = la[i];
        if list_contains(lb, x) {
            match first {
                None => {
                    first = Some(x);
                },
                Some(y) => {
                    if y != x {
                        assert(la@.contains(x) && la@.contains(y));
                        return true;
                    }
                },
            }
        }
    }
    proof {
        if shares_two_faces(la@, lb@) {
            let (x, y) = choose|x: usize, y: usize|
                x != y && #[trigger] la@.contains(x) && lb@.contains(x) && #[trigger] la@.contains(y)
                    && lb@.contains(y);
            let kx = choose|k: int| 0 <= k < la@.len() && la@[k] == x;
            let ky = choose|k: int| 0 <= k < la@.len() && la@[k] == y;
            assert(lb@.contains(la@[kx]) && lb@.contains(la@[ky]));
        }
    }
    false
}

/// The edges that the collapse may take, in the order in which the face
/// sides first carry them: every edge of the faces, once, except the
/// kept boundaries when `preserve_borders` is set.
pub fn collect_candidate_edges(
    faces: &Vec<Tri>,
    vertex_faces: &Vec<Vec<usize>>,
    borders: &Vec<bool>,
    preserve_borders: bool,
) -> (edges: Vec<(usize, usize)>)
    requires
        faces_in_range(faces@, vertex_faces@.len()),
        borders@.len() == vertex_faces@.len(),
    ensures
        edges@ == candidate_edges(
            faces@,
            vertex_faces@,
            borders@,
            preserve_borders,
            3 * faces@.len() as int,
        ),
{
    broadcast use vstd::std_specs::hash::group_hash_axioms;

    let mut edges: Vec<(usize, usize)> = Vec::new();
    let mut seen: std::collections::HashSet<u128> = std::collections::HashSet::new();
    let nf = faces.len();
    let nv = vertex_faces.len();
    for fi in 0..nf
        invariant
            nf == faces@.len(),
            nv == vertex_faces@.len(),
            faces_in_range(faces@, nv as nat),
            borders@.len() == nv,
            edges@ == candidate_edges(faces@, vertex_faces@, borders@, preserve_borders, 3 * fi),
            forall|k: u128|
                #[trigger] seen@.contains(k) <==> exists|t: int|
                    0 <= t < 3 * fi && k == edge_code(side_edge(faces@, t)),
    {
        let f = faces[fi];
        for i in 0..3
            invariant
                nf == faces@.len(),
                nv == vertex_faces@.len(),
                0 <= fi < nf,
                    f == faces@[fi as int],
                faces_in_range(faces@, nv as nat),
                borders@.len() == nv,
                edges@ == candidate_edges(
                    faces@,
                    vertex_faces@,
                    borders@,
                    preserve_borders,
                    3 * fi + i,
                ),
                forall|k: u128|
                    #[trigger] seen@.contains(k) <==> exists|t: int|
                        0 <= t < 3 * fi + i && k == edge_code(side_edge(faces@, t)),
        {
            let ghost s = 3 * fi + i;
            assert(s / 3 == fi && s % 3 == i);
            let x = f[i];
            let y = f[(i + 1) % 3];
            let a = if x <= y { x } else { y };
            let b = if x <= y { y } else { x };
            assert((a, b) == side_edge(faces@, s));
            assert(faces@[fi as int][i as int] < nv && faces@[fi as int][(i + 1) % 3] < nv);
            let key = edge_code_exec(a, b);
            let is_new = !seen.contains(&key);
            proof {
                if is_new {
                    assert forall|t: int| 0 <= t < s implies side_edge(faces@, t) != #[trigger] side_edge(faces@, s) by {
                        if side_edge(faces@, t) == side_edge(faces@, s) {
                            assert(seen@.contains(key));
                        }
                    }
                } else {
                    let t = choose|t: int| 0 <= t < s && key == edge_code(side_edge(faces@, t));
                    lemma_edge_code_injective(side_edge(faces@, t), side_edge(faces@, s));
                }
            }
            if is_new {
                seen.insert(key);
                let kept = preserve_borders && (borders[a] || borders[b]) && !shares_two_faces_exec(
                    &vertex_faces[a],
                    &vertex_faces[b],
                );
                if !kept {
                    edges.push((a, b));
                }
            }
            assert forall|k: u128| #[trigger] seen@.contains(k) <==> exists|t: int|
                0 <= t < s + 1 && k == edge_code(side_edge(faces@, t)) by {
                if seen@.contains(k) && k != key {
                    let t = choose|t: int| 0 <= t < s && k == edge_code(side_edge(faces@, t));
                    assert(0 <= t < s + 1 && k == edge_code(side_edge(faces@, t)));
                }
                if exists|t: int| 0 <= t < s + 1 && k == edge_code(side_edge(faces@, t)) {
                    let t = choose|t: int| 0 <= t < s + 1 && k == edge_code(side_edge(faces@, t));
                }
            }
        }
    }
    edges
}

/// The candidates are edges of the faces, each once, smaller end first.
pub proof fn lemma_candidates_distinct(
    faces: Seq<Tri>,
    vf: Seq<Vec<usize>>,
    borders: Seq<bool>,
    preserve_borders: bool,
    s: int,
)
    requires
        s >= 0,
    ensures
        candidate_edges(faces, vf, borders, preserve_borders, s).no_duplicates(),
        forall|i: int|
            0 <= i < candidate_edges(faces, vf, borders, preserve_borders, s).len() ==> exists|t: int|
                0 <= t < s && side_edge(faces, t) == #[trigger] candidate_edges(faces, vf, borders, preserve_borders, s)[i],
        forall|i: int|
            0 <= i < candidate_edges(faces, vf, borders, preserve_borders, s).len() ==> (#[trigger] candidate_edges(faces, vf, borders, preserve_borders, s)[i]).0
                <= candidate_edges(faces, vf, borders, preserve_borders, s)[i].1,
    decreases s,
{
    if s > 0 {
        lemma_candidates_distinct(faces, vf, borders, preserve_borders, s - 1);
        let prev = candidate_edges(faces, vf, borders, preserve_borders, s - 1);
        let cur = candidate_edges(faces, vf, borders, preserve_borders, s);
        let e = side_edge(faces, s - 1);
        if first_side(faces, s - 1) && !is_kept_boundary(vf, borders, preserve_borders, e) {
            assert(cur == prev.push(e));
            assert forall|i: int| 0 <= i < cur.len() implies exists|t: int| 0 <= t < s && side_edge(faces, t) == #[trigger] cur[i] by {
                if i < prev.len() {
                    assert(cur[i] == prev[i]);
                    let t = choose|t: int| 0 <= t < s - 1 && side_edge(faces, t) == prev[i];
                    assert(0 <= t < s && side_edge(faces, t) == cur[i]);
                } else {
                    assert(side_edge(faces, s - 1) == cur[i]);
                }
            }
            assert forall|i: int, j: int| 0 <= i < j < cur.len() implies cur[i] != cur[j] by {
                if j == prev.len() {
                    let t = choose|t: int| 0 <= t < s - 1 && side_edge(faces, t) == prev[i];
                    assert(side_edge(faces, t) != side_edge(faces, s - 1));
                } else {
                    assert(cur[i] == prev[i] && cur[j] == prev[j]);
                }
            }
            assert forall|i: int| 0 <= i < cur.len() implies (#[trigger] cur[i]).0 <= cur[i].1 by {
                if i < prev.len() {
                    assert(cur[i] == prev[i]);
                }
            }
        }
    }
}

} // verus!
