//! Triangle meshes over an arbitrary scalar type, and the index
//! bookkeeping of the OBJ and STL loaders.

use vstd::prelude::*;
use vstd::string::*;
use crate::error::AppError;

verus! {

/// A triangle mesh: per-vertex positions, normals and texture
/// coordinates, and faces as vertex indices.
pub struct RawMesh<S> {
    pub vertices: Vec<[S; 3]>,
    pub normals: Vec<[S; 3]>,
    pub uvs: Vec<[S; 2]>,
    pub faces: Vec<[u32; 3]>,
}

/// One model of an OBJ file as its loader hands it over: flat position,
/// normal and texture-coordinate arrays and a flat triangle index array.
pub struct ObjModelData<S> {
    pub positions: Vec<S>,
    pub normals: Vec<S>,
    pub texcoords: Vec<S>,
    pub indices: Vec<u32>,
}

/// Consecutive triples of a flat array; a short tail is dropped.
pub open spec fn triples<S>(p: Seq<S>) -> Seq<[S; 3]> {
    Seq::new(p.len() / 3, |i: int| [p[3 * i], p[3 * i + 1], p[3 * i + 2]])
}

/// Consecutive pairs of a flat array; a short tail is dropped.
pub open spec fn pairs<S>(p: Seq<S>) -> Seq<[S; 2]> {
    Seq::new(p.len() / 2, |i: int| [p[2 * i], p[2 * i + 1]])
}

/// `s` lengthened to `n` entries with copies of `z`; unchanged if it is
/// already that long.
pub open spec fn pad_to<T>(s: Seq<T>, n: nat, z: T) -> Seq<T> {
    if s.len() >= n {
        s
    } else {
        s + Seq::new((n - s.len()) as nat, |i: int| z)
    }
}

/// The triangles of a flat index array, each index moved up by `start`.
pub open spec fn offset_triangles(idx: Seq<u32>, start: u32) -> Seq<[u32; 3]> {
    Seq::new(
        idx.len() / 3,
        |k: int|
            [
                (start + idx[3 * k]) as u32,
                (start + idx[3 * k + 1]) as u32,
                (start + idx[3 * k + 2]) as u32,
            ],
    )
}

/// The positions of the first `k` models, in order.
pub open spec fn obj_vertices<S>(models: Seq<ObjModelData<S>>, k: int) -> Seq<[S; 3]>
    decreases k,
{
    if k <= 0 {
        seq![]
    } else {
        obj_vertices(models, k - 1) + triples(models[k - 1].positions@)
    }
}

/// The normals of the first `k` models, in order.
pub open spec fn obj_normals<S>(models: Seq<ObjModelData<S>>, k: int) -> Seq<[S; 3]>
    decreases k,
{
    if k <= 0 {
        seq![]
    } else {
        obj_normals(models, k - 1) + triples(models[k - 1].normals@)
    }
}

/// The texture coordinates of the first `k` models, in order.
pub open spec fn obj_uvs<S>(models: Seq<ObjModelData<S>>, k: int) -> Seq<[S; 2]>
    decreases k,
{
    if k <= 0 {
        seq![]
    } else {
        obj_uvs(models, k - 1) + pairs(models[k - 1].texcoords@)
    }
}

/// Where model `k`'s vertices start in the merged vertex list, as the
/// 32-bit offset its indices are moved by.
pub open spec fn obj_start<S>(models: Seq<ObjModelData<S>>, k: int) -> u32 {
    obj_vertices(models, k).len() as u32
}

/// The faces of the first `k` models, each model's indices moved past
/// the vertices of the models before it.
pub open spec fn obj_faces<S>(models: Seq<ObjModelData<S>>, k: int) -> Seq<[u32; 3]>
    decreases k,
{
    if k <= 0 {
        seq![]
    } else {
        obj_faces(models, k - 1) + offset_triangles(models[k - 1].indices@, obj_start(models, k - 1))
    }
}

/// No moved index of a model passes the 32-bit range.
pub open spec fn obj_indices_fit<S>(models: Seq<ObjModelData<S>>) -> bool {
    forall|k: int, i: int|
        0 <= k < models.len() && 0 <= i < 3 * (models[k].indices@.len() / 3) ==> obj_start(models, k)
            + #[trigger] models[k].indices@[i] <= u32::MAX
}

/// The merged mesh of the models, when it has vertices and faces.
pub open spec fn obj_mesh_ok<S>(models: Seq<ObjModelData<S>>, zero: S, m: RawMesh<S>) -> bool {
    let n = models.len() as int;
    let nv = obj_vertices(models, n).len();
    &&& m.vertices@ == obj_vertices(models, n)
    &&& m.normals@ == pad_to(obj_normals(models, n), nv, [zero, zero, zero])
    &&& m.uvs@ == pad_to(obj_uvs(models, n), nv, [zero, zero])
    &&& m.faces@ == obj_faces(models, n)
}

/// The mesh of the models has no vertex or no face.
pub open spec fn obj_mesh_empty<S>(models: Seq<ObjModelData<S>>) -> bool {
    obj_vertices(models, models.len() as int).len() == 0 || obj_faces(
        models,
        models.len() as int,
    ).len() == 0
}

/// Whether every moved index of the models stays in the 32-bit range.
pub fn obj_indices_fit_exec<S>(models: &Vec<ObjModelData<S>>) -> (ok: bool)
    ensures
        ok == obj_indices_fit(models@),
{
    let mut count: u128 = 0;
    let nm = models.len();
    for k in 0..nm
        invariant
            nm == models@.len(),
            count as int == obj_vertices(models@, k as int).len(),
            count <= k * 0x1_0000_0000_0000_0000,
            forall|kk: int, i: int|
                0 <= kk < k && 0 <= i < 3 * (models@[kk].indices@.len() / 3) ==> obj_start(models@, kk)
                    + #[trigger] models@[kk].indices@[i] <= u32::MAX,
    {
        let start = count as u32;
        let idx = &models[k].indices;
        let limit = idx.len() / 3 * 3;
        for i in 0..limit
            invariant
                nm == models@.len(),
                0 <= k < nm,
                idx == &models@[k as int].indices,
                limit == 3 * (idx@.len() / 3),
                start == obj_start(models@, k as int),
                forall|j: int| 0 <= j < i ==> start + #[trigger] idx@[j] <= u32::MAX,
        {
            if idx[i] > u32::MAX - start {
                return false;
            }
        }
        let np = models[k].positions.len() / 3;
        assert(count + np <= (k + 1) * 0x1_0000_0000_0000_0000) by (nonlinear_arith)
            requires
                count <= k * 0x1_0000_0000_0000_0000,
                np <= 0xffff_ffff_ffff_ffff,
        ;
        assert((k + 1) * 0x1_0000_0000_0000_0000 <= u128::MAX) by (nonlinear_arith)
            requires
                k < 0xffff_ffff_ffff_ffff,
        ;
        count = count + np as u128;
    }
    true
}

/// The message of a mesh without vertices or faces.
pub open spec fn empty_mesh_error(e: AppError, what: Seq<char>) -> bool {
    e is ModelLoad && e.detail() == what
}

/// Merges the models of an OBJ file into one mesh: positions, normals
/// and texture coordinates are concatenated, each model's triangle
/// indices are moved past the vertices of the models before it, and
/// missing normals and texture coordinates are filled with `zero`.
/// A result without vertices or faces is an error.
pub fn merge_obj_models<S: Copy>(models: &Vec<ObjModelData<S>>, zero: S) -> (r: Result<RawMesh<S>, AppError>)
    requires
        obj_indices_fit(models@),
    ensures
        match r {
            Ok(m) => !obj_mesh_empty(models@) && obj_mesh_ok(models@, zero, m),
            Err(e) => obj_mesh_empty(models@) && empty_mesh_error(e, "OBJ has no vertices or faces"@),
        },
        r matches Ok(m) ==> forall|k: int, i: int|
            0 <= k < models@.len() && 0 <= i < models@[k].positions@.len() / 3 ==> #[trigger] m.vertices@[obj_vertices(models@, k).len() + i]
                == [models@[k].positions@[3 * i], models@[k].positions@[3 * i + 1], models@[k].positions@[3 * i + 2]],
        r matches Ok(m) ==> forall|k: int, i: int|
            0 <= k < models@.len() && 0 <= i < models@[k].normals@.len() / 3 ==> #[trigger] m.normals@[obj_normals(models@, k).len() + i]
                == [models@[k].normals@[3 * i], models@[k].normals@[3 * i + 1], models@[k].normals@[3 * i + 2]],
{
    let mut vertices: Vec<[S; 3]> = Vec::new();
    let mut normals: Vec<[S; 3]> = Vec::new();
    let mut uvs: Vec<[S; 2]> = Vec::new();
    let mut faces: Vec<[u32; 3]> = Vec::new();
    let nm = models.len();
    for k in 0..nm
        invariant
            nm == models@.len(),
            obj_indices_fit(models@),
            vertices@ == obj_vertices(models@, k as int),
            normals@ == obj_normals(models@, k as int),
            uvs@ == obj_uvs(models@, k as int),
            faces@ == obj_faces(models@, k as int),
    {
        let model = &models[k];
        let v_start = vertices.len() as u32;
        assert(v_start == obj_start(models@, k as int));
        let ghost v0 = vertices@;
        let lp = model.positions.len();
        let np = lp / 3;
        for i in 0..np
            invariant
                nm == models@.len(),
                0 <= k < nm,
                lp == model.positions@.len(),
                model == &models@[k as int],
                np == model.positions@.len() / 3,
                vertices@ == v0 + triples(model.positions@).take(i as int),
        {
            let p = &model.positions;
            vertices.push([p[3 * i], p[3 * i + 1], p[3 * i + 2]]);
            assert(triples(model.positions@).take(i + 1) =~= triples(model.positions@).take(i as int).push([p@[3 * i], p@[3 * i + 1], p@[3 * i + 2]]));
        }
        assert(triples(model.positions@).take(np as int) =~= triples(model.positions@));
        let ghost n0 = normals@;
        let ln = model.normals.len();
        let nn = ln / 3;
        if model.normals.len() > 0 {
            for i in 0..nn
                invariant
                    nm == models@.len(),
                    0 <= k < nm,
                    ln == model.normals@.len(),
                    model == &models@[k as int],
                    nn == model.normals@.len() / 3,
                    normals@ == n0 + triples(model.normals@).take(i as int),
            {
                let p = &model.normals;
                normals.push([p[3 * i], p[3 * i + 1], p[3 * i + 2]]);
                assert(triples(model.normals@).take(i + 1) =~= triples(model.normals@).take(i as int).push([p@[3 * i], p@[3 * i + 1], p@[3 * i + 2]]));
            }
        }
        assert(triples(model.normals@).take(nn as int) =~= triples(model.normals@));
        let ghost t0 = uvs@;
        let lt = model.texcoords.len();
        let nt = lt / 2;
        if model.texcoords.len() > 0 {
            for i in 0..nt
                invariant
                    nm == models@.len(),
                    0 <= k < nm,
                    lt == model.texcoords@.len(),
                    model == &models@[k as int],
                    nt == model.texcoords@.len() / 2,
                    uvs@ == t0 + pairs(model.texcoords@).take(i as int),
            {
                let p = &model.texcoords;
                uvs.push([p[2 * i], p[2 * i + 1]]);
                assert(pairs(model.texcoords@).take(i + 1) =~= pairs(model.texcoords@).take(i as int).push([p@[2 * i], p@[2 * i + 1]]));
            }
        }
        assert(pairs(model.texcoords@).take(nt as int) =~= pairs(model.texcoords@));
        let ghost f0 = faces@;
        let li = model.indices.len();
        let ni = li / 3;
        for t in 0..ni
            invariant
                li == model.indices@.len(),
                nm == models@.len(),
                0 <= k < nm,
                obj_indices_fit(models@),
                model == &models@[k as int],
                ni == model.indices@.len() / 3,
                v_start == obj_start(models@, k as int),
                faces@ == f0 + offset_triangles(model.indices@, v_start).take(t as int),
        {
            let idx = &model.indices;
            assert(v_start + idx@[3 * t] <= u32::MAX);
            assert(v_start + idx@[3 * t + 1] <= u32::MAX);
            assert(v_start + idx@[3 * t + 2] <= u32::MAX);
            faces.push([v_start + idx[3 * t], v_start + idx[3 * t + 1], v_start + idx[3 * t + 2]]);
            assert(offset_triangles(model.indices@, v_start).take(t + 1) =~= offset_triangles(model.indices@, v_start).take(t as int).push([
                (v_start + idx@[3 * t]) as u32,
                (v_start + idx@[3 * t + 1]) as u32,
                (v_start + idx@[3 * t + 2]) as u32,
            ]));
        }
        assert(offset_triangles(model.indices@, v_start).take(ni as int) =~= offset_triangles(model.indices@, v_start));
    }
    let ghost all_n = normals@;
    let ghost all_t = uvs@;
    let nv = vertices.len();
    while normals.len() < nv
        invariant
            nv == vertices@.len(),
            all_n.len() >= nv ==> normals@ == all_n,
            all_n.len() < nv ==> normals@ == all_n + Seq::new((normals@.len() - all_n.len()) as nat, |i: int| [zero, zero, zero]),
            all_n.len() < nv ==> all_n.len() <= normals@.len() <= nv,
        decreases nv - normals@.len(),
    {
        normals.push([zero, zero, zero]);
    }
    while uvs.len() < nv
        invariant
            nv == vertices@.len(),
            all_t.len() >= nv ==> uvs@ == all_t,
            all_t.len() < nv ==> uvs@ == all_t + Seq::new((uvs@.len() - all_t.len()) as nat, |i: int| [zero, zero]),
            all_t.len() < nv ==> all_t.len() <= uvs@.len() <= nv,
        decreases nv - uvs@.len(),
    {
        uvs.push([zero, zero]);
    }
    if vertices.len() == 0 || faces.len() == 0 {
        return Err(AppError::ModelLoad(String::from_str("OBJ has no vertices or faces")));
    }
    let m = RawMesh { vertices, normals, uvs, faces };
    proof {
        lemma_obj_merge_keeps_positions(models@, zero, m);
        lemma_obj_merge_keeps_normals(models@, zero, m);
    }
    Ok(m)
}

/// One facet of an STL file as its reader hands it over: the facet
/// normal and indices into the shared vertex list.
pub struct StlFace<S> {
    pub normal: [S; 3],
    pub vertices: [usize; 3],
}

/// The shared-vertex index at corner `s % 3` of facet `s / 3`.
pub open spec fn stl_corner<S>(faces: Seq<StlFace<S>>, s: int) -> usize {
    faces[s / 3].vertices[s % 3]
}

/// The identity of corner `s`: its shared-vertex index times a million
/// plus the corner's own number.
pub open spec fn stl_key<S>(faces: Seq<StlFace<S>>, s: int) -> int {
    stl_corner(faces, s) * 1_000_000 + s
}

/// An earlier corner has the same identity as corner `s`.
pub open spec fn stl_key_seen<S>(faces: Seq<StlFace<S>>, s: int) -> bool {
    exists|t: int| 0 <= t < s && stl_key(faces, t) == stl_key(faces, s)
}

/// What the corners up to some point have built: the index given to
/// each identity, the output vertices and normals, and the output index
/// of each corner.
pub struct StlBuild<S> {
    pub index_of: Map<int, int>,
    pub vertices: Seq<[S; 3]>,
    pub normals: Seq<[S; 3]>,
    pub corners: Seq<u32>,
}

/// Corner by corner: a corner whose identity is new adds an output
/// vertex (the shared vertex it names, with its facet's normal); a corner
/// whose identity was seen reuses that vertex.
pub open spec fn stl_build<S>(vertices: Seq<[S; 3]>, faces: Seq<StlFace<S>>, n: int) -> StlBuild<S>
    decreases n,
{
    if n <= 0 {
        StlBuild { index_of: Map::empty(), vertices: seq![], normals: seq![], corners: seq![] }
    } else {
        let b = stl_build(vertices, faces, n - 1);
        let s = n - 1;
        let key = stl_key(faces, s);
        if b.index_of.contains_key(key) {
            StlBuild { corners: b.corners.push(b.index_of[key] as u32), ..b }
        } else {
            let idx = b.vertices.len() as int;
            StlBuild {
                index_of: b.index_of.insert(key, idx),
                vertices: b.vertices.push(vertices[stl_corner(faces, s) as int]),
                normals: b.normals.push(faces[s / 3].normal),
                corners: b.corners.push(idx as u32),
            }
        }
    }
}

/// The corner identities fit the machine word, and each corner with a
/// new identity names a shared vertex that exists.
pub open spec fn stl_indices_ok<S>(vertex_count: nat, faces: Seq<StlFace<S>>) -> bool {
    &&& 3 * faces.len() <= usize::MAX
    &&& forall|s: int| 0 <= s < 3 * faces.len() ==> #[trigger] stl_key(faces, s) <= usize::MAX
    &&& forall|s: int|
        0 <= s < 3 * faces.len() && !#[trigger] stl_key_seen(faces, s) ==> stl_corner(faces, s)
            < vertex_count
}

/// The mesh built from the facets.
pub open spec fn stl_mesh_ok<S>(vertices: Seq<[S; 3]>, faces: Seq<StlFace<S>>, zero: S, m: RawMesh<S>) -> bool {
    let b = stl_build(vertices, faces, 3 * faces.len() as int);
    &&& m.vertices@ == b.vertices
    &&& m.normals@ == b.normals
    &&& m.uvs@ == Seq::new(b.vertices.len(), |i: int| [zero, zero])
    &&& m.faces@ == Seq::new(faces.len(), |fi: int| [b.corners[3 * fi], b.corners[3 * fi + 1], b.corners[3 * fi + 2]])
}

proof fn lemma_stl_build_domain<S>(vertices: Seq<[S; 3]>, faces: Seq<StlFace<S>>, n: int)
    requires
        n >= 0,
    ensures
        forall|k: int| #[trigger] stl_build(vertices, faces, n).index_of.contains_key(k) <==> exists|t: int|
            0 <= t < n && stl_key(faces, t) == k,
        stl_build(vertices, faces, n).corners.len() == n,
        stl_build(vertices, faces, n).normals.len() == stl_build(vertices, faces, n).vertices.len(),
    decreases n,
{
    if n > 0 {
        lemma_stl_build_domain(vertices, faces, n - 1);
        let b = stl_build(vertices, faces, n - 1);
        assert forall|k: int| #[trigger] stl_build(vertices, faces, n).index_of.contains_key(k) <==> exists|t: int|
            0 <= t < n && stl_key(faces, t) == k by {
            if exists|t: int| 0 <= t < n && stl_key(faces, t) == k {
                let t = choose|t: int| 0 <= t < n && stl_key(faces, t) == k;
                if t < n - 1 {
                    assert(b.index_of.contains_key(k));
                }
            }
            if b.index_of.contains_key(k) {
                let t = choose|t: int| 0 <= t < n - 1 && stl_key(faces, t) == k;
                assert(0 <= t < n && stl_key(faces, t) == k);
            }
        }
    }
}

/// Whether the facets' corner identities fit and every new identity
/// names an existing shared vertex.
pub fn stl_indices_ok_exec<S>(vertex_count: usize, faces: &Vec<StlFace<S>>) -> (ok: bool)
    ensures
        ok == stl_indices_ok(vertex_count as nat, faces@),
{
    broadcast use vstd::std_specs::hash::group_hash_axioms;

    let nf = faces.len();
    if nf > usize::MAX / 3 {
        return false;
    }
    let mut seen: std::collections::HashSet<usize> = std::collections::HashSet::new();
    for fi in 0..nf
        invariant
            nf == faces@.len(),
            3 * nf <= usize::MAX,
            forall|s: int| 0 <= s < 3 * fi ==> #[trigger] stl_key(faces@, s) <= usize::MAX,
            forall|s: int|
                0 <= s < 3 * fi && !#[trigger] stl_key_seen(faces@, s) ==> stl_corner(faces@, s) < vertex_count,
            forall|k: usize| #[trigger] seen@.contains(k) <==> exists|t: int| 0 <= t < 3 * fi && stl_key(faces@, t) == k,
    {
        for j in 0..3
            invariant
                nf == faces@.len(),
                0 <= fi < nf,
                3 * nf <= usize::MAX,
                forall|s: int| 0 <= s < 3 * fi + j ==> #[trigger] stl_key(faces@, s) <= usize::MAX,
                forall|s: int|
                    0 <= s < 3 * fi + j && !#[trigger] stl_key_seen(faces@, s) ==> stl_corner(faces@, s) < vertex_count,
                forall|k: usize| #[trigger] seen@.contains(k) <==> exists|t: int| 0 <= t < 3 * fi + j && stl_key(faces@, t) == k,
        {
            let ghost s = 3 * fi + j;
            assert(s / 3 == fi && s % 3 == j);
            let g = fi * 3 + j;
            let v = faces[fi].vertices[j];
            assert(v == stl_corner(faces@, s));
            if v > (usize::MAX - g) / 1_000_000 {
                assert(stl_key(faces@, s) > usize::MAX) by (nonlinear_arith)
                    requires
                        v > (usize::MAX - g) / 1_000_000,
                        stl_key(faces@, s) == v * 1_000_000 + g,
                        g <= usize::MAX,
                ;
                return false;
            }
            assert(v * 1_000_000 + g <= usize::MAX) by (nonlinear_arith)
                requires
                    v <= (usize::MAX - g) / 1_000_000,
                    g <= usize::MAX,
            ;
            let key = v * 1_000_000 + g;
            assert(stl_key(faces@, s) == key as int);
            if !seen.contains(&key) {
                assert(!stl_key_seen(faces@, s));
                if v >= vertex_count {
                    return false;
                }
                seen.insert(key);
            } else {
                assert(stl_key_seen(faces@, s));
            }
            assert forall|k: usize| #[trigger] seen@.contains(k) <==> exists|t: int| 0 <= t < s + 1 && stl_key(faces@, t) == k by {
                if exists|t: int| 0 <= t < s + 1 && stl_key(faces@, t) == k {
                    let t = choose|t: int| 0 <= t < s + 1 && stl_key(faces@, t) == k;
                }
                if seen@.contains(k) && k != key {
                    let t = choose|t: int| 0 <= t < s && stl_key(faces@, t) == k;
                    assert(0 <= t < s + 1);
                }
                if k == key {
                    assert(0 <= s < s + 1 && stl_key(faces@, s) == k);
                }
            }
        }
    }
    true
}

/// The hash map holds exactly the identities and indices of `idx`.
pub open spec fn map_matches(m: Map<usize, usize>, idx: Map<int, int>) -> bool {
    &&& forall|k: usize| #[trigger] m.contains_key(k) <==> idx.contains_key(k as int)
    &&& forall|k: usize| #[trigger] m.contains_key(k) ==> m[k] as int == idx[k as int]
    &&& forall|k: int| #[trigger] idx.contains_key(k) ==> 0 <= k <= usize::MAX
}

fn stl_corner_step<S: Copy>(
    vertices: &Vec<[S; 3]>,
    faces: &Vec<StlFace<S>>,
    fi: usize,
    j: usize,
    map: &mut std::collections::HashMap<usize, usize>,
    dv: &mut Vec<[S; 3]>,
    dn: &mut Vec<[S; 3]>,
    Ghost(b): Ghost<StlBuild<S>>,
) -> (c: u32)
    requires
        stl_indices_ok(vertices@.len(), faces@),
        fi < faces@.len(),
        j < 3,
        b == stl_build(vertices@, faces@, 3 * fi + j),
        old(dv)@ == b.vertices,
        old(dn)@ == b.normals,
        map_matches(old(map)@, b.index_of),
    ensures
        ({
            let b2 = stl_build(vertices@, faces@, 3 * fi + j + 1);
            &&& final(dv)@ == b2.vertices
            &&& final(dn)@ == b2.normals
            &&& map_matches(final(map)@, b2.index_of)
            &&& b2.corners == b.corners.push(c)
        }),
{
    broadcast use vstd::std_specs::hash::group_hash_axioms;

    let ghost s = 3 * fi + j;
    assert(s / 3 == fi && s % 3 == j);
    proof {
        lemma_stl_build_domain(vertices@, faces@, s);
    }
    let g = fi * 3 + j;
    let v = faces[fi].vertices[j];
    assert(stl_key(faces@, s) <= usize::MAX);
    let key = v * 1_000_000 + g;
    assert(key as int == stl_key(faces@, s));
    match map.get(&key) {
        Some(idx) => {
            let c = *idx as u32;
            assert(b.index_of.contains_key(key as int));
            c
        },
        None => {
            assert(!b.index_of.contains_key(key as int));
            assert(!stl_key_seen(faces@, s)) by {
                if stl_key_seen(faces@, s) {
                    let t = choose|t: int| 0 <= t < s && stl_key(faces@, t) == stl_key(faces@, s);
                    assert(b.index_of.contains_key(key as int));
                }
            }
            assert(v < vertices@.len());
            let new_idx = dv.len();
            dv.push(vertices[v]);
            dn.push(faces[fi].normal);
            map.insert(key, new_idx);
            let ghost b2 = stl_build(vertices@, faces@, s + 1);
            assert(b2.index_of == b.index_of.insert(key as int, new_idx as int));
            assert forall|k: int| #[trigger] b2.index_of.contains_key(k) implies 0 <= k <= usize::MAX by {
                if k != key as int {
                    assert(b.index_of.contains_key(k));
                }
            }
            assert forall|k: usize| #[trigger] map@.contains_key(k) <==> b2.index_of.contains_key(k as int) by {
                if k != key {
                    assert(old(map)@.contains_key(k) <==> b.index_of.contains_key(k as int));
                }
            }
            new_idx as u32
        },
    }
}

/// The three corner indices of facet `fi` among built corners `c`.
pub open spec fn facet_of(c: Seq<u32>, fi: int) -> [u32; 3] {
    [c[3 * fi], c[3 * fi + 1], c[3 * fi + 2]]
}

/// Builds an indexed mesh from STL facets: each corner's (shared vertex,
/// corner number) identity gets one output vertex carrying the shared
/// vertex's position and its facet's normal, texture coordinates are
/// `zero`, and each facet becomes a face over its corners' output
/// vertices. A result without vertices or faces is an error.
pub fn index_stl<S: Copy>(vertices: &Vec<[S; 3]>, faces: &Vec<StlFace<S>>, zero: S) -> (r: Result<RawMesh<S>, AppError>)
    requires
        stl_indices_ok(vertices@.len(), faces@),
    ensures
        match r {
            Ok(m) => faces@.len() > 0 && stl_mesh_ok(vertices@, faces@, zero, m),
            Err(e) => faces@.len() == 0 && empty_mesh_error(e, "STL has no vertices or faces"@),
        },
{
    let mut map: std::collections::HashMap<usize, usize> = std::collections::HashMap::new();
    let mut dv: Vec<[S; 3]> = Vec::new();
    let mut dn: Vec<[S; 3]> = Vec::new();
    let mut out: Vec<[u32; 3]> = Vec::new();
    let nf = faces.len();
    let ghost mut corners: Seq<u32> = seq![];
    for fi in 0..nf
        invariant
            nf == faces@.len(),
            stl_indices_ok(vertices@.len(), faces@),
            ({
                let b = stl_build(vertices@, faces@, 3 * fi);
                &&& dv@ == b.vertices
                &&& dn@ == b.normals
                &&& map_matches(map@, b.index_of)
                &&& corners == b.corners
            }),
            corners.len() == 3 * fi,
            out@ == Seq::new(fi as nat, |k: int| facet_of(corners, k)),
    {
        let ghost c0s = corners;
        let c0 = stl_corner_step(vertices, faces, fi, 0, &mut map, &mut dv, &mut dn, Ghost(stl_build(vertices@, faces@, 3 * fi)));
        proof { corners = corners.push(c0); }
        let c1 = stl_corner_step(vertices, faces, fi, 1, &mut map, &mut dv, &mut dn, Ghost(stl_build(vertices@, faces@, 3 * fi + 1)));
        proof { corners = corners.push(c1); }
        let c2 = stl_corner_step(vertices, faces, fi, 2, &mut map, &mut dv, &mut dn, Ghost(stl_build(vertices@, faces@, 3 * fi + 2)));
        proof { corners = corners.push(c2); }
        out.push([c0, c1, c2]);
        assert(out@ =~= Seq::new((fi + 1) as nat, |k: int| facet_of(corners, k))) by {
            assert forall|k: int| 0 <= k < fi + 1 implies out@[k] == facet_of(corners, k) by {
                if k < fi {
                    assert(corners[3 * k] == c0s[3 * k]);
                    assert(corners[3 * k + 1] == c0s[3 * k + 1]);
                    assert(corners[3 * k + 2] == c0s[3 * k + 2]);
                }
            }
        }
    }
    let nv = dv.len();
    let mut uvs: Vec<[S; 2]> = Vec::new();
    for i in 0..nv
        invariant
            uvs@ == Seq::new(i as nat, |k: int| [zero, zero]),
    {
        uvs.push([zero, zero]);
    }
    if dv.len() == 0 || out.len() == 0 {
        proof {
            if nf > 0 {
                lemma_stl_build_domain(vertices@, faces@, 0);
                reveal_with_fuel(stl_build, 2);
                assert(stl_build(vertices@, faces@, 1).vertices.len() == 1);
                lemma_stl_build_grows(vertices@, faces@, 1, 3 * nf as int);
            }
        }
        return Err(AppError::ModelLoad(String::from_str("STL has no vertices or faces")));
    }
    let ghost b = stl_build(vertices@, faces@, 3 * faces@.len() as int);
    assert(dv@ == b.vertices);
    assert(corners == b.corners);
    assert(out@ =~= Seq::new(faces@.len(), |fi: int| [b.corners[3 * fi], b.corners[3 * fi + 1], b.corners[3 * fi + 2]]));
    Ok(RawMesh { vertices: dv, normals: dn, uvs, faces: out })
}

proof fn lemma_stl_build_grows<S>(vertices: Seq<[S; 3]>, faces: Seq<StlFace<S>>, m: int, n: int)
    requires
        0 <= m <= n,
    ensures
        stl_build(vertices, faces, m).vertices.len() <= stl_build(vertices, faces, n).vertices.len(),
    decreases n - m,
{
    if m < n {
        lemma_stl_build_grows(vertices, faces, m, n - 1);
    }
}

/// Every vertex of a merged OBJ mesh has a normal and a texture
/// coordinate.
pub proof fn lemma_obj_attributes_per_vertex<S>(models: Seq<ObjModelData<S>>, zero: S, m: RawMesh<S>)
    requires
        obj_mesh_ok(models, zero, m),
    ensures
        m.normals@.len() >= m.vertices@.len(),
        m.uvs@.len() >= m.vertices@.len(),
{
}

/// Each model's triangle indices name its own vertices.
pub open spec fn obj_models_indexed<S>(models: Seq<ObjModelData<S>>) -> bool {
    forall|k: int, i: int|
        0 <= k < models.len() && 0 <= i < 3 * (models[k].indices@.len() / 3) ==> (
        #[trigger] models[k].indices@[i]) < models[k].positions@.len() / 3
}

proof fn lemma_obj_vertices_len<S>(models: Seq<ObjModelData<S>>, j: int, k: int)
    requires
        0 <= j <= k <= models.len(),
    ensures
        obj_vertices(models, j).len() <= obj_vertices(models, k).len(),
        j < k ==> obj_vertices(models, j).len() + models[j].positions@.len() / 3 <= obj_vertices(models, k).len(),
    decreases k - j,
{
    if j < k {
        lemma_obj_vertices_len(models, j, k - 1);
    }
}

proof fn lemma_obj_faces_prefix_in_range<S>(models: Seq<ObjModelData<S>>, k: int)
    requires
        0 <= k <= models.len(),
        obj_models_indexed(models),
        obj_vertices(models, models.len() as int).len() <= u32::MAX,
    ensures
        forall|f: int, j: int|
            0 <= f < obj_faces(models, k).len() && 0 <= j < 3 ==> (#[trigger] obj_faces(models, k)[f][j])
                < obj_vertices(models, k).len(),
    decreases k,
{
    if k > 0 {
        lemma_obj_faces_prefix_in_range(models, k - 1);
        lemma_obj_vertices_len(models, k - 1, models.len() as int);
        let prev = obj_faces(models, k - 1);
        let start = obj_start(models, k - 1);
        let base = obj_vertices(models, k - 1).len();
        assert(start == base);
        let idx = models[k - 1].indices@;
        let tri = offset_triangles(idx, start);
        let cur = obj_faces(models, k);
        let nvk = obj_vertices(models, k).len();
        assert(nvk == base + models[k - 1].positions@.len() / 3);
        assert forall|f: int, j: int| 0 <= f < cur.len() && 0 <= j < 3 implies (#[trigger] cur[f][j]) < nvk by {
            if f < prev.len() {
                assert(cur[f] == prev[f]);
            } else {
                let t = f - prev.len();
                assert(cur[f] == tri[t]);
                assert(idx[3 * t] < models[k - 1].positions@.len() / 3);
                assert(idx[3 * t + 1] < models[k - 1].positions@.len() / 3);
                assert(idx[3 * t + 2] < models[k - 1].positions@.len() / 3);
            }
        }
    }
}

/// When each model's indices name its own vertices, every face of the
/// merged mesh names a merged vertex.
pub proof fn lemma_obj_faces_in_range<S>(models: Seq<ObjModelData<S>>, zero: S, m: RawMesh<S>)
    requires
        obj_mesh_ok(models, zero, m),
        obj_models_indexed(models),
        m.vertices@.len() <= u32::MAX,
    ensures
        forall|f: int, j: int| 0 <= f < m.faces@.len() && 0 <= j < 3 ==> (#[trigger] m.faces@[f][j]) < m.vertices@.len(),
{
    lemma_obj_faces_prefix_in_range(models, models.len() as int);
}

proof fn lemma_stl_build_indices<S>(vertices: Seq<[S; 3]>, faces: Seq<StlFace<S>>, n: int)
    requires
        n >= 0,
    ensures
        forall|k: int| #[trigger] stl_build(vertices, faces, n).index_of.contains_key(k) ==> 0 <= stl_build(vertices, faces, n).index_of[k] < stl_build(vertices, faces, n).vertices.len(),
        forall|s: int| 0 <= s < n ==> (#[trigger] stl_build(vertices, faces, n).corners[s]) as int == (stl_build(vertices, faces, s + 1).corners[s]),
        stl_build(vertices, faces, n).vertices.len() <= n,
        stl_build(vertices, faces, n).corners.len() == n,
    decreases n,
{
    if n > 0 {
        lemma_stl_build_indices(vertices, faces, n - 1);
        let b = stl_build(vertices, faces, n - 1);
        let b2 = stl_build(vertices, faces, n);
        assert forall|s: int| 0 <= s < n implies (#[trigger] b2.corners[s]) as int == (stl_build(vertices, faces, s + 1).corners[s]) by {
            if s < n - 1 {
                assert(b2.corners[s] == b.corners[s]);
            }
        }
    }
}

/// Every vertex of an indexed STL mesh has a normal and a texture
/// coordinate, and, with fewer than 2^32 corners, every face names an
/// output vertex.
pub proof fn lemma_stl_mesh_sound<S>(vertices: Seq<[S; 3]>, faces: Seq<StlFace<S>>, zero: S, m: RawMesh<S>)
    requires
        stl_mesh_ok(vertices, faces, zero, m),
        3 * faces.len() <= u32::MAX,
    ensures
        m.normals@.len() == m.vertices@.len(),
        m.uvs@.len() == m.vertices@.len(),
        forall|f: int, j: int| 0 <= f < m.faces@.len() && 0 <= j < 3 ==> (#[trigger] m.faces@[f][j]) < m.vertices@.len(),
{
    let n = 3 * faces.len() as int;
    lemma_stl_build_domain(vertices, faces, n);
    lemma_stl_build_indices(vertices, faces, n);
    let b = stl_build(vertices, faces, n);
    assert forall|s: int| 0 <= s < n implies (#[trigger] b.corners[s]) < b.vertices.len() by {
        lemma_stl_build_indices(vertices, faces, s + 1);
        lemma_stl_build_grows(vertices, faces, s + 1, n);
        lemma_stl_build_domain(vertices, faces, s);
        let bs = stl_build(vertices, faces, s);
        let key = stl_key(faces, s);
        lemma_stl_build_indices(vertices, faces, s);
        lemma_stl_build_grows(vertices, faces, s, n);
    }
    assert forall|f: int, j: int| 0 <= f < m.faces@.len() && 0 <= j < 3 implies (#[trigger] m.faces@[f][j]) < m.vertices@.len() by {
        assert(m.faces@[f] == [b.corners[3 * f], b.corners[3 * f + 1], b.corners[3 * f + 2]]);
        assert(b.corners[3 * f + j] < b.vertices.len());
    }
}

/// When no two corners share an identity, indexing shares nothing: each
/// corner gets its own output vertex, in corner order, with its facet's
/// normal, and facet `f` becomes the face of corners `3f`, `3f+1`, `3f+2`.
pub proof fn lemma_stl_distinct_corners_unshared<S>(vertices: Seq<[S; 3]>, faces: Seq<StlFace<S>>, n: int)
    requires
        0 <= n <= 3 * faces.len(),
        n <= u32::MAX,
        forall|s: int, t: int| 0 <= s < t < 3 * faces.len() ==> stl_key(faces, s) != stl_key(faces, t),
    ensures
        stl_build(vertices, faces, n).vertices == Seq::new(n as nat, |s: int| vertices[stl_corner(faces, s) as int]),
        stl_build(vertices, faces, n).normals == Seq::new(n as nat, |s: int| faces[s / 3].normal),
        stl_build(vertices, faces, n).corners == Seq::new(n as nat, |s: int| s as u32),
    decreases n,
{
    if n > 0 {
        lemma_stl_distinct_corners_unshared(vertices, faces, n - 1);
        lemma_stl_build_domain(vertices, faces, n - 1);
        let b = stl_build(vertices, faces, n - 1);
        let key = stl_key(faces, n - 1);
        if b.index_of.contains_key(key) {
            let t = choose|t: int| 0 <= t < n - 1 && stl_key(faces, t) == key;
            assert(false);
        }
        let b2 = stl_build(vertices, faces, n);
        assert(b2.vertices =~= Seq::new(n as nat, |s: int| vertices[stl_corner(faces, s) as int]));
        assert(b2.normals =~= Seq::new(n as nat, |s: int| faces[s / 3].normal));
        assert(b2.corners =~= Seq::new(n as nat, |s: int| s as u32));
    }
}

proof fn lemma_obj_vertices_prefix<S>(models: Seq<ObjModelData<S>>, k: int, j: int)
    requires
        0 <= k <= j <= models.len(),
    ensures
        obj_vertices(models, k).len() <= obj_vertices(models, j).len(),
        forall|x: int| 0 <= x < obj_vertices(models, k).len() ==> #[trigger] obj_vertices(models, j)[x] == obj_vertices(models, k)[x],
        obj_normals(models, k).len() <= obj_normals(models, j).len(),
        forall|x: int| 0 <= x < obj_normals(models, k).len() ==> #[trigger] obj_normals(models, j)[x] == obj_normals(models, k)[x],
        obj_uvs(models, k).len() <= obj_uvs(models, j).len(),
        forall|x: int| 0 <= x < obj_uvs(models, k).len() ==> #[trigger] obj_uvs(models, j)[x] == obj_uvs(models, k)[x],
    decreases j - k,
{
    if k < j {
        lemma_obj_vertices_prefix(models, k, j - 1);
    }
}

/// Merged OBJ models keep every model's positions in place: position
/// `i` of model `k` is the merged vertex just past the vertices of the
/// models before it, built from that model's coordinates `3i`, `3i + 1`
/// and `3i + 2`.
pub proof fn lemma_obj_merge_keeps_positions<S>(models: Seq<ObjModelData<S>>, zero: S, m: RawMesh<S>)
    requires
        obj_mesh_ok(models, zero, m),
    ensures
        forall|k: int|
            0 <= k < models.len() ==> #[trigger] obj_vertices(models, k).len() + models[k].positions@.len() / 3
                <= m.vertices@.len(),
        forall|k: int, i: int|
            0 <= k < models.len() && 0 <= i < models[k].positions@.len() / 3 ==> #[trigger] m.vertices@[obj_vertices(models, k).len() + i]
                == [models[k].positions@[3 * i], models[k].positions@[3 * i + 1], models[k].positions@[3 * i + 2]],
{
    let n = models.len() as int;
    assert forall|k: int| 0 <= k < models.len() implies #[trigger] obj_vertices(models, k).len() + models[k].positions@.len() / 3
        <= m.vertices@.len() by {
        lemma_obj_vertices_prefix(models, k + 1, n);
    }
    assert forall|k: int, i: int| 0 <= k < models.len() && 0 <= i < models[k].positions@.len() / 3 implies #[trigger] m.vertices@[obj_vertices(models, k).len() + i]
        == [models[k].positions@[3 * i], models[k].positions@[3 * i + 1], models[k].positions@[3 * i + 2]] by {
        lemma_obj_vertices_prefix(models, k + 1, n);
        let x = obj_vertices(models, k).len() + i;
        let all = obj_vertices(models, n);
        assert(obj_vertices(models, k + 1)[x] == triples(models[k].positions@)[i]);
        assert(x < all.len());
        assert(m.vertices@[x] == all[x]);
    }
}

/// Merged OBJ models keep every model's normals in place: normal `i` of
/// model `k` sits just past the normals of the models before it, built
/// from that model's coordinates `3i`, `3i + 1` and `3i + 2`.
pub proof fn lemma_obj_merge_keeps_normals<S>(models: Seq<ObjModelData<S>>, zero: S, m: RawMesh<S>)
    requires
        obj_mesh_ok(models, zero, m),
    ensures
        forall|k: int|
            0 <= k < models.len() ==> #[trigger] obj_normals(models, k).len() + models[k].normals@.len() / 3
                <= m.normals@.len(),
        forall|k: int, i: int|
            0 <= k < models.len() && 0 <= i < models[k].normals@.len() / 3 ==> #[trigger] m.normals@[obj_normals(models, k).len() + i]
                == [models[k].normals@[3 * i], models[k].normals@[3 * i + 1], models[k].normals@[3 * i + 2]],
{
    let n = models.len() as int;
    assert forall|k: int| 0 <= k < models.len() implies #[trigger] obj_normals(models, k).len() + models[k].normals@.len() / 3
        <= m.normals@.len() by {
        lemma_obj_vertices_prefix(models, k + 1, n);
    }
    assert forall|k: int, i: int| 0 <= k < models.len() && 0 <= i < models[k].normals@.len() / 3 implies #[trigger] m.normals@[obj_normals(models, k).len() + i]
        == [models[k].normals@[3 * i], models[k].normals@[3 * i + 1], models[k].normals@[3 * i + 2]] by {
        lemma_obj_vertices_prefix(models, k + 1, n);
        let x = obj_normals(models, k).len() + i;
        let all = obj_normals(models, n);
        assert(obj_normals(models, k + 1)[x] == triples(models[k].normals@)[i]);
        assert(x < all.len());
        assert(m.normals@[x] == all[x]);
    }
}

/// Merged OBJ models keep every model's texture coordinates in place:
/// coordinate pair `i` of model `k` sits just past those of the models
/// before it, built from that model's values `2i` and `2i + 1`.
pub proof fn lemma_obj_merge_keeps_uvs<S>(models: Seq<ObjModelData<S>>, zero: S, m: RawMesh<S>)
    requires
        obj_mesh_ok(models, zero, m),
    ensures
        forall|k: int|
            0 <= k < models.len() ==> #[trigger] obj_uvs(models, k).len() + models[k].texcoords@.len() / 2
                <= m.uvs@.len(),
        forall|k: int, i: int|
            0 <= k < models.len() && 0 <= i < models[k].texcoords@.len() / 2 ==> #[trigger] m.uvs@[obj_uvs(models, k).len() + i]
                == [models[k].texcoords@[2 * i], models[k].texcoords@[2 * i + 1]],
{
    let n = models.len() as int;
    assert forall|k: int| 0 <= k < models.len() implies #[trigger] obj_uvs(models, k).len() + models[k].texcoords@.len() / 2
        <= m.uvs@.len() by {
        lemma_obj_vertices_prefix(models, k + 1, n);
    }
    assert forall|k: int, i: int| 0 <= k < models.len() && 0 <= i < models[k].texcoords@.len() / 2 implies #[trigger] m.uvs@[obj_uvs(models, k).len() + i]
        == [models[k].texcoords@[2 * i], models[k].texcoords@[2 * i + 1]] by {
        lemma_obj_vertices_prefix(models, k + 1, n);
        let x = obj_uvs(models, k).len() + i;
        let all = obj_uvs(models, n);
        assert(obj_uvs(models, k + 1)[x] == pairs(models[k].texcoords@)[i]);
        assert(x < all.len());
        assert(m.uvs@[x] == all[x]);
    }
}

} // verus!
