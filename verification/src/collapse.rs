//! The combinatorial side of quadric-error edge collapse: which edges
//! collapse, how faces are relabelled and retired, and how the
//! surviving vertices and faces are renumbered.

use vstd::prelude::*;
use crate::topology::{Tri, faces_in_range, face_lists_in_range};

verus! {

/// How many entries of `s` are true.
pub open spec fn count_true(s: Seq<bool>) -> nat
    decreases s.len(),
{
    if s.len() == 0 {
        0
    } else {
        count_true(s.drop_last()) + (if s.last() { 1nat } else { 0nat })
    }
}

/// Clearing a set entry lowers the count by one.
pub proof fn lemma_count_true_clear(s: Seq<bool>, i: int)
    requires
        0 <= i < s.len(),
        s[i],
    ensures
        count_true(s) >= 1,
        count_true(s.update(i, false)) == count_true(s) - 1,
    decreases s.len(),
{
    let t = s.update(i, false);
    if i == s.len() - 1 {
        assert(t.drop_last() =~= s.drop_last());
    } else {
        lemma_count_true_clear(s.drop_last(), i);
        assert(t.drop_last() =~= s.drop_last().update(i, false));
    }
}

/// The state of a simplification, as values.
pub struct CollapseModel {
    pub faces: Seq<Tri>,
    pub alive_vert: Seq<bool>,
    pub alive_face: Seq<bool>,
    pub remap: Seq<usize>,
}

/// A face with each corner replaced by where `r` sends it.
pub open spec fn relabel(f: Tri, r: Seq<usize>) -> Tri {
    [r[f[0] as int], r[f[1] as int], r[f[2] as int]]
}

/// The three corners are different vertices.
pub open spec fn distinct3(f: Tri) -> bool {
    f[0] != f[1] && f[1] != f[2] && f[0] != f[2]
}

/// The edge `a`–`b` may collapse: both ends are live and map to themselves.
pub open spec fn collapse_allowed(m: CollapseModel, a: usize, b: usize) -> bool {
    &&& m.alive_vert[a as int]
    &&& m.alive_vert[b as int]
    &&& m.remap[a as int] == a
    &&& m.remap[b as int] == b
}

/// Face `fi` is listed around `a` or around `b`.
pub open spec fn touched(vf: Seq<Vec<usize>>, a: usize, b: usize, fi: int) -> bool {
    vf[a as int]@.contains(fi as usize) || vf[b as int]@.contains(fi as usize)
}

/// The state after collapsing `b` into `a`, when the collapse is allowed:
/// `b` dies and maps to `a`; each live face around `a` or `b` is
/// relabelled through the new map, and dies if two corners coincide.
pub open spec fn collapse_step(m: CollapseModel, vf: Seq<Vec<usize>>, a: usize, b: usize) -> CollapseModel {
    if !collapse_allowed(m, a, b) {
        m
    } else {
        let r = m.remap.update(b as int, a);
        CollapseModel {
            faces: Seq::new(
                m.faces.len(),
                |fi: int|
                    if touched(vf, a, b, fi) && m.alive_face[fi] && distinct3(
                        relabel(m.faces[fi], r),
                    ) {
                        relabel(m.faces[fi], r)
                    } else {
                        m.faces[fi]
                    },
            ),
            alive_vert: m.alive_vert.update(b as int, false),
            alive_face: Seq::new(
                m.alive_face.len(),
                |fi: int|
                    if touched(vf, a, b, fi) && m.alive_face[fi] {
                        distinct3(relabel(m.faces[fi], r))
                    } else {
                        m.alive_face[fi]
                    },
            ),
            remap: r,
        }
    }
}

/// Running the candidate edges in order: while more than `target` faces
/// live, each edge collapses if allowed. Gives the state and the edges
/// that collapsed, in order.
pub open spec fn collapse_run(
    m: CollapseModel,
    vf: Seq<Vec<usize>>,
    edges: Seq<(usize, usize)>,
    target: nat,
) -> (CollapseModel, Seq<(usize, usize)>)
    decreases edges.len(),
{
    if edges.len() == 0 {
        (m, seq![])
    } else {
        let (m1, done) = collapse_run(m, vf, edges.drop_last(), target);
        let e = edges.last();
        if count_true(m1.alive_face) <= target || !collapse_allowed(m1, e.0, e.1) {
            (m1, done)
        } else {
            (collapse_step(m1, vf, e.0, e.1), done.push(e))
        }
    }
}

/// The state of an edge-collapse simplification.
pub struct CollapseState {
    pub faces: Vec<Tri>,
    pub alive_vert: Vec<bool>,
    pub alive_face: Vec<bool>,
    pub remap: Vec<usize>,
    pub current_faces: usize,
    pub vertex_faces: Vec<Vec<usize>>,
}

impl CollapseState {
    pub open spec fn model(&self) -> CollapseModel {
        CollapseModel {
            faces: self.faces@,
            alive_vert: self.alive_vert@,
            alive_face: self.alive_face@,
            remap: self.remap@,
        }
    }

    /// The vertex count.
    pub open spec fn num_verts(&self) -> nat {
        self.alive_vert@.len()
    }

    /// The state is consistent: sizes agree, indices are in range, and
    /// `current_faces` counts the live faces.
    pub open spec fn wf(&self) -> bool {
        &&& self.remap@.len() == self.num_verts()
        &&& self.vertex_faces@.len() == self.num_verts()
        &&& self.alive_face@.len() == self.faces@.len()
        &&& faces_in_range(self.faces@, self.num_verts())
        &&& forall|v: int| 0 <= v < self.num_verts() ==> (#[trigger] self.remap@[v]) < self.num_verts()
        &&& face_lists_in_range(self.vertex_faces@, self.faces@.len())
        &&& self.current_faces == count_true(self.alive_face@)
    }

    /// The state before any collapse: every vertex and face live, every
    /// vertex mapped to itself.
    pub open spec fn is_initial(&self, faces: Seq<Tri>, vf: Seq<Vec<usize>>) -> bool {
        &&& self.faces@ == faces
        &&& self.vertex_faces@ == vf
        &&& self.alive_vert@ == Seq::new(vf.len(), |i: int| true)
        &&& self.alive_face@ == Seq::new(faces.len(), |i: int| true)
        &&& self.remap@ == Seq::new(vf.len(), |i: int| i as usize)
    }

    /// Starts a simplification of `faces` over `vertex_faces.len()`
    /// vertices.
    pub fn new(faces: Vec<Tri>, vertex_faces: Vec<Vec<usize>>) -> (st: CollapseState)
        requires
            faces_in_range(faces@, vertex_faces@.len()),
            face_lists_in_range(vertex_faces@, faces@.len()),
        ensures
            st.wf(),
            st.is_initial(faces@, vertex_faces@),
            st.current_faces == faces@.len(),
    {
        let n = vertex_faces.len();
        let nf = faces.len();
        let mut alive_vert: Vec<bool> = Vec::new();
        let mut remap: Vec<usize> = Vec::new();
        for i in 0..n
            invariant
                alive_vert@ == Seq::new(i as nat, |k: int| true),
                remap@ == Seq::new(i as nat, |k: int| k as usize),
        {
            alive_vert.push(true);
            remap.push(i);
        }
        let mut alive_face: Vec<bool> = Vec::new();
        for i in 0..nf
            invariant
                alive_face@ == Seq::new(i as nat, |k: int| true),
                count_true(alive_face@) == i,
        {
            alive_face.push(true);
            assert(alive_face@.drop_last() =~= Seq::new(i as nat, |k: int| true));
        }
        CollapseState { faces, alive_vert, alive_face, remap, current_faces: nf, vertex_faces }
    }

    fn visit_face(&mut self, fi: usize, a: usize, b: usize, Ghost(m0): Ghost<CollapseModel>)
        requires
            old(self).wf(),
            a < old(self).num_verts(),
            b < old(self).num_verts(),
            fi < old(self).faces@.len(),
            m0.remap.len() == old(self).num_verts(),
            m0.alive_vert.len() == old(self).num_verts(),
            collapse_allowed(m0, a, b),
            old(self).remap@ == m0.remap.update(b as int, a),
            old(self).alive_vert@ == m0.alive_vert.update(b as int, false),
            m0.faces.len() == old(self).faces@.len(),
            m0.alive_face.len() == old(self).faces@.len(),
            old(self).faces@[fi as int] == m0.faces[fi as int],
            old(self).alive_face@[fi as int] == m0.alive_face[fi as int],
            touched(old(self).vertex_faces@, a, b, fi as int),
        ensures
            final(self).wf(),
            final(self).vertex_faces@ == old(self).vertex_faces@,
            final(self).remap@ == old(self).remap@,
            final(self).alive_vert@ == old(self).alive_vert@,
            final(self).faces@ == old(self).faces@.update(fi as int, collapse_step(m0, old(self).vertex_faces@, a, b).faces[fi as int]),
            final(self).alive_face@ == old(self).alive_face@.update(fi as int, collapse_step(m0, old(self).vertex_faces@, a, b).alive_face[fi as int]),
    {
        if !self.alive_face[fi] {
            assert(self.faces@.update(fi as int, self.faces@[fi as int]) =~= self.faces@);
            assert(self.alive_face@.update(fi as int, self.alive_face@[fi as int]) =~= self.alive_face@);
            return;
        }
        let f = self.faces[fi];
        assert(f[0] < self.num_verts() && f[1] < self.num_verts() && f[2] < self.num_verts()) by {
            assert(self.faces@[fi as int][0] < self.num_verts());
            assert(self.faces@[fi as int][1] < self.num_verts());
            assert(self.faces@[fi as int][2] < self.num_verts());
        }
        let g: Tri = [self.remap[f[0]], self.remap[f[1]], self.remap[f[2]]];
        assert(g == relabel(f, self.remap@));
        if g[0] != g[1] && g[1] != g[2] && g[0] != g[2] {
            self.faces.set(fi, g);
            assert forall|x: int, j: int| 0 <= x < self.faces@.len() && 0 <= j < 3 implies (#[trigger] self.faces@[x][j]) < self.num_verts() by {
                if x != fi {
                    assert(old(self).faces@[x][j] < self.num_verts());
                } else {
                    assert(self.remap@[f[j] as int] < self.num_verts());
                }
            }
        } else {
            proof {
                lemma_count_true_clear(self.alive_face@, fi as int);
            }
            self.alive_face.set(fi, false);
            self.current_faces = self.current_faces - 1;
        }
    }

    /// Collapses `b` into `a` when both are live and map to themselves,
    /// and tells whether it did.
    pub fn try_collapse(&mut self, a: usize, b: usize) -> (done: bool)
        requires
            old(self).wf(),
            a < old(self).num_verts(),
            b < old(self).num_verts(),
        ensures
            final(self).wf(),
            final(self).vertex_faces@ == old(self).vertex_faces@,
            done == collapse_allowed(old(self).model(), a, b),
            final(self).model() == collapse_step(old(self).model(), old(self).vertex_faces@, a, b),
    {
        broadcast use vstd::std_specs::hash::group_hash_axioms;

        if !self.alive_vert[a] || !self.alive_vert[b] {
            return false;
        }
        if self.remap[a] != a || self.remap[b] != b {
            return false;
        }
        let ghost m0 = self.model();
        let ghost vf = self.vertex_faces@;
        let ghost target = collapse_step(m0, vf, a, b);
        self.alive_vert.set(b, false);
        self.remap.set(b, a);
        assert(self.remap@ == target.remap);
        let mut visited: std::collections::HashSet<usize> = std::collections::HashSet::new();
        let la_len = self.vertex_faces[a].len();
        for k in 0..la_len
            invariant
                self.wf(),
                a < self.num_verts(),
                b < self.num_verts(),
                self.vertex_faces@ == vf,
                la_len == vf[a as int]@.len(),
                m0.remap.len() == self.num_verts(),
                m0.alive_vert.len() == self.num_verts(),
                collapse_allowed(m0, a, b),
                self.remap@ == m0.remap.update(b as int, a),
                self.alive_vert@ == m0.alive_vert.update(b as int, false),
                m0.faces.len() == self.faces@.len(),
                m0.alive_face.len() == self.faces@.len(),
                target == collapse_step(m0, vf, a, b),
                forall|fi: usize| #[trigger] visited@.contains(fi) ==> vf[a as int]@.take(k as int).contains(fi),
                forall|x: int| 0 <= x < k ==> visited@.contains(#[trigger] vf[a as int]@[x]),
                forall|fi: usize|
                    fi < self.faces@.len() ==> if #[trigger] visited@.contains(fi) {
                        self.faces@[fi as int] == target.faces[fi as int] && self.alive_face@[fi as int] == target.alive_face[fi as int]
                    } else {
                        self.faces@[fi as int] == m0.faces[fi as int] && self.alive_face@[fi as int] == m0.alive_face[fi as int]
                    },
        {
            let fi = self.vertex_faces[a][k];
            assert(vf[a as int]@[k as int] < self.faces@.len());
            if !visited.contains(&fi) {
                visited.insert(fi);
                assert(vf[a as int]@.contains(fi));
                self.visit_face(fi, a, b, Ghost(m0));
            }
            assert forall|fj: usize| #[trigger] visited@.contains(fj) implies vf[a as int]@.take(k + 1).contains(fj) by {
                if fj == fi {
                    assert(vf[a as int]@.take(k + 1)[k as int] == fi);
                } else {
                    let x = choose|x: int| 0 <= x < k && vf[a as int]@.take(k as int)[x] == fj;
                    assert(vf[a as int]@.take(k + 1)[x] == fj);
                }
            }
        }
        let lb_len = self.vertex_faces[b].len();
        for k in 0..lb_len
            invariant
                self.wf(),
                a < self.num_verts(),
                b < self.num_verts(),
                self.vertex_faces@ == vf,
                lb_len == vf[b as int]@.len(),
                m0.remap.len() == self.num_verts(),
                m0.alive_vert.len() == self.num_verts(),
                collapse_allowed(m0, a, b),
                self.remap@ == m0.remap.update(b as int, a),
                self.alive_vert@ == m0.alive_vert.update(b as int, false),
                m0.faces.len() == self.faces@.len(),
                m0.alive_face.len() == self.faces@.len(),
                target == collapse_step(m0, vf, a, b),
                forall|fi: usize| #[trigger] visited@.contains(fi) ==> vf[a as int]@.contains(fi) || vf[b as int]@.take(k as int).contains(fi),
                forall|x: int| 0 <= x < vf[a as int]@.len() ==> visited@.contains(#[trigger] vf[a as int]@[x]),
                forall|x: int| 0 <= x < k ==> visited@.contains(#[trigger] vf[b as int]@[x]),
                forall|fi: usize|
                    fi < self.faces@.len() ==> if #[trigger] visited@.contains(fi) {
                        self.faces@[fi as int] == target.faces[fi as int] && self.alive_face@[fi as int] == target.alive_face[fi as int]
                    } else {
                        self.faces@[fi as int] == m0.faces[fi as int] && self.alive_face@[fi as int] == m0.alive_face[fi as int]
                    },
        {
            let fi = self.vertex_faces[b][k];
            assert(vf[b as int]@[k as int] < self.faces@.len());
            if !visited.contains(&fi) {
                visited.insert(fi);
                assert(vf[b as int]@.contains(fi));
                self.visit_face(fi, a, b, Ghost(m0));
            }
            assert forall|fj: usize| #[trigger] visited@.contains(fj) implies vf[a as int]@.contains(fj) || vf[b as int]@.take(k + 1).contains(fj) by {
                if fj == fi {
                    assert(vf[b as int]@.take(k + 1)[k as int] == fi);
                } else if !vf[a as int]@.contains(fj) {
                    let x = choose|x: int| 0 <= x < k && vf[b as int]@.take(k as int)[x] == fj;
                    assert(vf[b as int]@.take(k + 1)[x] == fj);
                }
            }
        }
        let nf = self.faces.len();
        proof {
            assert(vf[b as int]@.take(lb_len as int) =~= vf[b as int]@);
            assert forall|fi: usize| fi < self.faces@.len() implies #[trigger] visited@.contains(fi) == touched(vf, a, b, fi as int) by {
                if vf[a as int]@.contains(fi) {
                    let x = choose|x: int| 0 <= x < vf[a as int]@.len() && vf[a as int]@[x] == fi;
                    assert(visited@.contains(vf[a as int]@[x]));
                }
                if vf[b as int]@.contains(fi) {
                    let x = choose|x: int| 0 <= x < vf[b as int]@.len() && vf[b as int]@[x] == fi;
                    assert(visited@.contains(vf[b as int]@[x]));
                }
            }
            assert forall|i: int| 0 <= i < self.faces@.len() implies self.faces@[i] == target.faces[i] && self.alive_face@[i] == target.alive_face[i] by {
                let fi = i as usize;
                assert(i < nf);
                assert(fi as int == i);
                assert(visited@.contains(fi) == touched(vf, a, b, i));
            }
            assert(self.faces@ =~= target.faces);
            assert(self.alive_face@ =~= target.alive_face);
        }
        true
    }

    /// Runs the candidate `edges` in order, collapsing while more than
    /// `target` faces live; gives the edges that collapsed, in order.
    pub fn run_collapses(&mut self, edges: &Vec<(usize, usize)>, target: usize) -> (done: Vec<(usize, usize)>)
        requires
            old(self).wf(),
            forall|k: int|
                0 <= k < edges@.len() ==> (#[trigger] edges@[k]).0 < old(self).num_verts()
                    && edges@[k].1 < old(self).num_verts(),
        ensures
            final(self).wf(),
            final(self).vertex_faces@ == old(self).vertex_faces@,
            (final(self).model(), done@) == collapse_run(
                old(self).model(),
                old(self).vertex_faces@,
                edges@,
                target as nat,
            ),
            final(self).current_faces > target ==> forall|k: int|
                0 <= k < edges@.len() ==> !collapse_allowed(final(self).model(), (#[trigger] edges@[k]).0, edges@[k].1),
    {
        let ghost m0 = self.model();
        let ghost vf = self.vertex_faces@;
        let mut done: Vec<(usize, usize)> = Vec::new();
        let ne = edges.len();
        for k in 0..ne
            invariant
                ne == edges@.len(),
                self.wf(),
                self.vertex_faces@ == vf,
                self.num_verts() == m0.alive_vert.len(),
                forall|k: int|
                    0 <= k < edges@.len() ==> (#[trigger] edges@[k]).0 < self.num_verts()
                        && edges@[k].1 < self.num_verts(),
                (self.model(), done@) == collapse_run(m0, vf, edges@.take(k as int), target as nat),
        {
            let (a, b) = edges[k];
            assert(edges@.take(k + 1).drop_last() =~= edges@.take(k as int));
            assert(edges@.take(k + 1).last() == (a, b));
            if self.current_faces > target {
                let ok = self.try_collapse(a, b);
                if ok {
                    done.push((a, b));
                }
            }
        }
        assert(edges@.take(ne as int) =~= edges@);
        proof {
            if self.current_faces > target {
                lemma_run_exhausts_edges(m0, vf, edges@, target as nat);
            }
        }
        done
    }
}

/// Vertex `v` survives the simplification: live and its own image.
pub open spec fn is_survivor(m: CollapseModel, v: int) -> bool {
    m.alive_vert[v] && m.remap[v] == v as usize
}

/// The surviving vertices below `k`, ascending.
pub open spec fn survivors(m: CollapseModel, k: int) -> Seq<usize>
    decreases k,
{
    if k <= 0 {
        seq![]
    } else {
        survivors(m, k - 1) + (if is_survivor(m, k - 1) { seq![(k - 1) as usize] } else { seq![] })
    }
}

/// The new number of vertex `v`: its rank among the survivors, or 0.
pub open spec fn new_index(m: CollapseModel, v: int) -> usize {
    if is_survivor(m, v) {
        survivors(m, v).len() as usize
    } else {
        0
    }
}

/// The corners of face `fi` in the new numbering, through the map.
pub open spec fn renumbered(m: CollapseModel, fi: int) -> (usize, usize, usize) {
    let f = m.faces[fi];
    (
        new_index(m, m.remap[f[0] as int] as int),
        new_index(m, m.remap[f[1] as int] as int),
        new_index(m, m.remap[f[2] as int] as int),
    )
}

/// The output faces among the first `k`: each live face whose new
/// corners differ, its corners as 32-bit indices.
pub open spec fn compacted_faces(m: CollapseModel, k: int) -> Seq<[u32; 3]>
    decreases k,
{
    if k <= 0 {
        seq![]
    } else {
        let prev = compacted_faces(m, k - 1);
        let (a, b, c) = renumbered(m, k - 1);
        if m.alive_face[k - 1] && a != b && b != c && a != c {
            prev.push([a as u32, b as u32, c as u32])
        } else {
            prev
        }
    }
}

/// The result of renumbering: the surviving old vertex of each new
/// vertex, and the output faces.
pub struct Compacted {
    pub kept: Vec<usize>,
    pub faces: Vec<[u32; 3]>,
}

proof fn lemma_survivors_bound(m: CollapseModel, k: int)
    requires
        k >= 0,
    ensures
        survivors(m, k).len() <= k,
        forall|i: int| 0 <= i < survivors(m, k).len() ==> (#[trigger] survivors(m, k)[i]) < k,
    decreases k,
{
    if k > 0 {
        lemma_survivors_bound(m, k - 1);
        let p = survivors(m, k - 1);
        assert forall|i: int| 0 <= i < survivors(m, k).len() implies (#[trigger] survivors(m, k)[i]) < k by {
            if i < p.len() {
                assert(survivors(m, k)[i] == p[i]);
            }
        }
    }
}

impl CollapseState {
    /// Renumbers the survivors in order and keeps each live face whose
    /// renumbered corners differ.
    pub fn compact(&self) -> (out: Compacted)
        requires
            self.wf(),
        ensures
            out.kept@ == survivors(self.model(), self.num_verts() as int),
            out.faces@ == compacted_faces(self.model(), self.faces@.len() as int),
    {
        let ghost m = self.model();
        let n = self.alive_vert.len();
        let mut index: Vec<usize> = Vec::new();
        let mut kept: Vec<usize> = Vec::new();
        let mut count: usize = 0;
        for i in 0..n
            invariant
                n == self.num_verts(),
                self.wf(),
                m == self.model(),
                index@.len() == i,
                kept@ == survivors(m, i as int),
                count == kept@.len(),
                count <= i,
                forall|v: int| 0 <= v < i ==> #[trigger] index@[v] == new_index(m, v),
        {
            proof {
                lemma_survivors_bound(m, i as int);
            }
            if self.alive_vert[i] && self.remap[i] == i {
                index.push(count);
                kept.push(i);
                count = count + 1;
            } else {
                index.push(0);
            }
        }
        let nf = self.faces.len();
        let mut faces: Vec<[u32; 3]> = Vec::new();
        for fi in 0..nf
            invariant
                nf == self.faces@.len(),
                n == self.num_verts(),
                self.wf(),
                m == self.model(),
                index@.len() == n,
                forall|v: int| 0 <= v < n ==> #[trigger] index@[v] == new_index(m, v),
                faces@ == compacted_faces(m, fi as int),
        {
            if self.alive_face[fi] {
                let f = self.faces[fi];
                assert(self.faces@[fi as int][0] < n && self.faces@[fi as int][1] < n && self.faces@[fi as int][2] < n);
                let r0 = self.remap[f[0]];
                let r1 = self.remap[f[1]];
                let r2 = self.remap[f[2]];
                let a = index[r0];
                let b = index[r1];
                let c = index[r2];
                if a != b && b != c && a != c {
                    faces.push([a as u32, b as u32, c as u32]);
                }
            }
        }
        Compacted { kept, faces }
    }
}

proof fn lemma_count_true_pointwise(s: Seq<bool>, t: Seq<bool>)
    requires
        s.len() == t.len(),
        forall|i: int| 0 <= i < s.len() && t[i] ==> s[i],
    ensures
        count_true(t) <= count_true(s),
    decreases s.len(),
{
    if s.len() > 0 {
        lemma_count_true_pointwise(s.drop_last(), t.drop_last());
    }
}

/// A collapse step never brings a face back: the live faces after it
/// are among those before it, so their number never grows.
pub proof fn lemma_step_never_adds_faces(m: CollapseModel, vf: Seq<Vec<usize>>, a: usize, b: usize)
    requires
        m.alive_face.len() == m.faces.len(),
    ensures
        forall|fi: int| 0 <= fi < m.faces.len() && #[trigger] collapse_step(m, vf, a, b).alive_face[fi] ==> m.alive_face[fi],
        count_true(collapse_step(m, vf, a, b).alive_face) <= count_true(m.alive_face),
{
    let m2 = collapse_step(m, vf, a, b);
    lemma_count_true_pointwise(m.alive_face, m2.alive_face);
}

/// An allowed collapse of two different vertices retires exactly one
/// live vertex, `b`, and leaves `a` live.
pub proof fn lemma_step_retires_one_vertex(m: CollapseModel, vf: Seq<Vec<usize>>, a: usize, b: usize)
    requires
        a < m.alive_vert.len(),
        b < m.alive_vert.len(),
        m.remap.len() == m.alive_vert.len(),
        a != b,
        collapse_allowed(m, a, b),
    ensures
        count_true(collapse_step(m, vf, a, b).alive_vert) == count_true(m.alive_vert) - 1,
        !collapse_step(m, vf, a, b).alive_vert[b as int],
        collapse_step(m, vf, a, b).alive_vert[a as int],
        collapse_step(m, vf, a, b).remap[b as int] == a,
{
    lemma_count_true_clear(m.alive_vert, b as int);
}

/// Once no more faces live than the target, a run collapses nothing.
pub proof fn lemma_run_idle_at_target(m: CollapseModel, vf: Seq<Vec<usize>>, edges: Seq<(usize, usize)>, target: nat)
    requires
        count_true(m.alive_face) <= target,
    ensures
        collapse_run(m, vf, edges, target) == (m, Seq::<(usize, usize)>::empty()),
    decreases edges.len(),
{
    if edges.len() > 0 {
        lemma_run_idle_at_target(m, vf, edges.drop_last(), target);
    }
}

/// Over a run, the live faces only lose members, and each collapsed
/// edge was allowed when it collapsed.
pub proof fn lemma_run_never_adds_faces(m: CollapseModel, vf: Seq<Vec<usize>>, edges: Seq<(usize, usize)>, target: nat)
    requires
        m.alive_face.len() == m.faces.len(),
    ensures
        count_true(collapse_run(m, vf, edges, target).0.alive_face) <= count_true(m.alive_face),
        collapse_run(m, vf, edges, target).0.alive_face.len() == m.alive_face.len(),
        collapse_run(m, vf, edges, target).0.faces.len() == m.faces.len(),
        collapse_run(m, vf, edges, target).1.len() <= edges.len(),
    decreases edges.len(),
{
    if edges.len() > 0 {
        lemma_run_never_adds_faces(m, vf, edges.drop_last(), target);
        let (m1, done) = collapse_run(m, vf, edges.drop_last(), target);
        let e = edges.last();
        lemma_step_never_adds_faces(m1, vf, e.0, e.1);
    }
}

proof fn lemma_survivor_rank(m: CollapseModel, v: int, k: int)
    requires
        0 <= v < k,
        is_survivor(m, v),
    ensures
        survivors(m, v).len() < survivors(m, k).len(),
    decreases k - v,
{
    if k == v + 1 {
    } else {
        lemma_survivor_rank(m, v, k - 1);
    }
}

/// The renumbered mesh is sound: every output face has three different
/// corners, each naming a kept vertex.
pub proof fn lemma_compacted_faces_valid(m: CollapseModel, n: nat)
    requires
        m.alive_vert.len() == n,
        m.remap.len() == n,
        m.alive_face.len() == m.faces.len(),
        faces_in_range(m.faces, n),
        forall|v: int| 0 <= v < n ==> (#[trigger] m.remap[v]) < n,
        survivors(m, n as int).len() <= u32::MAX,
    ensures
        forall|k: int, j: int|
            0 <= k < compacted_faces(m, m.faces.len() as int).len() && 0 <= j < 3 ==> (#[trigger] compacted_faces(m, m.faces.len() as int)[k][j])
                < survivors(m, n as int).len(),
        forall|k: int|
            0 <= k < compacted_faces(m, m.faces.len() as int).len() ==> distinct3_u32(#[trigger] compacted_faces(m, m.faces.len() as int)[k]),
{
    lemma_compacted_prefix_valid(m, n, m.faces.len() as int);
}

/// The three corners differ.
pub open spec fn distinct3_u32(f: [u32; 3]) -> bool {
    f[0] != f[1] && f[1] != f[2] && f[0] != f[2]
}

proof fn lemma_new_index_bound(m: CollapseModel, n: nat, v: int)
    requires
        0 <= v < n,
        m.alive_vert.len() == n,
    ensures
        new_index(m, v) == 0 || new_index(m, v) < survivors(m, n as int).len(),
        new_index(m, v) != 0 ==> survivors(m, n as int).len() > new_index(m, v),
{
    if is_survivor(m, v) {
        lemma_survivor_rank(m, v, n as int);
    }
}

proof fn lemma_compacted_prefix_valid(m: CollapseModel, n: nat, q: int)
    requires
        0 <= q <= m.faces.len(),
        m.alive_vert.len() == n,
        m.remap.len() == n,
        m.alive_face.len() == m.faces.len(),
        faces_in_range(m.faces, n),
        forall|v: int| 0 <= v < n ==> (#[trigger] m.remap[v]) < n,
        survivors(m, n as int).len() <= u32::MAX,
    ensures
        forall|k: int, j: int|
            0 <= k < compacted_faces(m, q).len() && 0 <= j < 3 ==> (#[trigger] compacted_faces(m, q)[k][j])
                < survivors(m, n as int).len(),
        forall|k: int| 0 <= k < compacted_faces(m, q).len() ==> distinct3_u32(#[trigger] compacted_faces(m, q)[k]),
    decreases q,
{
    if q > 0 {
        lemma_compacted_prefix_valid(m, n, q - 1);
        let prev = compacted_faces(m, q - 1);
        let (a, b, c) = renumbered(m, q - 1);
        if m.alive_face[q - 1] && a != b && b != c && a != c {
            let f = m.faces[q - 1];
            assert(f[0] < n && f[1] < n && f[2] < n);
            let r0 = m.remap[f[0] as int] as int;
            let r1 = m.remap[f[1] as int] as int;
            let r2 = m.remap[f[2] as int] as int;
            lemma_new_index_bound(m, n, r0);
            lemma_new_index_bound(m, n, r1);
            lemma_new_index_bound(m, n, r2);
            let total = survivors(m, n as int).len();
            assert(a < total && b < total && c < total);
            let cur = compacted_faces(m, q);
            assert(cur == prev.push([a as u32, b as u32, c as u32]));
            assert forall|k: int, j: int| 0 <= k < cur.len() && 0 <= j < 3 implies (#[trigger] cur[k][j]) < total by {
                if k < prev.len() {
                    assert(cur[k] == prev[k]);
                }
            }
            assert forall|k: int| 0 <= k < cur.len() implies distinct3_u32(#[trigger] cur[k]) by {
                if k < prev.len() {
                    assert(cur[k] == prev[k]);
                }
            }
        }
    }
}

/// Collapsing never makes an edge collapsible again: an edge allowed
/// after a step was allowed before it.
proof fn lemma_step_keeps_disallowed(m: CollapseModel, vf: Seq<Vec<usize>>, a: usize, b: usize, x: usize, y: usize)
    requires
        b < m.alive_vert.len(),
        m.remap.len() == m.alive_vert.len(),
        x < m.alive_vert.len(),
        y < m.alive_vert.len(),
        collapse_allowed(collapse_step(m, vf, a, b), x, y),
    ensures
        collapse_allowed(m, x, y),
{
}

/// Progress: while more faces live than the target, an allowed edge is
/// collapsed when the run reaches it.
pub proof fn lemma_run_collapses_allowed_edge(m: CollapseModel, vf: Seq<Vec<usize>>, e: (usize, usize), target: nat)
    requires
        count_true(m.alive_face) > target,
        collapse_allowed(m, e.0, e.1),
    ensures
        collapse_run(m, vf, seq![e], target) == (collapse_step(m, vf, e.0, e.1), seq![e]),
{
    reveal_with_fuel(collapse_run, 2);
    assert(seq![e].drop_last() =~= Seq::<(usize, usize)>::empty());
    assert(Seq::<(usize, usize)>::empty().push(e) =~= seq![e]);
}

/// A run that ends with more faces live than the target has left no
/// edge it was given collapsible: each one either collapsed or could not.
pub proof fn lemma_run_exhausts_edges(m: CollapseModel, vf: Seq<Vec<usize>>, edges: Seq<(usize, usize)>, target: nat)
    requires
        m.alive_face.len() == m.faces.len(),
        m.remap.len() == m.alive_vert.len(),
        forall|k: int| 0 <= k < edges.len() ==> (#[trigger] edges[k]).0 < m.alive_vert.len() && edges[k].1 < m.alive_vert.len(),
        count_true(collapse_run(m, vf, edges, target).0.alive_face) > target,
    ensures
        forall|k: int| 0 <= k < edges.len() ==> !collapse_allowed(collapse_run(m, vf, edges, target).0, (#[trigger] edges[k]).0, edges[k].1),
    decreases edges.len(),
{
    if edges.len() > 0 {
        let pre = edges.drop_last();
        let (m1, done) = collapse_run(m, vf, pre, target);
        let e = edges.last();
        assert(e == edges[edges.len() - 1]);
        assert forall|k: int| 0 <= k < pre.len() implies (#[trigger] pre[k]).0 < m.alive_vert.len() && pre[k].1 < m.alive_vert.len() by {
            assert(pre[k] == edges[k]);
        }
        lemma_run_lengths(m, vf, pre, target);
        let fin = collapse_run(m, vf, edges, target).0;
        if count_true(m1.alive_face) <= target || !collapse_allowed(m1, e.0, e.1) {
            assert(fin == m1);
            lemma_run_exhausts_edges(m, vf, pre, target);
            assert forall|k: int| 0 <= k < edges.len() implies !collapse_allowed(fin, (#[trigger] edges[k]).0, edges[k].1) by {
                if k < pre.len() {
                    assert(edges[k] == pre[k]);
                }
            }
        } else {
            assert(fin == collapse_step(m1, vf, e.0, e.1));
            lemma_step_never_adds_faces(m1, vf, e.0, e.1);
            lemma_run_exhausts_edges(m, vf, pre, target);
            assert forall|k: int| 0 <= k < edges.len() implies !collapse_allowed(fin, (#[trigger] edges[k]).0, edges[k].1) by {
                if k < pre.len() {
                    assert(edges[k] == pre[k]);
                    if collapse_allowed(fin, edges[k].0, edges[k].1) {
                        lemma_step_keeps_disallowed(m1, vf, e.0, e.1, edges[k].0, edges[k].1);
                    }
                }
            }
        }
    }
}

proof fn lemma_run_lengths(m: CollapseModel, vf: Seq<Vec<usize>>, edges: Seq<(usize, usize)>, target: nat)
    requires
        m.alive_face.len() == m.faces.len(),
        m.remap.len() == m.alive_vert.len(),
        forall|k: int| 0 <= k < edges.len() ==> (#[trigger] edges[k]).0 < m.alive_vert.len() && edges[k].1 < m.alive_vert.len(),
    ensures
        collapse_run(m, vf, edges, target).0.alive_vert.len() == m.alive_vert.len(),
        collapse_run(m, vf, edges, target).0.remap.len() == m.alive_vert.len(),
        collapse_run(m, vf, edges, target).0.alive_face.len() == m.faces.len(),
        collapse_run(m, vf, edges, target).0.faces.len() == m.faces.len(),
    decreases edges.len(),
{
    if edges.len() > 0 {
        let pre = edges.drop_last();
        assert forall|k: int| 0 <= k < pre.len() implies (#[trigger] pre[k]).0 < m.alive_vert.len() && pre[k].1 < m.alive_vert.len() by {
            assert(pre[k] == edges[k]);
        }
        lemma_run_lengths(m, vf, pre, target);
        assert(edges.last() == edges[edges.len() - 1]);
    }
}

} // verus!
