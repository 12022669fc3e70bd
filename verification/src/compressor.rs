//! The compressor's decisions: which loader a file needs, how many faces
//! to aim for, whether to simplify at all, and the topology a
//! simplification starts from.

use vstd::prelude::*;
use vstd::string::*;
use crate::collapse::CollapseState;
use crate::error::AppError;
use crate::model::MeshInfo;
use crate::text::{lower_extension, get_extension};
use crate::topology::{candidate_edges, faces_in_range, is_border_vertex, is_vertex_face_map, Tri, lemma_incident_faces_valid, face_lists_in_range};

verus! {

/// What a compression produced: where the result went and the
/// statistics of the input and the output.
pub struct CompressionResult {
    pub output_path: String,
    pub original_info: MeshInfo,
    pub compressed_info: MeshInfo,
}

/// The mesh simplifier.
#[derive(Clone, Copy, Debug)]
pub struct Compressor;

/// The file formats the compressor reads.
#[derive(Clone, Copy, Debug, PartialEq, Eq, Structural)]
pub enum MeshFormat {
    Obj,
    Stl,
}

/// The lowercased extension of a path, or the empty text.
pub open spec fn extension_or_empty(path: Seq<char>) -> Seq<char> {
    match lower_extension(path) {
        Some(e) => e,
        None => seq![],
    }
}

/// The smaller of two numbers.
pub open spec fn min_nat(a: int, b: int) -> int {
    if a <= b { a } else { b }
}

/// The larger of two numbers.
pub open spec fn max_nat(a: int, b: int) -> int {
    if a >= b { a } else { b }
}

/// Twice `n`, or the largest machine word when that does not fit.
pub open spec fn double_saturating(n: usize) -> int {
    if 2 * n > usize::MAX { usize::MAX as int } else { 2 * n }
}

/// The number of faces to aim for: an asked face count, or twice an
/// asked vertex count, kept within the mesh's faces and at least 4;
/// otherwise the count derived from the quality setting.
pub open spec fn target_faces_spec(
    orig_faces: usize,
    target_face_count: Option<usize>,
    target_vertex_count: Option<usize>,
    quality_faces: usize,
) -> int {
    match target_face_count {
        Some(tf) => max_nat(min_nat(tf as int, orig_faces as int), 4),
        None => match target_vertex_count {
            Some(tv) => max_nat(min_nat(double_saturating(tv), orig_faces as int), 4),
            None => quality_faces as int,
        },
    }
}

impl Compressor {
    /// A compressor.
    pub fn new() -> (c: Compressor)
        ensures
            c == Compressor,
    {
        Compressor
    }

    /// The lowercased extension of a path, or the empty string.
    pub fn get_extension(path: &str) -> (ext: String)
        ensures
            ext@ == extension_or_empty(path@),
    {
        match get_extension(path) {
            Some(e) => e,
            None => String::new(),
        }
    }

    /// The loader a file needs, by its extension; other extensions are
    /// refused.
    pub fn mesh_format(path: &str) -> (r: Result<MeshFormat, AppError>)
        ensures
            extension_or_empty(path@) == "obj"@ ==> r == Ok::<MeshFormat, AppError>(MeshFormat::Obj),
            extension_or_empty(path@) == "stl"@ ==> r == Ok::<MeshFormat, AppError>(MeshFormat::Stl),
            extension_or_empty(path@) != "obj"@ && extension_or_empty(path@) != "stl"@ ==> (
            r matches Err(e) && e is UnsupportedFormat && e.detail() == "Format '"@ + extension_or_empty(path@)
                + "' is not yet supported for simplification. Supported: obj, stl"@),
    {
        let ext = Self::get_extension(path);
        proof {
            reveal_strlit("obj");
            reveal_strlit("stl");
            assert("obj"@[0] != "stl"@[0]);
        }
        if crate::text::str_eq(ext.as_str(), "obj") {
            Ok(MeshFormat::Obj)
        } else if crate::text::str_eq(ext.as_str(), "stl") {
            Ok(MeshFormat::Stl)
        } else {
            let mut msg = String::from_str("Format '");
            msg.append(ext.as_str());
            msg.append("' is not yet supported for simplification. Supported: obj, stl");
            Err(AppError::UnsupportedFormat(msg))
        }
    }

    /// The number of faces to aim for; `quality_faces` is the count the
    /// quality setting gives.
    pub fn choose_target_faces(
        orig_faces: usize,
        target_face_count: Option<usize>,
        target_vertex_count: Option<usize>,
        quality_faces: usize,
    ) -> (t: usize)
        ensures
            t as int == target_faces_spec(orig_faces, target_face_count, target_vertex_count, quality_faces),
            target_face_count is None && target_vertex_count is Some && 4 <= 2 * target_vertex_count->0
                <= orig_faces ==> t == 2 * target_vertex_count->0,
    {
        proof {
            lemma_target_faces_law(orig_faces, target_face_count, target_vertex_count, quality_faces);
        }
        match target_face_count {
            Some(tf) => {
                let m = if tf <= orig_faces { tf } else { orig_faces };
                if m >= 4 { m } else { 4 }
            },
            None => match target_vertex_count {
                Some(tv) => {
                    let d = if tv > usize::MAX / 2 { usize::MAX } else { tv * 2 };
                    let m = if d <= orig_faces { d } else { orig_faces };
                    if m >= 4 { m } else { 4 }
                },
                None => quality_faces,
            },
        }
    }

    /// Whether the mesh gets simplified: only when fewer faces are aimed
    /// for than it has and it has at least 4 vertices; otherwise it is
    /// written out as loaded.
    pub fn needs_simplification(num_verts: usize, num_faces: usize, target_faces: usize) -> (r: bool)
        ensures
            r == (target_faces < num_faces && num_verts >= 4),
    {
        target_faces < num_faces && num_verts >= 4
    }
}

/// How the aimed-for face count follows the options: an asked face count
/// `tf` gives `tf` kept within `4..=max(orig, 4)`; otherwise an asked
/// vertex count `tv` gives `2 * tv` kept within the same bounds (the
/// mesh's face count when `2 * tv` passes the machine word); otherwise the
/// quality's count.
pub proof fn lemma_target_faces_law(
    orig_faces: usize,
    target_face_count: Option<usize>,
    target_vertex_count: Option<usize>,
    quality_faces: usize,
)
    ensures
        ({
            let t = target_faces_spec(orig_faces, target_face_count, target_vertex_count, quality_faces);
            &&& (target_face_count is Some ==> {
                let tf = target_face_count->0;
                &&& 4 <= t
                &&& (tf <= orig_faces && tf >= 4 ==> t == tf)
                &&& (tf > orig_faces ==> t == if orig_faces >= 4 { orig_faces as int } else { 4 })
                &&& (tf < 4 ==> t == 4)
            })
            &&& (target_face_count is None && target_vertex_count is Some ==> {
                let tv = target_vertex_count->0;
                &&& 4 <= t
                &&& (2 * tv <= orig_faces && 2 * tv >= 4 ==> t == 2 * tv)
                &&& (2 * tv > orig_faces ==> t == if orig_faces >= 4 { orig_faces as int } else { 4 })
                &&& (2 * tv < 4 ==> t == 4)
            })
            &&& (target_face_count is None && target_vertex_count is None ==> t == quality_faces)
        }),
{
}

impl Default for Compressor {
    fn default() -> (c: Compressor)
        ensures
            c == Compressor,
    {
        Compressor::new()
    }
}

/// The faces with machine-word indices.
pub open spec fn widen_faces(faces: Seq<[u32; 3]>) -> Seq<Tri> {
    Seq::new(faces.len(), |i: int| [faces[i][0] as usize, faces[i][1] as usize, faces[i][2] as usize])
}

/// Where a simplification starts: the collapse state over the mesh's
/// faces and the candidate edges.
pub struct SimplifyPlan {
    pub state: CollapseState,
    pub borders: Vec<bool>,
    pub candidates: Vec<(usize, usize)>,
}

impl Compressor {
    /// Prepares the simplification of a mesh with `num_verts` vertices:
    /// the faces around each vertex, the border vertices, and the edges
    /// that may collapse.
    pub fn prepare_simplification(num_verts: usize, faces: &Vec<[u32; 3]>, preserve_borders: bool) -> (p: SimplifyPlan)
        requires
            forall|i: int, j: int| 0 <= i < faces@.len() && 0 <= j < 3 ==> (#[trigger] faces@[i][j]) < num_verts,
        ensures
            p.state.wf(),
            p.state.is_initial(widen_faces(faces@), p.state.vertex_faces@),
            is_vertex_face_map(widen_faces(faces@), num_verts as nat, p.state.vertex_faces@),
            p.borders@.len() == num_verts,
            forall|v: int|
                0 <= v < num_verts ==> #[trigger] p.borders@[v] == is_border_vertex(
                    widen_faces(faces@),
                    p.state.vertex_faces@[v]@,
                    v as usize,
                ),
            p.candidates@ == candidate_edges(
                widen_faces(faces@),
                p.state.vertex_faces@,
                p.borders@,
                preserve_borders,
                3 * faces@.len() as int,
            ),
            p.state.current_faces == faces@.len(),
    {
        let nf = faces.len();
        let mut wide: Vec<Tri> = Vec::new();
        for i in 0..nf
            invariant
                nf == faces@.len(),
                wide@ == widen_faces(faces@.take(i as int)),
        {
            let f = faces[i];
            wide.push([f[0] as usize, f[1] as usize, f[2] as usize]);
            assert(wide@ =~= widen_faces(faces@.take(i + 1)));
        }
        assert(faces@.take(nf as int) =~= faces@);
        assert(faces_in_range(wide@, num_verts as nat)) by {
            assert forall|i: int, j: int| 0 <= i < wide@.len() && 0 <= j < 3 implies (#[trigger] wide@[i][j]) < num_verts by {
                assert(faces@[i][j] < num_verts);
            }
        }
        let vf = Compressor::build_vertex_face_map(num_verts, &wide);
        proof {
            assert forall|v: int, k: int| 0 <= v < vf@.len() && 0 <= k < vf@[v]@.len() implies (#[trigger] vf@[v]@[k]) < wide@.len() by {
                lemma_incident_faces_valid(wide@, v as usize);
                assert(vf@[v]@[k] == crate::topology::incident_faces(wide@, v as usize)[k]);
            }
        }
        let borders = Compressor::detect_borders(num_verts, &wide, &vf);
        let candidates = crate::topology::collect_candidate_edges(&wide, &vf, &borders, preserve_borders);
        let state = CollapseState::new(wide, vf);
        SimplifyPlan { state, borders, candidates }
    }
}

/// For each kept index, the attribute it names, or `default` when the
/// list is shorter.
pub fn gather<T: Copy>(attrs: &Vec<T>, kept: &Vec<usize>, default: T) -> (out: Vec<T>)
    ensures
        out@ == Seq::new(kept@.len(), |k: int| if kept@[k] < attrs@.len() { attrs@[kept@[k] as int] } else { default }),
{
    let n = kept.len();
    let mut out: Vec<T> = Vec::new();
    for k in 0..n
        invariant
            n == kept@.len(),
            out@ == Seq::new(k as nat, |x: int| if kept@[x] < attrs@.len() { attrs@[kept@[x] as int] } else { default }),
    {
        let i = kept[k];
        if i < attrs.len() {
            out.push(attrs[i]);
        } else {
            out.push(default);
        }
        assert(out@ =~= Seq::new((k + 1) as nat, |x: int| if kept@[x] < attrs@.len() { attrs@[kept@[x] as int] } else { default }));
    }
    out
}

} // verus!
