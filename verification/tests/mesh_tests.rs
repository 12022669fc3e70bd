use model_compressor::collapse::CollapseState;
use model_compressor::compressor::{gather, Compressor, MeshFormat};
use model_compressor::error::AppError;
use model_compressor::mesh::{index_stl, merge_obj_models, obj_indices_fit_exec, stl_indices_ok_exec, ObjModelData, StlFace};
use model_compressor::obj::{write_obj, ObjText};

fn model(positions: Vec<f32>, normals: Vec<f32>, texcoords: Vec<f32>, indices: Vec<u32>) -> ObjModelData<f32> {
    ObjModelData { positions, normals, texcoords, indices }
}

#[test]
fn obj_models_merge_with_offsets_and_padding() {
    let m1 = model(
        vec![0.0, 0.0, 0.0, 1.0, 0.0, 0.0, 0.0, 1.0, 0.0],
        vec![0.0, 0.0, 1.0, 0.0, 0.0, 1.0, 0.0, 0.0, 1.0],
        vec![],
        vec![0, 1, 2],
    );
    let m2 = model(
        vec![5.0, 5.0, 5.0, 6.0, 5.0, 5.0, 5.0, 6.0, 5.0, 9.0],
        vec![],
        vec![0.5, 0.5, 0.25, 0.75],
        vec![2, 1, 0, 0, 1],
    );
    let models = vec![m1, m2];
    assert!(obj_indices_fit_exec(&models));
    let mesh = merge_obj_models(&models, 0.0f32).ok().unwrap();
    assert_eq!(mesh.vertices.len(), 6);
    assert_eq!(mesh.vertices[3], [5.0, 5.0, 5.0]);
    assert_eq!(mesh.faces, vec![[0, 1, 2], [5, 4, 3]]);
    assert_eq!(mesh.normals.len(), 6);
    assert_eq!(mesh.normals[2], [0.0, 0.0, 1.0]);
    assert_eq!(mesh.normals[3], [0.0, 0.0, 0.0]);
    assert_eq!(mesh.uvs.len(), 6);
    assert_eq!(mesh.uvs[0], [0.5, 0.5]);
    assert_eq!(mesh.uvs[1], [0.25, 0.75]);
    assert_eq!(mesh.uvs[5], [0.0, 0.0]);
}

#[test]
fn obj_without_faces_is_refused() {
    let models = vec![model(vec![0.0, 0.0, 0.0], vec![], vec![], vec![])];
    match merge_obj_models(&models, 0.0f32) {
        Err(AppError::ModelLoad(m)) => assert_eq!(m, "OBJ has no vertices or faces"),
        _ => panic!("expected a model loading error"),
    }
    let none: Vec<ObjModelData<f32>> = vec![];
    assert!(matches!(merge_obj_models(&none, 0.0f32), Err(AppError::ModelLoad(_))));
}

#[test]
fn obj_index_overflow_is_detected() {
    let big = model(vec![0.0; 6], vec![], vec![], vec![]);
    let over = model(vec![0.0; 3], vec![], vec![], vec![u32::MAX, 0, 0]);
    assert!(!obj_indices_fit_exec(&vec![big, over]));
    let ok = model(vec![0.0; 3], vec![], vec![], vec![u32::MAX, 0, 0]);
    assert!(obj_indices_fit_exec(&vec![ok]));
}

fn tri(n: f32, v: [usize; 3]) -> StlFace<f32> {
    StlFace { normal: [0.0, 0.0, n], vertices: v }
}

#[test]
fn stl_corners_get_their_own_vertices() {
    let verts = vec![[0.0f32, 0.0, 0.0], [1.0, 0.0, 0.0], [0.0, 1.0, 0.0], [1.0, 1.0, 0.0]];
    let faces = vec![tri(1.0, [0, 1, 2]), tri(2.0, [1, 3, 2])];
    assert!(stl_indices_ok_exec(verts.len(), &faces));
    let mesh = index_stl(&verts, &faces, 0.0f32).ok().unwrap();
    assert_eq!(mesh.vertices.len(), 6);
    assert_eq!(mesh.faces, vec![[0, 1, 2], [3, 4, 5]]);
    assert_eq!(mesh.vertices[3], [1.0, 0.0, 0.0]);
    assert_eq!(mesh.vertices[4], [1.0, 1.0, 0.0]);
    assert_eq!(mesh.normals[4], [0.0, 0.0, 2.0]);
    assert_eq!(mesh.uvs, vec![[0.0, 0.0]; 6]);
}

#[test]
fn stl_identity_collision_shares_a_vertex() {
    let verts = vec![[0.0f32, 0.0, 0.0], [7.0, 7.0, 7.0]];
    let mut faces: Vec<StlFace<f32>> = Vec::new();
    faces.push(tri(1.0, [1, 0, 0]));
    while faces.len() < 333_334 {
        faces.push(tri(1.0, [0, 0, 0]));
    }
    // Corner 0 of facet 0 is (1, 0): 1 * 1_000_000 + 0.
    // Corner 1 of facet 333_333 is (0, 1_000_000): the same identity.
    assert!(stl_indices_ok_exec(verts.len(), &faces));
    let mesh = index_stl(&verts, &faces, 0.0f32).ok().unwrap();
    assert_eq!(mesh.faces[333_333][1], 0);
    assert_eq!(mesh.vertices.len(), 3 * 333_334 - 1);
}

#[test]
fn stl_bad_vertex_index_is_detected() {
    let verts = vec![[0.0f32, 0.0, 0.0]];
    let faces = vec![tri(1.0, [0, 0, 3])];
    assert!(!stl_indices_ok_exec(verts.len(), &faces));
}

#[test]
fn stl_without_facets_is_refused() {
    let verts: Vec<[f32; 3]> = vec![[0.0, 0.0, 0.0]];
    let faces: Vec<StlFace<f32>> = vec![];
    match index_stl(&verts, &faces, 0.0f32) {
        Err(AppError::ModelLoad(m)) => assert_eq!(m, "STL has no vertices or faces"),
        _ => panic!("expected a model loading error"),
    }
}

#[test]
fn obj_text_with_all_attributes() {
    let text = ObjText {
        vertices: vec!["0.000000 0.000000 0.000000".into(), "1.000000 0.000000 0.000000".into(), "0.000000 1.000000 0.000000".into()],
        texcoords: vec!["0.000000 1.000000".into(); 3],
        normals: vec!["0.000000 0.000000 1.000000".into(); 4],
    };
    let out = write_obj(&text, &vec![[0, 1, 2]]);
    let expected = "# Model exported by model-compressor\n# Vertices: 3, Faces: 1\no Mesh\n\
v 0.000000 0.000000 0.000000\nv 1.000000 0.000000 0.000000\nv 0.000000 1.000000 0.000000\n\
vt 0.000000 1.000000\nvt 0.000000 1.000000\nvt 0.000000 1.000000\n\
vn 0.000000 0.000000 1.000000\nvn 0.000000 0.000000 1.000000\nvn 0.000000 0.000000 1.000000\n\
f 1/1/1 2/2/2 3/3/3\n";
    assert_eq!(out, expected);
}

#[test]
fn obj_text_face_forms() {
    let v = vec!["a".to_string(), "b".to_string(), "c".to_string()];
    let none: Vec<String> = vec![];
    let faces = vec![[2, 0, 1], [9, 10, 11]];
    let only_uv = write_obj(&ObjText { vertices: v.clone(), texcoords: v.clone(), normals: none.clone() }, &faces);
    assert!(only_uv.ends_with("f 3/3 1/1 2/2\nf 10/10 11/11 12/12\n"));
    let only_n = write_obj(&ObjText { vertices: v.clone(), texcoords: none.clone(), normals: v.clone() }, &faces);
    assert!(only_n.ends_with("vn c\nf 3//3 1//1 2//2\nf 10//10 11//11 12//12\n"));
    let bare = write_obj(&ObjText { vertices: v.clone(), texcoords: none.clone(), normals: none.clone() }, &faces);
    assert_eq!(bare, "# Model exported by model-compressor\n# Vertices: 3, Faces: 2\no Mesh\nv a\nv b\nv c\nf 3 1 2\nf 10 11 12\n");
}

#[test]
fn formats_by_extension() {
    assert_eq!(Compressor::mesh_format("m/a.OBJ").ok(), Some(MeshFormat::Obj));
    assert_eq!(Compressor::mesh_format("a.stl").ok(), Some(MeshFormat::Stl));
    match Compressor::mesh_format("a.fbx") {
        Err(AppError::UnsupportedFormat(m)) => {
            assert_eq!(m, "Format 'fbx' is not yet supported for simplification. Supported: obj, stl")
        }
        _ => panic!("expected unsupported format"),
    }
    match Compressor::mesh_format("noext") {
        Err(AppError::UnsupportedFormat(m)) => {
            assert_eq!(m, "Format '' is not yet supported for simplification. Supported: obj, stl")
        }
        _ => panic!("expected unsupported format"),
    }
    assert_eq!(Compressor::get_extension("x/y.Obj"), "obj");
    assert_eq!(Compressor::get_extension("x/y"), "");
}

#[test]
fn target_face_choice() {
    assert_eq!(Compressor::choose_target_faces(100, Some(30), Some(5), 50), 30);
    assert_eq!(Compressor::choose_target_faces(100, Some(300), None, 50), 100);
    assert_eq!(Compressor::choose_target_faces(100, Some(1), None, 50), 4);
    assert_eq!(Compressor::choose_target_faces(100, None, Some(20), 50), 40);
    assert_eq!(Compressor::choose_target_faces(100, None, Some(usize::MAX), 50), 100);
    assert_eq!(Compressor::choose_target_faces(2, None, Some(1), 50), 4);
    assert_eq!(Compressor::choose_target_faces(100, None, None, 50), 50);
    assert!(!Compressor::needs_simplification(10, 100, 100));
    assert!(!Compressor::needs_simplification(3, 100, 10));
    assert!(Compressor::needs_simplification(4, 100, 10));
}

#[test]
fn gather_fills_missing_with_default() {
    let a = vec![10, 11, 12];
    assert_eq!(gather(&a, &vec![2, 0, 5], 0), vec![12, 10, 0]);
}

/// A closed tetrahedron: no border anywhere.
fn tetra() -> Vec<[u32; 3]> {
    vec![[0, 1, 2], [0, 3, 1], [1, 3, 2], [2, 3, 0]]
}

#[test]
fn vertex_face_map_and_borders() {
    let faces: Vec<[usize; 3]> = vec![[0, 1, 2], [2, 1, 3]];
    let vf = Compressor::build_vertex_face_map(5, &faces);
    assert_eq!(vf, vec![vec![0], vec![0, 1], vec![0, 1], vec![1], vec![]]);
    let borders = Compressor::detect_borders(5, &faces, &vf);
    assert_eq!(borders, vec![true, true, true, true, false]);
    let closed: Vec<[usize; 3]> = tetra().iter().map(|f| [f[0] as usize, f[1] as usize, f[2] as usize]).collect();
    let vf = Compressor::build_vertex_face_map(4, &closed);
    assert_eq!(Compressor::detect_borders(4, &closed, &vf), vec![false; 4]);
}

#[test]
fn candidate_edges_in_first_side_order() {
    let plan = Compressor::prepare_simplification(4, &tetra(), true);
    assert_eq!(plan.candidates, vec![(0, 1), (1, 2), (0, 2), (0, 3), (1, 3), (2, 3)]);
    // Two triangles sharing edge 1-2: with borders kept, only the shared
    // edge may collapse.
    let plan = Compressor::prepare_simplification(4, &vec![[0, 1, 2], [2, 1, 3]], true);
    assert_eq!(plan.borders, vec![true; 4]);
    assert_eq!(plan.candidates, vec![(1, 2)]);
    let plan = Compressor::prepare_simplification(4, &vec![[0, 1, 2], [2, 1, 3]], false);
    assert_eq!(plan.candidates, vec![(0, 1), (1, 2), (0, 2), (1, 3), (2, 3)]);
}

#[test]
fn collapse_relabels_and_retires_faces() {
    let plan = Compressor::prepare_simplification(4, &tetra(), true);
    let mut st: CollapseState = plan.state;
    assert_eq!(st.current_faces, 4);
    assert!(st.try_collapse(0, 1));
    // Faces 0 and 1 held both 0 and 1 and die; faces 2 and 3 follow 1 to 0.
    assert_eq!(st.alive_face, vec![false, false, true, true]);
    assert_eq!(st.faces[2], [0, 3, 2]);
    assert_eq!(st.current_faces, 2);
    assert_eq!(st.remap, vec![0, 0, 2, 3]);
    assert!(!st.try_collapse(1, 2));
    assert!(!st.try_collapse(0, 1));
    let out = st.compact();
    assert_eq!(out.kept, vec![0, 2, 3]);
    assert_eq!(out.faces, vec![[0, 2, 1], [1, 2, 0]]);
}

#[test]
fn run_stops_at_target() {
    let plan = Compressor::prepare_simplification(4, &tetra(), true);
    let mut st = plan.state;
    let done = st.run_collapses(&plan.candidates, 2);
    assert_eq!(done, vec![(0, 1)]);
    assert_eq!(st.current_faces, 2);
    let plan = Compressor::prepare_simplification(4, &tetra(), true);
    let mut st = plan.state;
    let done = st.run_collapses(&plan.candidates, 4);
    assert!(done.is_empty());
    assert_eq!(st.current_faces, 4);
}
