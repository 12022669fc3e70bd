use model_compressor::config::{dir_or_default, extensions_or_default, max_upload_or_default, port_or_default, UploadPolicy};
use model_compressor::error::AppError;
use model_compressor::model::{HealthResponse, MeshInfo, TaskStatus, Timestamp};
use model_compressor::routes::{guess_content_type, plan_download};
use model_compressor::task::{task_to_status_response, TaskRegistry};
use model_compressor::uploader::{check_file_size, classify_field, parse_flag, UploadField, UploadSession};

fn policy() -> UploadPolicy {
    UploadPolicy { allowed_extensions: vec!["obj".into(), "stl".into()], max_upload_size_mb: 512 }
}

#[test]
fn extension_policy() {
    let p = policy();
    assert!(p.is_extension_allowed("obj"));
    assert!(p.is_extension_allowed("STL"));
    assert!(!p.is_extension_allowed("fbx"));
    assert_eq!(p.max_upload_bytes(), 512 * 1024 * 1024);
}

#[test]
fn settings_with_defaults() {
    assert_eq!(port_or_default(None), 8080);
    assert_eq!(port_or_default(Some("9000")), 9000);
    assert_eq!(port_or_default(Some("70000")), 8080);
    assert_eq!(port_or_default(Some("x")), 8080);
    assert_eq!(max_upload_or_default(None), 512);
    assert_eq!(max_upload_or_default(Some("64")), 64);
    assert_eq!(max_upload_or_default(Some("-1")), 512);
    assert_eq!(extensions_or_default(None), vec!["obj", "stl"]);
    assert_eq!(extensions_or_default(Some(" OBJ , stl,Ply")), vec!["obj", "stl", "ply"]);
    assert_eq!(dir_or_default(None, "./uploads"), "./uploads");
    assert_eq!(dir_or_default(Some("/data".into()), "./uploads"), "/data");
}

#[test]
fn form_fields() {
    assert_eq!(classify_field("file"), UploadField::File);
    assert_eq!(classify_field("quality"), UploadField::Quality);
    assert_eq!(classify_field("target_vertex_count"), UploadField::TargetVertexCount);
    assert_eq!(classify_field("target_face_count"), UploadField::TargetFaceCount);
    assert_eq!(classify_field("preserve_borders"), UploadField::PreserveBorders);
    assert_eq!(classify_field("preserve_uvs"), UploadField::PreserveUvs);
    assert_eq!(classify_field("File"), UploadField::Other);
    assert!(parse_flag("true"));
    assert!(parse_flag("yes"));
    assert!(parse_flag(""));
    assert!(!parse_flag("false"));
    assert!(!parse_flag("0"));
}

#[test]
fn upload_session_flow() {
    let mut s = UploadSession::new(0x0123456789abcdef0123456789abcdef);
    assert!(s.preserve_borders && s.preserve_uvs);
    s.set_target_face_count("100");
    s.set_target_vertex_count("abc");
    s.set_preserve_uvs("0");
    assert_eq!(s.target_face_count, Some(100));
    assert_eq!(s.target_vertex_count, None);
    assert!(!s.preserve_uvs);
    match s.finish() {
        Err(AppError::InvalidMultipart(m)) => assert_eq!(m, "No file field found in multipart request"),
        _ => panic!("expected a missing file error"),
    }
    let (ext, stored) = s.check_file_name(&policy(), Some("Bunny.OBJ")).ok().unwrap();
    assert_eq!(ext, "obj");
    assert_eq!(stored, "01234567-89ab-cdef-0123-456789abcdef.obj");
    s.record_file("Bunny.OBJ".into(), stored, 1234);
    let (id, name, size) = s.finish().ok().unwrap();
    assert_eq!(id, 0x0123456789abcdef0123456789abcdef);
    assert_eq!(name, "Bunny.OBJ");
    assert_eq!(size, 1234);
}

#[test]
fn upload_file_name_errors() {
    let s = UploadSession::new(1);
    match s.check_file_name(&policy(), None) {
        Err(AppError::InvalidMultipart(m)) => assert_eq!(m, "Missing filename"),
        _ => panic!(),
    }
    match s.check_file_name(&policy(), Some("README")) {
        Err(AppError::UnsupportedFormat(m)) => assert_eq!(m, "Unable to determine extension from filename: README"),
        _ => panic!(),
    }
    match s.check_file_name(&policy(), Some("car.FBX")) {
        Err(AppError::UnsupportedFormat(m)) => {
            assert_eq!(m, "Extension 'fbx' is not allowed. Allowed: [\"obj\", \"stl\"]")
        }
        _ => panic!(),
    }
}

#[test]
fn upload_size_limit() {
    assert!(check_file_size(100, 100).is_ok());
    match check_file_size(101, 100) {
        Err(AppError::FileTooLarge(m)) => assert_eq!(m, "File size 101 bytes exceeds limit of 100 bytes"),
        _ => panic!(),
    }
}

#[test]
fn content_types() {
    assert_eq!(guess_content_type("a_compressed.obj"), "application/x-tgif");
    assert_eq!(guess_content_type("X.STL"), "model/stl");
    assert_eq!(guess_content_type("s.gltf"), "model/gltf+json");
    assert_eq!(guess_content_type("s.glb"), "model/gltf-binary");
    assert_eq!(guess_content_type("s.dae"), "application/xml");
    assert_eq!(guess_content_type("s.3ds"), "application/x-3ds");
    assert_eq!(guess_content_type("s.ply"), "application/octet-stream");
    assert_eq!(guess_content_type("noext"), "application/octet-stream");
}

#[test]
fn health_answer() {
    let h = HealthResponse::healthy(42);
    assert_eq!(h.status, "ok");
    assert_eq!(h.uptime_seconds, 42);
    assert_eq!(HealthResponse::healthy(-1).uptime_seconds, u64::MAX);
}

fn ts(secs: i64, nanos: u32) -> Timestamp {
    Timestamp { secs, nanos }
}

const ID: u128 = 0x00112233445566778899aabbccddeeff;

#[test]
fn task_create_then_get() {
    let mut reg: TaskRegistry<f32, u8> = TaskRegistry::new("./uploads".into(), "./outputs/".into());
    let id = reg.create_task(ID, "My Model.Obj", 7, ts(100, 5), 0.0);
    assert_eq!(id, ID);
    let t = reg.get_task(ID).ok().unwrap();
    assert_eq!(t.status, TaskStatus::Queued);
    assert_eq!(t.original_filename, "My Model.Obj");
    assert_eq!(t.stored_filename, "00112233-4455-6677-8899-aabbccddeeff.obj");
    assert_eq!(t.original_path, "./uploads/00112233-4455-6677-8899-aabbccddeeff.obj");
    assert_eq!(t.output_path.as_deref(), Some("./outputs/00112233-4455-6677-8899-aabbccddeeff_compressed.obj"));
    assert_eq!(t.options, 7);
    assert_eq!(t.progress, 0.0);
    assert_eq!(t.created_at, ts(100, 5));
    let t2 = reg.create_task(2, "noext", 0, ts(1, 0), 0.0);
    assert_eq!(reg.get_task(t2).ok().unwrap().stored_filename, "00000000-0000-0000-0000-000000000002.obj");
    match reg.get_task(3) {
        Err(AppError::TaskNotFound(m)) => assert_eq!(m, "00000000-0000-0000-0000-000000000003"),
        _ => panic!(),
    }
}

#[test]
fn task_lifecycle_and_download() {
    let mut reg: TaskRegistry<f32, u8> = TaskRegistry::new("up".into(), "out".into());
    reg.create_task(ID, "a\"b.stl", 0, ts(10, 0), 0.0);
    let r = reg.get_task_status(ID).ok().unwrap();
    assert_eq!(r.download_url, None);
    assert!(matches!(plan_download(&reg.get_task(ID).ok().unwrap()), Err(AppError::BadRequest(m)) if m == "Task is not completed yet. Current status: Queued"));
    reg.start_task(ID, ts(11, 0), 0.05);
    let t = reg.get_task(ID).ok().unwrap();
    assert_eq!(t.status, TaskStatus::Processing);
    assert_eq!(t.started_at, Some(ts(11, 0)));
    assert_eq!(t.progress, 0.05);
    reg.set_progress(ID, 0.5);
    assert_eq!(reg.get_task(ID).ok().unwrap().progress, 0.5);
    let (input, output, options) = reg.task_job(ID).ok().unwrap();
    assert_eq!(input, "up/00112233-4455-6677-8899-aabbccddeeff.stl");
    assert_eq!(output, "out/00112233-4455-6677-8899-aabbccddeeff_compressed.obj");
    assert_eq!(options, 0);
    let a = MeshInfo::new(10, 20, 300);
    let b = MeshInfo::new(5, 10, 100);
    reg.complete_task(ID, ts(12, 0), 1.0, a, b);
    let r = reg.get_task_status(ID).ok().unwrap();
    assert_eq!(r.status, TaskStatus::Completed);
    assert_eq!(r.original_info, Some(a));
    assert_eq!(r.compressed_info, Some(b));
    assert_eq!(r.download_url.as_deref(), Some("/api/tasks/00112233-4455-6677-8899-aabbccddeeff/download"));
    let plan = plan_download(&reg.get_task(ID).ok().unwrap()).ok().unwrap();
    assert_eq!(plan.output_path, "out/00112233-4455-6677-8899-aabbccddeeff_compressed.obj");
    assert_eq!(plan.content_type, "application/x-tgif");
    assert_eq!(plan.content_disposition, "attachment; filename=\"a\\\"b_compressed.obj\"");
}

#[test]
fn task_failure_has_no_download() {
    let mut reg: TaskRegistry<f32, u8> = TaskRegistry::new("up".into(), "out".into());
    reg.create_task(ID, "m.obj", 0, ts(10, 0), 0.0);
    reg.start_task(ID, ts(11, 0), 0.05);
    reg.fail_task(ID, ts(12, 0), "Model loading error: bad".into());
    let t = reg.get_task(ID).ok().unwrap();
    assert_eq!(t.status, TaskStatus::Failed);
    assert_eq!(t.completed_at, Some(ts(12, 0)));
    assert_eq!(t.error_message.as_deref(), Some("Model loading error: bad"));
    assert_eq!(task_to_status_response(&t).download_url, None);
    // Changes to an unknown task change nothing.
    reg.start_task(99, ts(1, 0), 0.1);
    assert!(reg.get_task(99).is_err());
    assert_eq!(reg.list_tasks().total, 1);
}

#[test]
fn original_info_is_filled() {
    let mut reg: TaskRegistry<f32, u8> = TaskRegistry::new("up".into(), "out".into());
    reg.create_task(ID, "m.obj", 0, ts(10, 0), 0.0);
    assert_eq!(reg.original_path(ID).ok().unwrap(), "up/00112233-4455-6677-8899-aabbccddeeff.obj");
    reg.fill_original_info(ID, MeshInfo::new(3, 1, 50));
    assert_eq!(reg.get_task(ID).ok().unwrap().original_info, Some(MeshInfo::new(3, 1, 50)));
    assert!(matches!(reg.original_path(5), Err(AppError::TaskNotFound(_))));
    assert!(matches!(reg.task_job(5), Err(AppError::TaskNotFound(_))));
}

#[test]
fn list_is_newest_first() {
    let mut reg: TaskRegistry<f32, u8> = TaskRegistry::new("up".into(), "out".into());
    reg.create_task(1, "a.obj", 0, ts(10, 0), 0.0);
    reg.create_task(2, "b.obj", 0, ts(30, 0), 0.0);
    reg.create_task(3, "c.obj", 0, ts(20, 7), 0.0);
    reg.create_task(4, "d.obj", 0, ts(20, 9), 0.0);
    let list = reg.list_tasks();
    assert_eq!(list.total, 4);
    let ids: Vec<u128> = list.tasks.iter().map(|t| t.task_id).collect();
    assert_eq!(ids, vec![2, 4, 3, 1]);
    // Filing the same identifier again replaces the task.
    reg.create_task(1, "e.obj", 0, ts(40, 0), 0.0);
    let list = reg.list_tasks();
    assert_eq!(list.total, 4);
    assert_eq!(list.tasks[0].original_filename, "e.obj");
}

#[test]
fn task_identifiers_are_hyphenated_lowercase() {
    let mut reg: TaskRegistry<f32, u8> = TaskRegistry::new("".into(), "".into());
    reg.create_task(0xa1a2a3a4b1b2c1c2d1d2d3d4d5d6d7d8, "m.obj", 0, ts(0, 0), 0.0);
    reg.create_task(u128::MAX, "m.obj", 0, ts(0, 0), 0.0);
    assert_eq!(
        reg.get_task(0xa1a2a3a4b1b2c1c2d1d2d3d4d5d6d7d8).ok().unwrap().stored_filename,
        "a1a2a3a4-b1b2-c1c2-d1d2-d3d4d5d6d7d8.obj"
    );
    assert_eq!(reg.get_task(u128::MAX).ok().unwrap().original_path, "ffffffff-ffff-ffff-ffff-ffffffffffff.obj");
    match reg.get_task(0) {
        Err(AppError::TaskNotFound(m)) => assert_eq!(m, "00000000-0000-0000-0000-000000000000"),
        _ => panic!(),
    }
}

#[test]
fn compressor_is_constructible() {
    let c = model_compressor::compressor::Compressor::new();
    let _copy = c;
    assert_eq!(model_compressor::compressor::Compressor::get_extension("a.OBJ"), "obj");
}
