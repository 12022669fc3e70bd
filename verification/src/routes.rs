//! What the download endpoint answers with, and the content type of a
//! file by its extension.

use vstd::prelude::*;
use vstd::string::*;
use crate::error::AppError;
use crate::model::TaskStatus;
use crate::task::CompressionTask;
use crate::text::{escape_quotes, escape_quotes_exec, lower_extension, name_range, path_file_name, path_stem, range_text, stem_range};

verus! {

/// The content type served for a lowercased extension.
pub open spec fn content_type_for(ext: Seq<char>) -> Seq<char> {
    if ext == "obj"@ {
        "application/x-tgif"@
    } else if ext == "stl"@ {
        "model/stl"@
    } else if ext == "gltf"@ {
        "model/gltf+json"@
    } else if ext == "glb"@ {
        "model/gltf-binary"@
    } else if ext == "dae"@ {
        "application/xml"@
    } else if ext == "3ds"@ {
        "application/x-3ds"@
    } else {
        "application/octet-stream"@
    }
}

/// The content type served for a file, by its lowercased extension.
pub fn guess_content_type(filename: &str) -> (ct: String)
    ensures
        ct@ == content_type_for(
            match lower_extension(filename@) {
                Some(e) => e,
                None => seq![],
            },
        ),
{
    let ext = crate::compressor::Compressor::get_extension(filename);
    let e = ext.as_str();
    if crate::text::str_eq(e, "obj") {
        String::from_str("application/x-tgif")
    } else if crate::text::str_eq(e, "stl") {
        String::from_str("model/stl")
    } else if crate::text::str_eq(e, "gltf") {
        String::from_str("model/gltf+json")
    } else if crate::text::str_eq(e, "glb") {
        String::from_str("model/gltf-binary")
    } else if crate::text::str_eq(e, "dae") {
        String::from_str("application/xml")
    } else if crate::text::str_eq(e, "3ds") {
        String::from_str("application/x-3ds")
    } else {
        String::from_str("application/octet-stream")
    }
}

/// How a task state is written in messages.
pub open spec fn status_name(s: TaskStatus) -> Seq<char> {
    match s {
        TaskStatus::Queued => "Queued"@,
        TaskStatus::Processing => "Processing"@,
        TaskStatus::Completed => "Completed"@,
        TaskStatus::Failed => "Failed"@,
    }
}

fn status_name_exec(s: TaskStatus) -> (n: String)
    ensures
        n@ == status_name(s),
{
    match s {
        TaskStatus::Queued => String::from_str("Queued"),
        TaskStatus::Processing => String::from_str("Processing"),
        TaskStatus::Completed => String::from_str("Completed"),
        TaskStatus::Failed => String::from_str("Failed"),
    }
}

/// How a finished task's result is served: the file to send, its content
/// type and the attachment header.
pub struct DownloadPlan {
    pub output_path: String,
    pub content_type: String,
    pub content_disposition: String,
}

/// The file name a result is offered under: the upload's stem (or
/// `model`) with `_compressed.obj`.
pub open spec fn download_name(original_filename: Seq<char>) -> Seq<char> {
    let stem = match range_text(original_filename, stem_range(original_filename)) {
        Some(stem) => stem,
        None => "model"@,
    };
    stem + "_compressed.obj"@
}

/// The name the content type is judged by: the output file's name, or
/// `model.obj`.
pub open spec fn served_name(output_path: Seq<char>) -> Seq<char> {
    match range_text(output_path, name_range(output_path, output_path.len() as int)) {
        Some(n) => n,
        None => "model.obj"@,
    }
}

/// Plans the download of a task's result: refused before the task
/// completes or when it has no output path.
pub fn plan_download<P, O>(task: &CompressionTask<P, O>) -> (r: Result<DownloadPlan, AppError>)
    ensures
        task.status != TaskStatus::Completed ==> (r matches Err(e) && e is BadRequest && e.detail()
            == "Task is not completed yet. Current status: "@ + status_name(task.status)),
        task.status == TaskStatus::Completed && task.output_path is None ==> (r matches Err(e)
            && e is Internal && e.detail() == "No output path available"@),
        task.status == TaskStatus::Completed && task.output_path is Some ==> (r matches Ok(plan) && {
            let out = task.output_path->0@;
            &&& plan.output_path@ == out
            &&& plan.content_type@ == content_type_for(
                match lower_extension(served_name(out)) {
                    Some(e) => e,
                    None => seq![],
                },
            )
            &&& plan.content_disposition@ == "attachment; filename=\""@ + escape_quotes(
                download_name(task.original_filename@),
            ) + "\""@
        }),
{
    if task.status != TaskStatus::Completed {
        let mut msg = String::from_str("Task is not completed yet. Current status: ");
        let n = status_name_exec(task.status);
        msg.append(n.as_str());
        return Err(AppError::BadRequest(msg));
    }
    let output_path = match &task.output_path {
        Some(p) => p.clone(),
        None => {
            return Err(AppError::Internal(String::from_str("No output path available")));
        },
    };
    let filename = match path_file_name(output_path.as_str()) {
        Some(n) => n,
        None => String::from_str("model.obj"),
    };
    let mut download = match path_stem(task.original_filename.as_str()) {
        Some(s) => s,
        None => String::from_str("model"),
    };
    download.append("_compressed.obj");
    let content_type = guess_content_type(filename.as_str());
    let mut disposition = String::from_str("attachment; filename=\"");
    let escaped = escape_quotes_exec(download.as_str());
    disposition.append(escaped.as_str());
    disposition.append("\"");
    Ok(DownloadPlan { output_path, content_type, content_disposition: disposition })
}

} // verus!
