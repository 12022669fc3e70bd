//! The decisions taken while an upload's form fields arrive.

use vstd::prelude::*;
use vstd::string::*;
use crate::config::{UploadPolicy, extension_allowed};
use crate::error::AppError;
use crate::text::{decimal, get_extension, lower_extension, parse_usize, parse_usize_spec, push_decimal, str_eq, uuid_text, uuid_text_spec};

verus! {

/// The form fields an upload may carry.
#[derive(Clone, Copy, Debug, PartialEq, Eq, Structural)]
pub enum UploadField {
    File,
    Quality,
    TargetVertexCount,
    TargetFaceCount,
    PreserveBorders,
    PreserveUvs,
    Other,
}

/// The field a form field's name designates.
pub open spec fn field_kind(name: Seq<char>) -> UploadField {
    if name == "file"@ {
        UploadField::File
    } else if name == "quality"@ {
        UploadField::Quality
    } else if name == "target_vertex_count"@ {
        UploadField::TargetVertexCount
    } else if name == "target_face_count"@ {
        UploadField::TargetFaceCount
    } else if name == "preserve_borders"@ {
        UploadField::PreserveBorders
    } else if name == "preserve_uvs"@ {
        UploadField::PreserveUvs
    } else {
        UploadField::Other
    }
}

/// The field a form field's name designates.
pub fn classify_field(name: &str) -> (k: UploadField)
    ensures
        k == field_kind(name@),
{
    if str_eq(name, "file") {
        UploadField::File
    } else if str_eq(name, "quality") {
        UploadField::Quality
    } else if str_eq(name, "target_vertex_count") {
        UploadField::TargetVertexCount
    } else if str_eq(name, "target_face_count") {
        UploadField::TargetFaceCount
    } else if str_eq(name, "preserve_borders") {
        UploadField::PreserveBorders
    } else if str_eq(name, "preserve_uvs") {
        UploadField::PreserveUvs
    } else {
        UploadField::Other
    }
}

/// A switch field is on unless it reads `false` or `0`.
pub open spec fn flag_value(value: Seq<char>) -> bool {
    value != "false"@ && value != "0"@
}

/// A switch field is on unless it reads `false` or `0`.
pub fn parse_flag(value: &str) -> (on: bool)
    ensures
        on == flag_value(value@),
{
    !str_eq(value, "false") && !str_eq(value, "0")
}

/// The text Rust's `{:?}` formatting gives a list of strings.
pub uninterp spec fn debug_list_text(items: Seq<Seq<char>>) -> Seq<char>;

/// Formats a list of strings with `{:?}`. Claimed: the result is the one
/// value that `debug_list_text` names for the strings' texts; nothing
/// more is stated of it.
#[verifier::external_body]
fn debug_list(items: &Vec<String>) -> (s: String)
    ensures
        s@ == debug_list_text(items@.map_values(|x: String| x@)),
{
    format!("{:?}", items)
}

/// The uploaded file as accepted so far.
pub struct UploadedFile {
    pub original_filename: String,
    pub stored_filename: String,
    pub file_size: u64,
}

/// The state of an upload while its fields arrive: its task identifier,
/// the file once accepted, and the integer and switch options.
pub struct UploadSession {
    pub task_id: u128,
    pub file: Option<UploadedFile>,
    pub target_vertex_count: Option<usize>,
    pub target_face_count: Option<usize>,
    pub preserve_borders: bool,
    pub preserve_uvs: bool,
}

/// The upload's file name is accepted: it has an extension, and that
/// extension is allowed.
pub open spec fn file_name_accepted(policy: UploadPolicy, name: Seq<char>) -> bool {
    lower_extension(name) matches Some(e) && extension_allowed(policy.allowed_extensions@, e)
}

/// The stored name of an upload.
pub open spec fn stored_upload_name(id: u128, ext: Seq<char>) -> Seq<char> {
    uuid_text_spec(id) + "."@ + ext
}

impl UploadSession {
    /// A fresh upload under `task_id` with the default options: no face
    /// or vertex target, borders and texture coordinates preserved.
    pub fn new(task_id: u128) -> (s: UploadSession)
        ensures
            s.task_id == task_id,
            s.file is None,
            s.target_vertex_count is None,
            s.target_face_count is None,
            s.preserve_borders,
            s.preserve_uvs,
    {
        UploadSession {
            task_id,
            file: None,
            target_vertex_count: None,
            target_face_count: None,
            preserve_borders: true,
            preserve_uvs: true,
        }
    }

    /// Takes a vertex-count field: a value that parses replaces the
    /// setting; anything else leaves it.
    pub fn set_target_vertex_count(&mut self, value: &str)
        ensures
            final(self).target_vertex_count == match parse_usize_spec(value@) {
                Some(v) => Some(v),
                None => old(self).target_vertex_count,
            },
            final(self).task_id == old(self).task_id,
            final(self).file == old(self).file,
            final(self).target_face_count == old(self).target_face_count,
            final(self).preserve_borders == old(self).preserve_borders,
            final(self).preserve_uvs == old(self).preserve_uvs,
    {
        match parse_usize(value) {
            Some(v) => {
                self.target_vertex_count = Some(v);
            },
            None => {},
        }
    }

    /// Takes a face-count field: a value that parses replaces the
    /// setting; anything else leaves it.
    pub fn set_target_face_count(&mut self, value: &str)
        ensures
            final(self).target_face_count == match parse_usize_spec(value@) {
                Some(v) => Some(v),
                None => old(self).target_face_count,
            },
            final(self).task_id == old(self).task_id,
            final(self).file == old(self).file,
            final(self).target_vertex_count == old(self).target_vertex_count,
            final(self).preserve_borders == old(self).preserve_borders,
            final(self).preserve_uvs == old(self).preserve_uvs,
    {
        match parse_usize(value) {
            Some(v) => {
                self.target_face_count = Some(v);
            },
            None => {},
        }
    }

    /// Takes the border-preservation switch.
    pub fn set_preserve_borders(&mut self, value: &str)
        ensures
            final(self).preserve_borders == flag_value(value@),
            final(self).task_id == old(self).task_id,
            final(self).file == old(self).file,
            final(self).target_vertex_count == old(self).target_vertex_count,
            final(self).target_face_count == old(self).target_face_count,
            final(self).preserve_uvs == old(self).preserve_uvs,
    {
        self.preserve_borders = parse_flag(value);
    }

    /// Takes the texture-coordinate preservation switch.
    pub fn set_preserve_uvs(&mut self, value: &str)
        ensures
            final(self).preserve_uvs == flag_value(value@),
            final(self).task_id == old(self).task_id,
            final(self).file == old(self).file,
            final(self).target_vertex_count == old(self).target_vertex_count,
            final(self).target_face_count == old(self).target_face_count,
            final(self).preserve_borders == old(self).preserve_borders,
    {
        self.preserve_uvs = parse_flag(value);
    }

    /// Checks the file field's name against the policy; gives the
    /// extension and the name to store the file under.
    pub fn check_file_name(&self, policy: &UploadPolicy, filename: Option<&str>) -> (r: Result<(String, String), AppError>)
        ensures
            match filename {
                None => r matches Err(e) && e is InvalidMultipart && e.detail() == "Missing filename"@,
                Some(name) => match lower_extension(name@) {
                    None => r matches Err(e) && e is UnsupportedFormat && e.detail()
                        == "Unable to determine extension from filename: "@ + name@,
                    Some(ext) => if extension_allowed(policy.allowed_extensions@, ext) {
                        r matches Ok((x, stored)) && x@ == ext && stored@ == stored_upload_name(self.task_id, ext)
                    } else {
                        r matches Err(e) && e is UnsupportedFormat && e.detail() == "Extension '"@ + ext
                            + "' is not allowed. Allowed: "@ + debug_list_text(
                            policy.allowed_extensions@.map_values(|x: String| x@),
                        )
                    },
                },
            },
    {
        let name = match filename {
            Some(n) => n,
            None => {
                return Err(AppError::InvalidMultipart(String::from_str("Missing filename")));
            },
        };
        let ext = match get_extension(name) {
            Some(e) => e,
            None => {
                let mut msg = String::from_str("Unable to determine extension from filename: ");
                msg.append(name);
                return Err(AppError::UnsupportedFormat(msg));
            },
        };
        if !policy.is_extension_allowed(ext.as_str()) {
            let mut msg = String::from_str("Extension '");
            msg.append(ext.as_str());
            msg.append("' is not allowed. Allowed: ");
            let listed = debug_list(&policy.allowed_extensions);
            msg.append(listed.as_str());
            return Err(AppError::UnsupportedFormat(msg));
        }
        let mut stored = uuid_text(self.task_id);
        stored.append(".");
        stored.append(ext.as_str());
        Ok((ext, stored))
    }

    /// Records the accepted file.
    pub fn record_file(&mut self, original_filename: String, stored_filename: String, file_size: u64)
        ensures
            final(self).file == Some(UploadedFile { original_filename, stored_filename, file_size }),
            final(self).task_id == old(self).task_id,
            final(self).target_vertex_count == old(self).target_vertex_count,
            final(self).target_face_count == old(self).target_face_count,
            final(self).preserve_borders == old(self).preserve_borders,
            final(self).preserve_uvs == old(self).preserve_uvs,
    {
        self.file = Some(UploadedFile { original_filename, stored_filename, file_size });
    }

    /// The upload's outcome: the task identifier, the file's name and its
    /// size, once a file was accepted.
    pub fn finish(&self) -> (r: Result<(u128, String, u64), AppError>)
        ensures
            match self.file {
                Some(f) => r matches Ok((id, name, size)) && id == self.task_id && name == f.original_filename
                    && size == f.file_size,
                None => r matches Err(e) && e is InvalidMultipart && e.detail()
                    == "No file field found in multipart request"@,
            },
    {
        match &self.file {
            Some(f) => Ok((self.task_id, f.original_filename.clone(), f.file_size)),
            None => Err(AppError::InvalidMultipart(String::from_str("No file field found in multipart request"))),
        }
    }
}

/// An upload over the limit is refused.
pub fn check_file_size(total_bytes: u64, max_bytes: usize) -> (r: Result<(), AppError>)
    ensures
        total_bytes > max_bytes ==> (r matches Err(e) && e is FileTooLarge && e.detail() == "File size "@
            + decimal(total_bytes as nat) + " bytes exceeds limit of "@ + decimal(max_bytes as nat)
            + " bytes"@),
        total_bytes <= max_bytes ==> r is Ok,
{
    if total_bytes > max_bytes as u64 {
        let mut msg = String::from_str("File size ");
        push_decimal(&mut msg, total_bytes);
        msg.append(" bytes exceeds limit of ");
        push_decimal(&mut msg, max_bytes as u64);
        msg.append(" bytes");
        return Err(AppError::FileTooLarge(msg));
    }
    Ok(())
}

} // verus!
