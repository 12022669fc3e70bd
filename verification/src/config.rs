//! The settings the service reads at start-up and the upload policy
//! they give.

use vstd::prelude::*;
use vstd::string::*;
use crate::text::{lowercase, parse_usize, parse_usize_spec, split_commas, comma_pieces, to_lowercase, trim, trimmed};

verus! {

/// Which uploads the service takes.
pub struct UploadPolicy {
    pub allowed_extensions: Vec<String>,
    pub max_upload_size_mb: usize,
}

/// `ext` is in the allowed list once lowercased.
pub open spec fn extension_allowed(allowed: Seq<String>, ext: Seq<char>) -> bool {
    exists|i: int| 0 <= i < allowed.len() && (#[trigger] allowed[i])@ == lowercase(ext)
}

impl UploadPolicy {
    /// Whether an extension, lowercased, is in the allowed list.
    pub fn is_extension_allowed(&self, ext: &str) -> (r: bool)
        ensures
            r == extension_allowed(self.allowed_extensions@, ext@),
            r ==> exists|i: int| 0 <= i < self.allowed_extensions@.len() && self.allowed_extensions@[i]@ == lowercase(ext@),
            (forall|i: int| 0 <= i < self.allowed_extensions@.len() ==> self.allowed_extensions@[i]@ != lowercase(ext@)) ==> !r,
    {
        let lower = to_lowercase(ext);
        let n = self.allowed_extensions.len();
        for i in 0..n
            invariant
                n == self.allowed_extensions@.len(),
                lower@ == lowercase(ext@),
                forall|k: int| 0 <= k < i ==> (#[trigger] self.allowed_extensions@[k])@ != lowercase(ext@),
        {
            if self.allowed_extensions[i] == lower {
                return true;
            }
        }
        false
    }

    /// The upload limit in bytes.
    pub fn max_upload_bytes(&self) -> (b: usize)
        requires
            self.max_upload_size_mb * 1024 * 1024 <= usize::MAX,
        ensures
            b == self.max_upload_size_mb * 1024 * 1024,
    {
        self.max_upload_size_mb * 1024 * 1024
    }
}

/// An extension passes exactly when the list holds its lowercase form:
/// a list without it refuses it, whatever the extension.
pub proof fn lemma_extension_allowed_iff_listed(allowed: Seq<String>, ext: Seq<char>)
    ensures
        extension_allowed(allowed, ext) <==> allowed.map_values(|x: String| x@).contains(lowercase(ext)),
        allowed.len() == 0 ==> !extension_allowed(allowed, ext),
{
    let views = allowed.map_values(|x: String| x@);
    if extension_allowed(allowed, ext) {
        let i = choose|i: int| 0 <= i < allowed.len() && (#[trigger] allowed[i])@ == lowercase(ext);
        assert(views[i] == lowercase(ext));
    }
    if views.contains(lowercase(ext)) {
        let i = choose|i: int| 0 <= i < views.len() && views[i] == lowercase(ext);
        assert(allowed[i]@ == lowercase(ext));
    }
}

/// The listening port: a set value that parses as a 16-bit number,
/// otherwise 8080.
pub open spec fn port_setting(raw: Option<Seq<char>>) -> u16 {
    match raw {
        Some(s) => match parse_usize_spec(s) {
            Some(v) => if v <= u16::MAX { v as u16 } else { 8080 },
            None => 8080,
        },
        None => 8080,
    }
}

/// The listening port: a set value that parses as a 16-bit number,
/// otherwise 8080.
pub fn port_or_default(raw: Option<&str>) -> (p: u16)
    ensures
        p == port_setting(match raw { Some(s) => Some(s@), None => None }),
{
    match raw {
        Some(s) => match parse_usize(s) {
            Some(v) => if v <= 65535 { v as u16 } else { 8080 },
            None => 8080,
        },
        None => 8080,
    }
}

/// The upload limit in megabytes: a set value that parses, otherwise 512.
pub fn max_upload_or_default(raw: Option<&str>) -> (m: usize)
    ensures
        match raw {
            Some(s) => m == match parse_usize_spec(s@) { Some(v) => v, None => 512 },
            None => m == 512,
        },
{
    match raw {
        Some(s) => match parse_usize(s) {
            Some(v) => v,
            None => 512,
        },
        None => 512,
    }
}

/// A directory setting: the set value, otherwise the default.
pub fn dir_or_default(raw: Option<String>, default: &str) -> (d: String)
    ensures
        match raw {
            Some(s) => d == s,
            None => d@ == default@,
        },
{
    match raw {
        Some(s) => s,
        None => String::from_str(default),
    }
}

/// The allowed extensions from a comma-separated setting: each piece
/// trimmed and lowercased; `obj` and `stl` when unset.
pub fn extensions_or_default(raw: Option<&str>) -> (exts: Vec<String>)
    ensures
        match raw {
            Some(s) => exts@.len() == comma_pieces(s@).len() && forall|i: int|
                0 <= i < exts@.len() ==> (#[trigger] exts@[i])@ == lowercase(trimmed(comma_pieces(s@)[i])),
            None => exts@.len() == 2 && exts@[0]@ == "obj"@ && exts@[1]@ == "stl"@,
        },
{
    match raw {
        Some(s) => {
            let pieces = split_commas(s);
            let n = pieces.len();
            let mut out: Vec<String> = Vec::new();
            for i in 0..n
                invariant
                    n == pieces@.len(),
                    pieces@.len() == comma_pieces(s@).len(),
                    forall|k: int| 0 <= k < pieces@.len() ==> (#[trigger] pieces@[k])@ == comma_pieces(s@)[k],
                    out@.len() == i,
                    forall|k: int| 0 <= k < i ==> (#[trigger] out@[k])@ == lowercase(trimmed(comma_pieces(s@)[k])),
            {
                let t = trim(pieces[i].as_str());
                out.push(to_lowercase(t.as_str()));
            }
            out
        },
        None => {
            let mut out: Vec<String> = Vec::new();
            out.push(String::from_str("obj"));
            out.push(String::from_str("stl"));
            out
        },
    }
}

} // verus!
