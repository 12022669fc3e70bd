//! The service's plain data: task states, mesh statistics, timestamps
//! and the health answer.

use vstd::prelude::*;
use vstd::string::*;

verus! {

/// Where a compression task stands.
#[derive(Clone, Copy, Debug, PartialEq, Eq, Structural)]
pub enum TaskStatus {
    Queued,
    Processing,
    Completed,
    Failed,
}

/// Size statistics of a mesh and its file.
#[derive(Clone, Copy, Debug, PartialEq, Eq, Structural)]
pub struct MeshInfo {
    pub vertex_count: usize,
    pub face_count: usize,
    pub file_size_bytes: u64,
}

impl MeshInfo {
    /// The statistics of a mesh with the given counts and file size.
    pub fn new(vertex_count: usize, face_count: usize, file_size_bytes: u64) -> (m: MeshInfo)
        ensures
            m == (MeshInfo { vertex_count, face_count, file_size_bytes }),
    {
        MeshInfo { vertex_count, face_count, file_size_bytes }
    }
}

/// A point in time as whole seconds since the Unix epoch and the
/// nanoseconds past that second; ordered by seconds, then nanoseconds.
#[derive(Clone, Copy, Debug, PartialEq, Eq, Structural)]
pub struct Timestamp {
    pub secs: i64,
    pub nanos: u32,
}

/// `a` is strictly earlier than `b`.
pub open spec fn ts_before(a: Timestamp, b: Timestamp) -> bool {
    a.secs < b.secs || (a.secs == b.secs && a.nanos < b.nanos)
}

impl Timestamp {
    /// Whether `self` is strictly earlier than `other`.
    pub fn is_before(&self, other: &Timestamp) -> (r: bool)
        ensures
            r == ts_before(*self, *other),
    {
        self.secs < other.secs || (self.secs == other.secs && self.nanos < other.nanos)
    }
}

/// The answer of the health check.
pub struct HealthResponse {
    pub status: String,
    pub uptime_seconds: u64,
}

impl HealthResponse {
    /// A healthy answer for a service up for `elapsed_seconds` (a
    /// negative elapsed time wraps, as a cast to unsigned does).
    pub fn healthy(elapsed_seconds: i64) -> (h: HealthResponse)
        ensures
            h.status@ == "ok"@,
            h.uptime_seconds == elapsed_seconds as u64,
    {
        HealthResponse { status: String::from_str("ok"), uptime_seconds: elapsed_seconds as u64 }
    }
}

} // verus!
