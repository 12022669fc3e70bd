//! Verified core of a 3D model compression service: mesh topology
//! bookkeeping for quadric-error edge collapse, the OBJ and STL
//! index handling, the OBJ text writer, upload validation, the task
//! registry and the HTTP error mapping.

pub mod error;
pub mod text;
pub mod uploader;
pub mod topology;
pub mod collapse;
pub mod compressor;
pub mod config;
pub mod mesh;
pub mod model;
pub mod obj;
pub mod routes;
pub mod task;
