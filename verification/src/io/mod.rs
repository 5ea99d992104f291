//! File formats: reading and writing mesh files as bytes.
pub mod bytes;
pub mod exporters;
pub mod gltf_export;
pub mod gltf_import;
pub mod importers;
pub mod obj_export;
