//! An archival intake pipeline driven by chat commands: incoming messages are
//! authorized and classified, URLs are captured to collision-free artifact
//! files, metadata is extracted from each artifact, and a structured record is
//! appended to a durable index.

pub mod dispatch;
pub mod extract;
pub mod index_file;
pub mod model;
pub mod namegen;
pub mod text;
