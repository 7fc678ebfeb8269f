//! A document resolver: finds a named text document under an ordered list of
//! candidate root directories, and stores updated content under one canonical
//! root.
//!
//! A search tries the roots in their order and returns the first copy that
//! can be read; a root where the document is missing or unreadable is passed
//! over. A store writes to the canonical root and to no other: it ensures
//! the directory of the target, writes the content over whatever is there,
//! and fails at the first refusal.
//!
//! The crate decides; the host performs. Every touch of the file system is
//! handed to the host as a request, and the host's answer selects the next
//! request or the final result. What a host that serves the requests
//! faithfully will see is proved in `laws`, over the model in `storage`.

pub mod error;
pub mod laws;
pub mod locate;
pub mod path;
pub mod persist;
pub mod resolver;
pub mod storage;
