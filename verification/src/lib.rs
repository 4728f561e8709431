//! Transparent expansion of `${file:<path>}` references during decoding.
//!
//! A string value that is exactly of the form `${file:<path>}` stands for the
//! contents of the file at `<path>`, read at decode time and interpreted as
//! UTF-8 text. Every other value passes through unchanged. An observer is
//! notified of every file read, whether it succeeds or fails.
//!
//! The pattern matcher, the per-read resolution step, and a recursive
//! expansion engine over a structured document model are verified here; the
//! adapter that drives them from a `serde` decoder performs the actual I/O
//! and lives outside the verified core.

pub mod engine;
pub mod expand;
pub mod laws;
pub mod observe;
pub mod pattern;

pub use engine::{
    Deserializer, ReadTable, Value, deserialize, expand_value,
};
pub use expand::{ExpandError, finish_expand, resolve_read};
pub use observe::{
    NoOpObserver, Observer, ReadOutcome, RecordingObserver, copy_bytes,
};
pub use pattern::parse_file_ref;
