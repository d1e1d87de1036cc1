//! Duplicate detection and copy planning for a date-sorted media archive.
//!
//! The crate holds the decision logic of a media consolidation tool: which
//! file extensions are wanted, how an archived file is fingerprinted, how the
//! index of archived files is built, and whether a newly found file is
//! skipped or copied into the directory of its capture date.
pub mod capture;
pub mod config;
pub mod error;
pub mod extensions;
pub mod fingerprint;
pub mod index;
pub mod resolver;
pub mod stats;
pub mod sync;

pub use capture::CaptureTime;
pub use config::Config;
pub use error::SyncError;
pub use extensions::{build_extension_set, file_extension, ExtensionSet};
pub use fingerprint::{fingerprint, hashed};
pub use index::{ExistingIndex, FoundFile, MediaFile};
pub use resolver::Decision;
pub use stats::Statistics;
pub use sync::{sync_media_files, sync_step, CopyTask, SyncPlan};
