//! A minimal live object store: one writer appends byte chunks to a named
//! buffer while any number of readers tail the same in-progress buffer, each
//! with its own forward-only cursor. A buffer counts as finished once its
//! writer marks it complete or no new bytes have arrived for a bounded quiet
//! period.

pub mod file;
pub mod laws;
pub mod storage_object;

pub use file::File;
pub use file::FileStream;
pub use file::StreamPoll;
pub use storage_object::StorageObject;
