//! The decision core of a sequential file scan: a driver that walks a file
//! group front to back, tracks which file is being opened or scanned, and
//! enforces a global row limit on the batches it lets through.
//!
//! Opening files and polling their batch streams is asynchronous work that the
//! caller performs; the driver tells it what to do next and takes back what
//! came of it.

mod driver;
mod limit;

pub use driver::{Action, Driver, Emit, FileEntry, Passed, Phase};
pub use limit::{apply_limit, kept_rows, reaches_limit, remain_after, LimitStep};
