//! The engine of an interactive disk-usage explorer.
//!
//! Given what the listing of a directory reports, the crate computes the
//! aggregate size and entry count of every immediate child, decides which
//! results of a running scan still count once a newer scan has begun,
//! puts the results on a stream, and tracks what the display shows. It
//! performs no I/O itself: the caller lists directories, runs the workers,
//! waits on the stream and draws the screen, and hands this crate plain
//! values.
//!
//! - [`file_info`]: the aggregate record, and the walk of one subtree that
//!   counts every entry and each multiply-linked inode once.
//! - [`computer`]: the epoch of the current scan, what a scan emits at once
//!   and which workers it needs, and what a worker publishes when done.
//! - [`result_stream`]: the channel that carries the results, and the
//!   handles that send on it.
//! - [`stream`]: the result stream as a sequence, with the proofs that its
//!   marker of completion comes once and last, and that a superseded scan
//!   falls silent.
//! - [`accounting`]: the proof that the records of a completed scan add up
//!   to the walk of the scanned directory.
//! - [`coordinator`]: what each result and each action of the user does to
//!   the screen, and what it asks of the caller.
//! - [`screen`]: the state of the display, its layout, and how sizes are
//!   written.

pub mod accounting;
pub mod computer;
pub mod coordinator;
pub mod file_info;
pub mod result_stream;
pub mod screen;
pub mod stream;
