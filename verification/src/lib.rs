//! The decisions of a grading tool: which local feedback file belongs to
//! which submission and under which name it is uploaded, and where the
//! entries of a downloaded archive of submissions go.
//!
//! The library reads no file and talks to no backend. Its three operations,
//! `download::download_submissions`, `feedback::upload_feedback` and
//! `points::upload_points`, each take the state of a run and what a driver
//! just learned, and answer with the next state and what the driver is to do.
//!
//! - `path`: components of a path, dropping leading components, flattening,
//!   suffixes.
//! - `pattern`: regular expressions.
//! - `entry`: submissions and directory entries.
//! - `matcher`: pairing directory entries with submissions.
//! - `download`, `feedback`, `points`: the operations.
//! - `error`: the error value.
//! - `text`: strings as sequences of characters.

pub mod download;
pub mod entry;
pub mod error;
pub mod feedback;
pub mod matcher;
pub mod path;
pub mod pattern;
pub mod points;
pub mod text;
