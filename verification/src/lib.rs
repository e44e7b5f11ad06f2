//! The core of `tellme`, a shell helper that remembers the output of the
//! last command and hands it over on request.
//!
//! The library decides and never touches the disk itself. What it needs to
//! know of the files it is given as a [`files::Files`] image; what it wants
//! done it hands back as a list of [`files::FileOp`] steps for the caller to
//! carry out. What a step does to the files is fixed by `files::apply_op`,
//! and the laws of the capture session are proved over it.
//!
//! - [`text`], [`decimal`], [`paths`]: characters, numbers and paths as text.
//! - [`files`]: the file image and the steps.
//! - [`skip_list`]: the list of commands not to record, and its file format.
//! - [`config`]: locations, recording status and skip list of an invocation.
//! - [`filter`]: whether a command's output is worth recording.
//! - [`capture`]: the per-shell pair of files, from preparation to cleanup.
//! - [`export`]: retrieval of the last capture.
//! - [`command`]: what the command line asks for, on plain values.

pub mod capture;
pub mod command;
pub mod config;
pub mod decimal;
pub mod export;
pub mod files;
pub mod filter;
pub mod paths;
pub mod skip_list;
pub mod text;
