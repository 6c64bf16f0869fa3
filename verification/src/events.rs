//! The file-system events and file operations exchanged with background tasks.
use vstd::prelude::*;

verus! {

/// A change that the file watcher saw.
#[derive(Debug)]
pub enum FileChangeEvent {
    Created(String),
    Modified(String),
    Deleted(String),
    Renamed { from: String, to: String },
}

/// The outcome of a file operation.
#[derive(Debug)]
pub enum FileOpResult {
    Copied { from: String, to: String },
    Moved { from: String, to: String },
    Deleted(String),
    Renamed { from: String, to: String },
    Error(String),
}

/// A file operation to run in the background.
#[derive(Debug)]
pub enum FileOpCommand {
    Copy { from: String, to: String },
    Move { from: String, to: String },
    Delete(String),
    Rename { from: String, to: String },
    CreateFile(String),
    CreateDir(String),
}

} // verus!
