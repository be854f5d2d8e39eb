//! How an attachment is written to its file.

use vstd::prelude::*;

use crate::error::{ErrorView, GwsError};

verus! {

/// How a file is opened for writing.
#[derive(Debug, Clone, Copy, PartialEq, Eq, Structural)]
pub struct OpenMode {
    /// The file is opened for writing.
    pub write: bool,
    /// A file that is not there is created.
    pub create: bool,
    /// A file that is there loses its content.
    pub truncate: bool,
    /// The file is created; a file that is there is an error.
    pub create_new: bool,
}

/// A file that is there is replaced if files are to be overwritten, else it is an error.
pub open spec fn mode_for(overwrite: bool) -> OpenMode {
    OpenMode { write: true, create: overwrite, truncate: overwrite, create_new: !overwrite }
}

/// Chooses how the file of an attachment is opened.
pub fn open_mode(overwrite: bool) -> (mode: OpenMode)
    ensures
        mode == mode_for(overwrite),
{
    if overwrite {
        OpenMode { write: true, create: true, truncate: true, create_new: false }
    } else {
        OpenMode { write: true, create: false, truncate: false, create_new: true }
    }
}

/// The steps of writing a file.
#[derive(Debug, Clone, Copy, PartialEq, Eq, Structural)]
pub enum WriteStep {
    Create,
    Write,
    Sync,
}

/// A step that failed, and why.
#[derive(Debug)]
pub struct WriteFailure {
    pub step: WriteStep,
    pub cause: String,
}

/// The error for a step that failed on the file at `path`.
pub open spec fn write_failure_error(
    step: WriteStep,
    path: Seq<char>,
    cause: Seq<char>,
) -> ErrorView {
    let verb = match step {
        WriteStep::Create => "create"@,
        WriteStep::Write => "write"@,
        WriteStep::Sync => "sync"@,
    };
    ErrorView::Validation("Failed to "@ + verb + " attachment file '"@ + path + "': "@ + cause)
}

/// Tells the user which step failed on the file at `path`, and why.
pub fn write_error(failure: &WriteFailure, path: &str) -> (error: GwsError)
    ensures
        error@ == write_failure_error(failure.step, path@, failure.cause@),
{
    let verb = match failure.step {
        WriteStep::Create => "create",
        WriteStep::Write => "write",
        WriteStep::Sync => "sync",
    };
    let mut text = "Failed to ".to_owned();
    text.append(verb);
    text.append(" attachment file '");
    text.append(path);
    text.append("': ");
    text.append(&failure.cause);
    GwsError::Validation(text)
}

} // verus!
