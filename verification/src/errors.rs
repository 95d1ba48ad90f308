use vstd::prelude::*;
use vstd::string::StringExecFns;

verus! {

/// The closed set of failure kinds of a run, one variant per kind:
/// missing command (configuration), undecodable input, scratch-file
/// provisioning, scratch-file rewriting, child spawning, and child failure.
/// Each variant carries only the diagnostic text its message needs.
#[derive(Debug)]
pub enum XtempError {
    /// The command template is empty.
    MissingCommand,
    /// Standard input was not valid UTF-8 or could not be read.
    InvalidUtf8(String),
    /// A scratch file could not be created.
    ProvisioningFailed(String),
    /// A scratch file could not be truncated, rewritten or flushed.
    FailedToWrite(String),
    /// The child process could not be started.
    SpawnFailed(String),
    /// The child process exited unsuccessfully or was signaled.
    SubprocessFailed(String),
}

/// The single-line diagnostic for an error: a fixed prefix naming the
/// failure kind, followed by the variant's cause text.
pub open spec fn message_spec(e: &XtempError) -> Seq<char> {
    match e {
        XtempError::MissingCommand => "missing command argument"@,
        XtempError::InvalidUtf8(c) => "input contains invalid UTF-8: "@ + c@,
        XtempError::ProvisioningFailed(c) => "could not create temporary file: "@ + c@,
        XtempError::FailedToWrite(c) => "could not write to output stream: "@ + c@,
        XtempError::SpawnFailed(c) => "failed to run command: "@ + c@,
        XtempError::SubprocessFailed(c) => "subprocess failed: "@ + c@,
    }
}

impl XtempError {
    /// Render the diagnostic line for this error.
    pub fn message(&self) -> (r: String)
        ensures
            r@ == message_spec(self),
    {
        match self {
            XtempError::MissingCommand => "missing command argument".to_owned(),
            XtempError::InvalidUtf8(c) => {
                let mut m = "input contains invalid UTF-8: ".to_owned();
                m.append(c.as_str());
                m
            },
            XtempError::ProvisioningFailed(c) => {
                let mut m = "could not create temporary file: ".to_owned();
                m.append(c.as_str());
                m
            },
            XtempError::FailedToWrite(c) => {
                let mut m = "could not write to output stream: ".to_owned();
                m.append(c.as_str());
                m
            },
            XtempError::SpawnFailed(c) => {
                let mut m = "failed to run command: ".to_owned();
                m.append(c.as_str());
                m
            },
            XtempError::SubprocessFailed(c) => {
                let mut m = "subprocess failed: ".to_owned();
                m.append(c.as_str());
                m
            },
        }
    }
}

} // verus!
