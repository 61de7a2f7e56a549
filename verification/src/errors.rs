use vstd::prelude::*;

verus! {

/// The failure taxonomy of a job, in the order in which the stages of a job
/// can fail.
///
/// - `Config`: mandatory external configuration is missing; nothing runs.
/// - `Validation`: the request is malformed; rejected before any pipeline
///   or transfer activity.
/// - `Transport`: fetching the input, uploading the artifact, or issuing the
///   retrieval link failed; the collaborator's message is carried verbatim.
/// - `Engine`: the processing pipeline failed to start, reported a failure,
///   or ended without reaching the end of the stream.
#[derive(Debug)]
pub enum JobError {
    Config { message: String },
    Validation { message: String },
    Transport { message: String },
    Engine { message: String },
}

impl JobError {
    /// The human-readable message carried by any variant.
    pub fn message(&self) -> (m: &String)
        ensures
            m@ == self.spec_message(),
    {
        match self {
            JobError::Config { message } => message,
            JobError::Validation { message } => message,
            JobError::Transport { message } => message,
            JobError::Engine { message } => message,
        }
    }

    pub open spec fn spec_message(&self) -> Seq<char> {
        match self {
            JobError::Config { message } => message@,
            JobError::Validation { message } => message@,
            JobError::Transport { message } => message@,
            JobError::Engine { message } => message@,
        }
    }
}

} // verus!
