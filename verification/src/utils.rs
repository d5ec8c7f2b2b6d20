//! Error values and response constructors shared by the request handlers.

use vstd::prelude::*;
use vstd::utf8::encode_utf8;

use crate::response::{HeaderPairRecord, HeaderPairV, SavedResponse, SavedResponseV};

verus! {

/// An error carried back to the HTTP layer: the status to answer with and
/// a message for the log.
#[derive(Debug)]
pub struct AppError {
    pub status_code: u16,
    pub message: String,
}

/// Mathematical view of an [`AppError`].
#[verifier::ext_equal]
pub struct AppErrorV {
    pub status_code: u16,
    pub message: Seq<char>,
}

impl View for AppError {
    type V = AppErrorV;

    open spec fn view(&self) -> AppErrorV {
        AppErrorV { status_code: self.status_code, message: self.message@ }
    }
}

/// Wraps a message as a bad-request failure.
pub fn e400(message: String) -> (r: AppError)
    ensures
        r@ == (AppErrorV { status_code: 400, message: message@ }),
{
    AppError { status_code: 400, message }
}

/// Wraps a message as an internal-server failure.
pub fn e500(message: String) -> (r: AppError)
    ensures
        r@ == (AppErrorV { status_code: 500, message: message@ }),
{
    AppError { status_code: 500, message }
}

/// The response that [`see_other`] builds: a redirect with one
/// `location` header and an empty body.
pub open spec fn see_other_response(location: Seq<char>) -> SavedResponseV {
    SavedResponseV {
        status_code: 303,
        headers: seq![HeaderPairV { name: "location"@, value: encode_utf8(location) }],
        body: Seq::<u8>::empty(),
    }
}

/// A redirect to `location`.
pub fn see_other(location: &str) -> (r: SavedResponse)
    ensures
        r@ == see_other_response(location@),
{
    let value = location.as_bytes_vec();
    let mut headers: Vec<HeaderPairRecord> = Vec::new();
    headers.push(HeaderPairRecord { name: String::from_str("location"), value });
    let r = SavedResponse { status_code: 303, headers, body: Vec::new() };
    proof {
        assert(r@.headers =~= see_other_response(location@).headers);
        assert(r@ =~= see_other_response(location@));
    }
    r
}

/// How a long-running task came to its end, as the supervising runtime
/// sees it.
#[derive(Debug)]
pub enum TaskOutcome {
    /// The task returned cleanly.
    Exited,
    /// The task ran to an error, described by the message.
    Failed(String),
    /// The task never produced an outcome: it was cancelled or panicked.
    FailedToComplete(String),
}

/// The log line the supervisor emits when a task ends.
pub fn report_exit(task_name: &str, outcome: &TaskOutcome) -> (r: String)
    ensures
        r@ == match outcome {
            TaskOutcome::Exited => task_name@ + " has exited."@,
            TaskOutcome::Failed(_) => task_name@ + "' failed."@,
            TaskOutcome::FailedToComplete(_) => task_name@ + "' task failed to complete."@,
        },
{
    let mut line = task_name.to_owned();
    match outcome {
        TaskOutcome::Exited => line.append(" has exited."),
        TaskOutcome::Failed(_) => line.append("' failed."),
        TaskOutcome::FailedToComplete(_) => line.append("' task failed to complete."),
    }
    line
}

} // verus!
