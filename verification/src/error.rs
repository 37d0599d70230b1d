//! What can go wrong, and how it is told.
use vstd::prelude::*;

use crate::text::signed_decimal;
use crate::text::signed_decimal_text;

verus! {

/// What can go wrong. A `cause` is what the system says of it.
pub enum ServerError {
    /// The PHP engine did not start.
    Boot { status: i32 },
    /// PHP code holds a null byte.
    NullByte,
    /// The PHP engine did not run the code.
    Eval { status: i32 },
    /// The root of the application is no directory to work in.
    ChangeDirectory { root: String, cause: String },
    /// The address cannot be listened on.
    Bind { address: String, cause: String },
    /// The request cannot be read.
    ReadRequest { cause: String },
    /// The request is empty.
    EmptyRequest,
    /// A file cannot be read.
    ReadStatic { file: String, cause: String },
    /// The PHP worker takes no more jobs.
    WorkerStopped,
    /// The PHP worker gave no answer to a job.
    NoReply,
    /// The PHP worker told of a failure of its own.
    Worker { cause: String },
    /// What PHP has written cannot be read.
    ReadOutput { path: String, cause: String },
    /// The response cannot be written.
    WriteResponse { cause: String },
}

/// What can go wrong, as plain sequences.
pub ghost enum ErrorView {
    Boot { status: int },
    NullByte,
    Eval { status: int },
    ChangeDirectory { root: Seq<char>, cause: Seq<char> },
    Bind { address: Seq<char>, cause: Seq<char> },
    ReadRequest { cause: Seq<char> },
    EmptyRequest,
    ReadStatic { file: Seq<char>, cause: Seq<char> },
    WorkerStopped,
    NoReply,
    Worker { cause: Seq<char> },
    ReadOutput { path: Seq<char>, cause: Seq<char> },
    WriteResponse { cause: Seq<char> },
}

impl View for ServerError {
    type V = ErrorView;

    open spec fn view(&self) -> ErrorView {
        match *self {
            ServerError::Boot { status } => ErrorView::Boot { status: status as int },
            ServerError::NullByte => ErrorView::NullByte,
            ServerError::Eval { status } => ErrorView::Eval { status: status as int },
            ServerError::ChangeDirectory { root, cause } => ErrorView::ChangeDirectory {
                root: root@,
                cause: cause@,
            },
            ServerError::Bind { address, cause } => ErrorView::Bind {
                address: address@,
                cause: cause@,
            },
            ServerError::ReadRequest { cause } => ErrorView::ReadRequest { cause: cause@ },
            ServerError::EmptyRequest => ErrorView::EmptyRequest,
            ServerError::ReadStatic { file, cause } => ErrorView::ReadStatic {
                file: file@,
                cause: cause@,
            },
            ServerError::WorkerStopped => ErrorView::WorkerStopped,
            ServerError::NoReply => ErrorView::NoReply,
            ServerError::Worker { cause } => ErrorView::Worker { cause: cause@ },
            ServerError::ReadOutput { path, cause } => ErrorView::ReadOutput {
                path: path@,
                cause: cause@,
            },
            ServerError::WriteResponse { cause } => ErrorView::WriteResponse { cause: cause@ },
        }
    }
}

/// How it is told.
pub open spec fn message(error: ErrorView) -> Seq<char> {
    match error {
        ErrorView::Boot { status } => "php_embed_init failed with status "@ + signed_decimal(
            status,
        ),
        ErrorView::NullByte => "PHP code contains an interior null byte"@,
        ErrorView::Eval { status } => "zend_eval_string failed with status "@ + signed_decimal(
            status,
        ),
        ErrorView::ChangeDirectory { root, cause } => "failed to chdir to Laravel root "@ + root
            + ": "@ + cause,
        ErrorView::Bind { address, cause } => "failed to bind "@ + address + ": "@ + cause,
        ErrorView::ReadRequest { cause } => "failed to read request: "@ + cause,
        ErrorView::EmptyRequest => "empty HTTP request"@,
        ErrorView::ReadStatic { file, cause } => "failed to read static file "@ + file + ": "@
            + cause,
        ErrorView::WorkerStopped => "PHP background worker thread panicked or stopped"@,
        ErrorView::NoReply => "Failed to receive response from PHP worker"@,
        ErrorView::Worker { cause } => cause,
        ErrorView::ReadOutput { path, cause } => "failed to read PHP response "@ + path + ": "@
            + cause,
        ErrorView::WriteResponse { cause } => "failed to write response: "@ + cause,
    }
}

/// A text made of a subject and what the system says of it.
fn told(what: &str, subject: &str, cause: &str) -> (text: String)
    ensures
        text@ == what@ + subject@ + ": "@ + cause@,
{
    what.to_owned().concat(subject).concat(": ").concat(cause)
}

impl ServerError {
    /// Tells what went wrong.
    pub fn message(&self) -> (text: String)
        ensures
            text@ == message(self@),
    {
        match self {
            ServerError::Boot { status } => {
                let number = signed_decimal_text(*status);
                "php_embed_init failed with status ".to_owned().concat(number.as_str())
            },
            ServerError::NullByte => "PHP code contains an interior null byte".to_owned(),
            ServerError::Eval { status } => {
                let number = signed_decimal_text(*status);
                "zend_eval_string failed with status ".to_owned().concat(number.as_str())
            },
            ServerError::ChangeDirectory { root, cause } => told(
                "failed to chdir to Laravel root ",
                root.as_str(),
                cause.as_str(),
            ),
            ServerError::Bind { address, cause } => told(
                "failed to bind ",
                address.as_str(),
                cause.as_str(),
            ),
            ServerError::ReadRequest { cause } => "failed to read request: ".to_owned().concat(
                cause.as_str(),
            ),
            ServerError::EmptyRequest => "empty HTTP request".to_owned(),
            ServerError::ReadStatic { file, cause } => told(
                "failed to read static file ",
                file.as_str(),
                cause.as_str(),
            ),
            ServerError::WorkerStopped =>
                "PHP background worker thread panicked or stopped".to_owned(),
            ServerError::NoReply => "Failed to receive response from PHP worker".to_owned(),
            ServerError::Worker { cause } => cause.clone(),
            ServerError::ReadOutput { path, cause } => told(
                "failed to read PHP response ",
                path.as_str(),
                cause.as_str(),
            ),
            ServerError::WriteResponse { cause } => "failed to write response: ".to_owned().concat(
                cause.as_str(),
            ),
        }
    }
}

/// Whatever goes wrong is told in full: what it is, what it is about, and what
/// the system says of it, as it says it.
pub proof fn law_errors_are_told_in_full(
    status: int,
    subject: Seq<char>,
    cause: Seq<char>,
)
    ensures
        message(ErrorView::Boot { status }) == "php_embed_init failed with status "@
            + signed_decimal(status),
        message(ErrorView::NullByte) == "PHP code contains an interior null byte"@,
        message(ErrorView::Eval { status }) == "zend_eval_string failed with status "@
            + signed_decimal(status),
        message(ErrorView::ChangeDirectory { root: subject, cause })
            == "failed to chdir to Laravel root "@ + subject + ": "@ + cause,
        message(ErrorView::Bind { address: subject, cause }) == "failed to bind "@ + subject
            + ": "@ + cause,
        message(ErrorView::ReadRequest { cause }) == "failed to read request: "@ + cause,
        message(ErrorView::EmptyRequest) == "empty HTTP request"@,
        message(ErrorView::ReadStatic { file: subject, cause }) == "failed to read static file "@
            + subject + ": "@ + cause,
        message(ErrorView::WorkerStopped) == "PHP background worker thread panicked or stopped"@,
        message(ErrorView::NoReply) == "Failed to receive response from PHP worker"@,
        message(ErrorView::Worker { cause }) == cause,
        message(ErrorView::ReadOutput { path: subject, cause }) == "failed to read PHP response "@
            + subject + ": "@ + cause,
        message(ErrorView::WriteResponse { cause }) == "failed to write response: "@ + cause,
{
}

/// Errors are seen whole.
pub proof fn law_errors_are_seen_whole(status: i32, subject: String, cause: String)
    ensures
        (ServerError::Boot { status })@ == (ErrorView::Boot { status: status as int }),
        ServerError::NullByte@ == ErrorView::NullByte,
        (ServerError::Eval { status })@ == (ErrorView::Eval { status: status as int }),
        (ServerError::ChangeDirectory { root: subject, cause })@ == (ErrorView::ChangeDirectory {
            root: subject@,
            cause: cause@,
        }),
        (ServerError::Bind { address: subject, cause })@ == (ErrorView::Bind {
            address: subject@,
            cause: cause@,
        }),
        (ServerError::ReadRequest { cause })@ == (ErrorView::ReadRequest { cause: cause@ }),
        ServerError::EmptyRequest@ == ErrorView::EmptyRequest,
        (ServerError::ReadStatic { file: subject, cause })@ == (ErrorView::ReadStatic {
            file: subject@,
            cause: cause@,
        }),
        ServerError::WorkerStopped@ == ErrorView::WorkerStopped,
        ServerError::NoReply@ == ErrorView::NoReply,
        (ServerError::Worker { cause })@ == (ErrorView::Worker { cause: cause@ }),
        (ServerError::ReadOutput { path: subject, cause })@ == (ErrorView::ReadOutput {
            path: subject@,
            cause: cause@,
        }),
        (ServerError::WriteResponse { cause })@ == (ErrorView::WriteResponse { cause: cause@ }),
{
}

} // verus!
