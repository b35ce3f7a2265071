//! Failures, and how each one reads.

use vstd::prelude::*;

verus! {

/// Why the inference core stopped: it was told to, or something went wrong.
#[derive(Debug)]
pub enum DemucsError {
    Cancelled,
    Failed { message: String },
}

/// Every way an operation of this crate can fail.
#[derive(Debug)]
pub enum FfiDemucsError {
    Cancelled,
    NotLoaded,
    NotCached { model_id: String },
    InvalidInput { reason: String },
    Download { reason: String },
    Io { reason: String },
    Inference { reason: String },
}

/// What a failure of the core is answered.
pub open spec fn answer_to(error: DemucsError) -> FfiDemucsError {
    match error {
        DemucsError::Cancelled => FfiDemucsError::Cancelled,
        DemucsError::Failed { message } => FfiDemucsError::Inference { reason: message },
    }
}

impl From<DemucsError> for FfiDemucsError {
    fn from(value: DemucsError) -> (r: FfiDemucsError) {
        match value {
            DemucsError::Cancelled => FfiDemucsError::Cancelled,
            DemucsError::Failed { message } => FfiDemucsError::Inference { reason: message },
        }
    }
}

impl vstd::std_specs::convert::FromSpecImpl<DemucsError> for FfiDemucsError {
    open spec fn obeys_from_spec() -> bool {
        true
    }

    open spec fn from_spec(value: DemucsError) -> FfiDemucsError {
        answer_to(value)
    }
}

/// `std::io::Error`, carried through as it came.
#[verifier::external_type_specification]
#[verifier::external_body]
pub struct ExIoError(std::io::Error);

impl From<std::io::Error> for FfiDemucsError {
    fn from(value: std::io::Error) -> (r: FfiDemucsError)
        ensures
            r matches FfiDemucsError::Io { reason }
                && vstd::string::to_string_from_display_ensures(&value, reason),
    {
        FfiDemucsError::Io { reason: value.to_string() }
    }
}

impl vstd::std_specs::convert::FromSpecImpl<std::io::Error> for FfiDemucsError {
    open spec fn obeys_from_spec() -> bool {
        false
    }

    open spec fn from_spec(value: std::io::Error) -> FfiDemucsError {
        arbitrary()
    }
}

impl FfiDemucsError {
    /// The text a user sees for this error.
    pub open spec fn text(self) -> Seq<char> {
        match self {
            FfiDemucsError::Cancelled => "operation cancelled"@,
            FfiDemucsError::NotLoaded => "no model is loaded"@,
            FfiDemucsError::NotCached { model_id } => "model "@ + model_id@ + " is not downloaded"@,
            FfiDemucsError::InvalidInput { reason } => reason@,
            FfiDemucsError::Download { reason } => "download failed: "@ + reason@,
            FfiDemucsError::Io { reason } => "i/o error: "@ + reason@,
            FfiDemucsError::Inference { reason } => reason@,
        }
    }

    /// Renders the error for display.
    pub fn message(&self) -> (r: String)
        ensures
            r@ == self.text(),
    {
        match self {
            FfiDemucsError::Cancelled => "operation cancelled".to_owned(),
            FfiDemucsError::NotLoaded => "no model is loaded".to_owned(),
            FfiDemucsError::NotCached { model_id } => "model ".to_owned().concat(
                model_id.as_str(),
            ).concat(" is not downloaded"),
            FfiDemucsError::InvalidInput { reason } => reason.clone(),
            FfiDemucsError::Download { reason } => "download failed: ".to_owned().concat(
                reason.as_str(),
            ),
            FfiDemucsError::Io { reason } => "i/o error: ".to_owned().concat(reason.as_str()),
            FfiDemucsError::Inference { reason } => reason.clone(),
        }
    }
}

/// A core that was told to stop answers as cancelled, and so does nothing
/// else; any other failure keeps the core's own message.
pub proof fn core_failures_keep_their_message(error: DemucsError)
    ensures
        error is Cancelled <==> answer_to(error) is Cancelled,
        forall|message: String|
            error == (DemucsError::Failed { message }) ==> #[trigger] answer_to(error) == (
            FfiDemucsError::Inference { reason: message }),
{
}

/// The text of an error holds all of the reason or identifier that came with
/// it, with nothing around it but the words that say what failed.
pub proof fn error_text_holds_the_reason(error: FfiDemucsError)
    ensures
        match error {
            FfiDemucsError::Cancelled => error.text() == "operation cancelled"@,
            FfiDemucsError::NotLoaded => error.text() == "no model is loaded"@,
            FfiDemucsError::NotCached { model_id } => {
                let (head, tail) = ("model "@.len() as int, " is not downloaded"@.len() as int);
                let end = error.text().len() - tail;
                &&& error.text().len() == head + model_id@.len() + tail
                &&& error.text().subrange(0, head) == "model "@
                &&& error.text().subrange(head, end) == model_id@
                &&& error.text().subrange(end, end + tail) == " is not downloaded"@
            },
            FfiDemucsError::InvalidInput { reason } => error.text() == reason@,
            FfiDemucsError::Inference { reason } => error.text() == reason@,
            FfiDemucsError::Download { reason } => {
                let head = "download failed: "@.len() as int;
                &&& error.text().len() == head + reason@.len()
                &&& error.text().subrange(0, head) == "download failed: "@
                &&& error.text().subrange(head, error.text().len() as int) == reason@
            },
            FfiDemucsError::Io { reason } => {
                let head = "i/o error: "@.len() as int;
                &&& error.text().len() == head + reason@.len()
                &&& error.text().subrange(0, head) == "i/o error: "@
                &&& error.text().subrange(head, error.text().len() as int) == reason@
            },
        },
{
    match error {
        FfiDemucsError::NotCached { model_id } => {
            let (head, tail) = ("model "@.len() as int, " is not downloaded"@.len() as int);
            let end = error.text().len() - tail;
            assert(error.text().subrange(0, head) =~= "model "@);
            assert(error.text().subrange(head, end) =~= model_id@);
            assert(error.text().subrange(end, end + tail) =~= " is not downloaded"@);
        },
        FfiDemucsError::Download { reason } => {
            let head = "download failed: "@.len() as int;
            assert(error.text().subrange(0, head) =~= "download failed: "@);
            assert(error.text().subrange(head, error.text().len() as int) =~= reason@);
        },
        FfiDemucsError::Io { reason } => {
            let head = "i/o error: "@.len() as int;
            assert(error.text().subrange(0, head) =~= "i/o error: "@);
            assert(error.text().subrange(head, error.text().len() as int) =~= reason@);
        },
        _ => {},
    }
}

/// Converting a failure of the core keeps its message, or that it was told to
/// stop.
pub proof fn converted_failures_keep_their_message(error: DemucsError, r: FfiDemucsError)
    requires
        call_ensures(<FfiDemucsError as From<DemucsError>>::from, (error,), r),
    ensures
        error is Cancelled <==> r is Cancelled,
        error matches DemucsError::Failed { message } ==> r == (FfiDemucsError::Inference {
            reason: message,
        }),
{
}

} // verus!
