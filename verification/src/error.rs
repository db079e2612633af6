//! What can be wrong with a configuration.
use vstd::prelude::*;

verus! {

/// The faults that a configuration can have.
#[derive(Debug)]
pub enum AppError {
    InvalidConfig(String),
    MissingAuthentication,
    InvalidMode(String),
}

/// The content of an [`AppError`].
#[verifier::ext_equal]
pub enum ErrorView {
    InvalidConfig(Seq<char>),
    MissingAuthentication,
    InvalidMode(Seq<char>),
}

impl View for AppError {
    type V = ErrorView;

    open spec fn view(&self) -> ErrorView {
        match self {
            AppError::InvalidConfig(reason) => ErrorView::InvalidConfig(reason@),
            AppError::MissingAuthentication => ErrorView::MissingAuthentication,
            AppError::InvalidMode(mode) => ErrorView::InvalidMode(mode@),
        }
    }
}

impl ErrorView {
    /// The error as a message.
    pub open spec fn message(self) -> Seq<char> {
        match self {
            ErrorView::InvalidConfig(reason) => "Invalid configuration: "@ + reason,
            ErrorView::MissingAuthentication => "No InfluxDB authentication provided"@,
            ErrorView::InvalidMode(mode) => "Invalid mode: "@ + mode,
        }
    }
}

impl AppError {
    /// The error as a message.
    pub fn message(&self) -> (text: String)
        ensures
            text@ == self@.message(),
    {
        match self {
            AppError::InvalidConfig(reason) => "Invalid configuration: ".to_owned().concat(
                reason.as_str(),
            ),
            AppError::MissingAuthentication => "No InfluxDB authentication provided".to_owned(),
            AppError::InvalidMode(mode) => "Invalid mode: ".to_owned().concat(mode.as_str()),
        }
    }
}

/// The message of an error begins with what is wrong and goes on with the reason or the mode as it
/// was given. The content of an error is of the same kind and has the same text.
pub proof fn message_tells_what_is_wrong(error: AppError)
    ensures
        error matches AppError::InvalidConfig(reason) ==> {
            &&& error@ == ErrorView::InvalidConfig(reason@)
            &&& error@.message() == "Invalid configuration: "@ + reason@
        },
        error matches AppError::InvalidMode(mode) ==> {
            &&& error@ == ErrorView::InvalidMode(mode@)
            &&& error@.message() == "Invalid mode: "@ + mode@
        },
        error is MissingAuthentication ==> {
            &&& error@ is MissingAuthentication
            &&& error@.message() == "No InfluxDB authentication provided"@
        },
{
}

} // verus!
