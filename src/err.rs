use vstd::prelude::*;

verus! {

/// Failures of the application itself, as opposed to errors reported by the server.
#[derive(Debug, Clone, Copy, PartialEq, Eq, Structural)]
pub enum AppError {
    /// The user did not complete the device authorization before the attempts ran out.
    Timeout,
    /// The host offers no configuration directory to keep the token in.
    NoConfigDirectory,
    /// A server response did not have the shape the protocol prescribes.
    MalformedResponse,
}

/// The human-readable text of each error.
pub open spec fn app_error_message(e: AppError) -> Seq<char> {
    match e {
        AppError::Timeout => "Timeout while waiting user action"@,
        AppError::NoConfigDirectory => "Unable to locate config directory"@,
        AppError::MalformedResponse => "Unexpected response from server"@,
    }
}

impl AppError {
    /// The message shown to the user for this error.
    pub fn message(&self) -> (r: String)
        ensures
            r@ == app_error_message(*self),
    {
        match self {
            AppError::Timeout => "Timeout while waiting user action".to_owned(),
            AppError::NoConfigDirectory => "Unable to locate config directory".to_owned(),
            AppError::MalformedResponse => "Unexpected response from server".to_owned(),
        }
    }
}

} // verus!
