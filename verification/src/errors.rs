use vstd::prelude::*;

verus! {

/// The failures the library reports.
#[derive(Debug)]
pub enum AutoGuiError {
    /// A call into the operating system failed; the system's message.
    OSFailure(String),
    /// Image data could not be turned into an image.
    ImgError(String),
}

#[verifier::external_type_specification]
#[verifier::external_body]
pub struct ExOsError(windows_result::Error);

/// The system's text for an operating-system error
/// (`windows_result::Error::message`). Nothing is stated of it: the text is
/// looked up in the system's message tables, in the system's language.
#[verifier::external_body]
fn os_error_message(err: &windows_result::Error) -> String {
    err.message()
}

impl AutoGuiError {
    /// The error for a failed operating-system call whose system message is
    /// `message`: an `OSFailure` carrying that message.
    pub fn os_failure(message: String) -> (e: AutoGuiError)
        ensures
            e == AutoGuiError::OSFailure(message),
    {
        AutoGuiError::OSFailure(message)
    }

    /// The library's error for a failed operating-system call: an
    /// `OSFailure` that carries the system's message for it
    /// (see `os_failure`).
    pub fn from_os_error(err: windows_result::Error) -> (e: AutoGuiError)
        ensures
            e is OSFailure,
    {
        AutoGuiError::os_failure(os_error_message(&err))
    }
}

} // verus!
