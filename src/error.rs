//! The application-wide error, and the errors and outcomes of pasting.
use vstd::prelude::*;
use crate::stt::{SttError, stt_error_text};
use crate::vad::{VadError, vad_error_text};

verus! {

/// A failure anywhere in the application, tagged with the module it came from.
#[derive(Debug, Clone)]
pub enum AppError {
    Audio(String),
    Vad(VadError),
    Stt(SttError),
    Enhance(String),
    Paste(String),
    Config(String),
    Hotkey(String),
}

/// The result type of fallible application operations.
pub type Result<T> = std::result::Result<T, AppError>;

pub open spec fn app_error_text(e: AppError) -> Seq<char> {
    match e {
        AppError::Audio(m) => "Audio error: "@ + m@,
        AppError::Vad(v) => "VAD error: "@ + vad_error_text(v),
        AppError::Stt(s) => "STT error: "@ + stt_error_text(s),
        AppError::Enhance(m) => "Enhance error: "@ + m@,
        AppError::Paste(m) => "Paste error: "@ + m@,
        AppError::Config(m) => "Config error: "@ + m@,
        AppError::Hotkey(m) => "Hotkey error: "@ + m@,
    }
}

impl AppError {
    /// The message that describes the error, prefixed with its module.
    pub fn to_string(&self) -> (r: String)
        ensures
            r@ == app_error_text(*self),
    {
        let (prefix, detail) = match self {
            AppError::Audio(m) => ("Audio error: ", m.clone()),
            AppError::Vad(v) => ("VAD error: ", v.to_string()),
            AppError::Stt(s) => ("STT error: ", s.to_string()),
            AppError::Enhance(m) => ("Enhance error: ", m.clone()),
            AppError::Paste(m) => ("Paste error: ", m.clone()),
            AppError::Config(m) => ("Config error: ", m.clone()),
            AppError::Hotkey(m) => ("Hotkey error: ", m.clone()),
        };
        let mut r = String::from_str(prefix);
        r.append(detail.as_str());
        r
    }
}

impl From<VadError> for AppError {
    fn from(e: VadError) -> (r: AppError)
        ensures
            r == AppError::Vad(e),
    {
        AppError::Vad(e)
    }
}

impl vstd::std_specs::convert::FromSpecImpl<VadError> for AppError {
    open spec fn obeys_from_spec() -> bool {
        true
    }

    open spec fn from_spec(e: VadError) -> AppError {
        AppError::Vad(e)
    }
}

impl From<SttError> for AppError {
    fn from(e: SttError) -> (r: AppError)
        ensures
            r == AppError::Stt(e),
    {
        AppError::Stt(e)
    }
}

impl vstd::std_specs::convert::FromSpecImpl<SttError> for AppError {
    open spec fn obeys_from_spec() -> bool {
        true
    }

    open spec fn from_spec(e: SttError) -> AppError {
        AppError::Stt(e)
    }
}

#[verifier::external_type_specification]
#[verifier::external_body]
pub struct ExIoError(std::io::Error);

/// Relies on the `Display` of `std::io::Error`: its message. Nothing is
/// stated of the text, which for system errors comes from the platform.
#[verifier::external_body]
fn io_error_message(e: &std::io::Error) -> String {
    e.to_string()
}

impl From<std::io::Error> for AppError {
    fn from(e: std::io::Error) -> (r: AppError)
        ensures
            r is Config,
    {
        AppError::Config(io_error_message(&e))
    }
}

impl vstd::std_specs::convert::FromSpecImpl<std::io::Error> for AppError {
    open spec fn obeys_from_spec() -> bool {
        false
    }

    open spec fn from_spec(e: std::io::Error) -> AppError {
        arbitrary()
    }
}

/// Failures of the paste sink.
#[derive(Debug, Clone)]
pub enum PasteError {
    ClipboardUnavailable(String),
    ClipboardWrite(String),
    InputSimulation(String),
}

pub open spec fn paste_error_text(e: PasteError) -> Seq<char> {
    match e {
        PasteError::ClipboardUnavailable(m) => "clipboard unavailable: "@ + m@,
        PasteError::ClipboardWrite(m) => "clipboard write failed: "@ + m@,
        PasteError::InputSimulation(m) => "input simulation failed: "@ + m@,
    }
}

impl PasteError {
    /// The message that describes the error.
    pub fn to_string(&self) -> (r: String)
        ensures
            r@ == paste_error_text(*self),
    {
        let (prefix, detail) = match self {
            PasteError::ClipboardUnavailable(m) => ("clipboard unavailable: ", m),
            PasteError::ClipboardWrite(m) => ("clipboard write failed: ", m),
            PasteError::InputSimulation(m) => ("input simulation failed: ", m),
        };
        let mut r = String::from_str(prefix);
        r.append(detail.as_str());
        r
    }
}

/// How the final text reached the user.
#[derive(Debug, Clone, Copy, PartialEq, Eq, Structural)]
pub enum PasteStatus {
    /// Pasted into the focused field, clipboard restored.
    Pasted,
    /// Left in the clipboard; the user pastes it by hand.
    ClipboardOnly,
    /// The clipboard was unusable; the text must be shown in a window.
    ResultWindow,
}

} // verus!
