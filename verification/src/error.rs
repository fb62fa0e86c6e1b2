use vstd::prelude::*;
use vstd::string::*;

use crate::utils::{try_string_from_wide, wide_decode, wide_well_formed};

verus! {

/// Platform error code that the system reports when access is refused.
pub const ERROR_ACCESS_DENIED: u32 = 5;

/// Why an operation of this library failed.
///
/// Every variant that stems from one failed system call keeps the platform
/// error code that was current right after that call.
#[derive(Debug, Clone, Copy, PartialEq, Eq)]
pub enum AppError {
    /// A handle or a snapshot could not be acquired.
    ResourceUnavailable { code: u32 },
    /// The target process exists but may not be opened.
    AccessDenied { code: u32 },
    /// The target process or its image could not be resolved.
    NotFound { code: u32 },
    /// No loaded module carries the path of the process image.
    ModuleNotFound { code: u32 },
    /// One query to the system failed.
    QueryFailed { code: u32 },
    /// `failed` lookups of a bulk operation failed; `failed` is at least one.
    Aggregate { failed: usize },
}

pub type AppResult<T> = Result<T, AppError>;

impl AppError {
    /// The error for one failed query, given the platform error code that
    /// followed it.
    pub fn last_api_error(code: u32) -> (e: AppError)
        ensures
            e == (AppError::QueryFailed { code }),
    {
        AppError::QueryFailed { code }
    }

    /// The error for a process that could not be opened.
    pub open spec fn open_failure(code: u32) -> AppError {
        if code == ERROR_ACCESS_DENIED {
            AppError::AccessDenied { code }
        } else {
            AppError::NotFound { code }
        }
    }

    /// Classifies a failed attempt to open a process: a refusal by the system
    /// is `AccessDenied`, anything else means the process was not found.
    pub fn from_open_failure(code: u32) -> (e: AppError)
        ensures
            e == AppError::open_failure(code),
    {
        if code == ERROR_ACCESS_DENIED {
            AppError::AccessDenied { code }
        } else {
            AppError::NotFound { code }
        }
    }

    /// The platform error code kept in this error, if it keeps one.
    pub open spec fn spec_code(self) -> Option<u32> {
        match self {
            AppError::ResourceUnavailable { code } => Some(code),
            AppError::AccessDenied { code } => Some(code),
            AppError::NotFound { code } => Some(code),
            AppError::ModuleNotFound { code } => Some(code),
            AppError::QueryFailed { code } => Some(code),
            AppError::Aggregate { .. } => None,
        }
    }

    /// The platform error code kept in this error, if it keeps one.
    #[verifier::when_used_as_spec(spec_code)]
    pub fn code(self) -> (c: Option<u32>)
        ensures
            c == self.spec_code(),
    {
        match self {
            AppError::ResourceUnavailable { code } => Some(code),
            AppError::AccessDenied { code } => Some(code),
            AppError::NotFound { code } => Some(code),
            AppError::ModuleNotFound { code } => Some(code),
            AppError::QueryFailed { code } => Some(code),
            AppError::Aggregate { .. } => None,
        }
    }

    /// What `message` returns for the text `system_text`.
    pub open spec fn message_text(system_text: Seq<u16>) -> Seq<char> {
        if system_text.len() > 0 && wide_well_formed(system_text) {
            wide_decode(system_text)
        } else {
            "unknown error"@
        }
    }

    /// The diagnostic text of an error, given the wide text that the system
    /// holds for its code. An empty text, or one that is not well-formed
    /// UTF-16, gives `"unknown error"`.
    pub fn message(system_text: &[u16]) -> (text: String)
        ensures
            text@ == AppError::message_text(system_text@),
    {
        if system_text.len() == 0 {
            return String::from_str("unknown error");
        }
        match try_string_from_wide(system_text) {
            Some(t) => t,
            None => String::from_str("unknown error"),
        }
    }
}

} // verus!
