//! The errors that the operations of the application report.

use vstd::prelude::*;
use crate::presets::{presets_error_message, PresetsError};
use crate::tc::{tc_error_message, TcError};

verus! {

/// A failure of an operation of the application.
#[derive(Debug, PartialEq, Eq)]
pub enum AppError {
    /// Running `tc` failed.
    Tc(TcError),
    /// Reading or writing the presets failed.
    Presets(PresetsError),
    /// Any other failure, with its message.
    Other(String),
}

/// The message of an application failure.
pub open spec fn app_error_message(e: AppError) -> Seq<char> {
    match e {
        AppError::Tc(t) => "tc error: "@ + tc_error_message(t),
        AppError::Presets(p) => "presets error: "@ + presets_error_message(p),
        AppError::Other(m) => m@,
    }
}

impl AppError {
    /// The message that describes this failure.
    pub fn to_string(&self) -> (res: String)
        ensures
            res@ == app_error_message(*self),
    {
        match self {
            AppError::Tc(t) => {
                let m = t.to_string();
                String::from_str("tc error: ").concat(m.as_str())
            },
            AppError::Presets(p) => {
                let m = p.to_string();
                String::from_str("presets error: ").concat(m.as_str())
            },
            AppError::Other(m) => m.clone(),
        }
    }
}

impl From<String> for AppError {
    fn from(s: String) -> (res: Self) {
        AppError::Other(s)
    }
}

impl vstd::std_specs::convert::FromSpecImpl<String> for AppError {
    open spec fn obeys_from_spec() -> bool {
        true
    }

    open spec fn from_spec(s: String) -> AppError {
        AppError::Other(s)
    }
}

} // verus!
