//! Errors of the domain layer.
use vstd::prelude::*;

verus! {

/// Errors of the domain layer.
#[derive(Debug)]
pub enum CoreError {
    /// A stored value could not be read back.
    InvalidValue(String),
    /// The named record does not exist.
    NotFound(&'static str),
    /// The input was rejected.
    Validation(String),
}

impl CoreError {
    /// The text the error displays.
    pub open spec fn text(self) -> Seq<char> {
        match self {
            CoreError::InvalidValue(m) => "invalid stored value: "@ + m@,
            CoreError::NotFound(e) => e@ + " not found"@,
            CoreError::Validation(m) => "validation error: "@ + m@,
        }
    }

    /// The text the error displays.
    pub fn message(&self) -> (s: String)
        ensures
            s@ == self.text(),
    {
        let mut s = String::new();
        match self {
            CoreError::InvalidValue(m) => {
                s.append("invalid stored value: ");
                s.append(m.as_str());
            },
            CoreError::NotFound(e) => {
                s.append(e);
                s.append(" not found");
            },
            CoreError::Validation(m) => {
                s.append("validation error: ");
                s.append(m.as_str());
            },
        }
        s
    }
}

/// The `Validation` error whose message is `m`.
pub open spec fn is_validation(e: CoreError, m: Seq<char>) -> bool {
    e matches CoreError::Validation(s) && s@ == m
}

} // verus!
