//! Errors carrying a message or the message of an error from elsewhere.
use vstd::prelude::*;
use crate::text::{copy_string, owned};

verus! {

/// An error: a message of this program, or one reported by a library or
/// the system (kept as its message).
#[derive(Debug)]
pub enum DotsError {
    Message(String),
    Upstream(String),
}

impl DotsError {
    /// The error with message `e`.
    pub fn from_message(e: &str) -> (r: DotsError)
        ensures
            r matches DotsError::Message(m) && m@ == e@,
    {
        DotsError::Message(owned(e))
    }

    /// The error reported elsewhere with message `e`.
    pub fn upstream(e: String) -> (r: DotsError)
        ensures
            r matches DotsError::Upstream(m) && m@ == e@,
    {
        DotsError::Upstream(e)
    }

    /// The text shown for the error: its message.
    pub fn message(&self) -> (r: String)
        ensures
            match self {
                DotsError::Message(m) => r@ == m@,
                DotsError::Upstream(m) => r@ == m@,
            },
    {
        match self {
            DotsError::Message(m) => copy_string(m),
            DotsError::Upstream(m) => copy_string(m),
        }
    }

    /// Whether the error has an underlying cause: only errors reported
    /// elsewhere have one.
    pub fn has_source(&self) -> (r: bool)
        ensures
            r == self is Upstream,
    {
        match self {
            DotsError::Upstream(_) => true,
            DotsError::Message(_) => false,
        }
    }
}

} // verus!
