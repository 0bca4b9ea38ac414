//! The accessibility subsystem's errors and their mapping onto the runtime's
//! error codes.

use vstd::prelude::*;

use crate::fmt::{decimal, push_decimal};
use crate::model::{AccessibleId, CoreError, ErrorCode, WindowId};

verus! {

/// Errors produced by the accessibility subsystem.
#[derive(Debug)]
pub enum A11yError {
    /// No accessibility backend is available in this environment.
    Unavailable(String),
    /// No accessible subtree correlates with the given window.
    NotCorrelated(WindowId),
    /// The referenced accessible element is unknown or gone.
    UnknownNode(AccessibleId),
    /// The element does not expose the requested action.
    UnknownAction {
        /// The element addressed.
        id: AccessibleId,
        /// The action name that was not found.
        action: String,
    },
    /// The request was malformed.
    InvalidRequest(String),
    /// The accessibility backend failed.
    Backend(String),
}

/// The human-readable message of an accessibility error.
pub open spec fn a11y_message(e: A11yError) -> Seq<char> {
    match e {
        A11yError::Unavailable(m) => "accessibility backend unavailable: "@ + m@,
        A11yError::NotCorrelated(w) => "no accessible subtree correlates with window "@ + decimal(
            w.0 as nat,
        ),
        A11yError::UnknownNode(id) => "unknown accessible node "@ + decimal(id.0 as nat),
        A11yError::UnknownAction { id, action } => "accessible node "@ + decimal(id.0 as nat)
            + " exposes no action "@ + action@,
        A11yError::InvalidRequest(m) => "invalid accessibility request: "@ + m@,
        A11yError::Backend(m) => "accessibility backend error: "@ + m@,
    }
}

/// The runtime error an accessibility error is reported as: its code, and the
/// message the client sees.
pub open spec fn a11y_core_code(e: A11yError) -> ErrorCode {
    match e {
        A11yError::Unavailable(_) => ErrorCode::NotSupported,
        A11yError::NotCorrelated(_) => ErrorCode::NotSupported,
        A11yError::UnknownNode(_) => ErrorCode::UnknownAccessible,
        A11yError::UnknownAction { .. } => ErrorCode::InvalidRequest,
        A11yError::InvalidRequest(_) => ErrorCode::InvalidRequest,
        A11yError::Backend(_) => ErrorCode::Internal,
    }
}

/// The message of the runtime error an accessibility error is reported as.
pub open spec fn a11y_core_message(e: A11yError) -> Seq<char> {
    match e {
        A11yError::UnknownNode(id) => "unknown accessible "@ + decimal(id.0 as nat),
        A11yError::InvalidRequest(m) => m@,
        _ => a11y_message(e),
    }
}

fn concat(a: &str, b: &str) -> (s: String)
    ensures
        s@ == a@ + b@,
{
    let mut s = String::new();
    s.append(a);
    s.append(b);
    assert(Seq::<char>::empty() + a@ + b@ =~= a@ + b@);
    s
}

impl A11yError {
    /// The human-readable message (what `Display` prints).
    pub fn message(&self) -> (m: String)
        ensures
            m@ == a11y_message(*self),
    {
        match self {
            A11yError::Unavailable(m) => concat("accessibility backend unavailable: ", m.as_str()),
            A11yError::NotCorrelated(w) => {
                let mut s = String::from_str("no accessible subtree correlates with window ");
                push_decimal(&mut s, w.0);
                s
            },
            A11yError::UnknownNode(id) => {
                let mut s = String::from_str("unknown accessible node ");
                push_decimal(&mut s, id.0);
                s
            },
            A11yError::UnknownAction { id, action } => {
                let mut s = String::from_str("accessible node ");
                push_decimal(&mut s, id.0);
                s.append(" exposes no action ");
                s.append(action.as_str());
                s
            },
            A11yError::InvalidRequest(m) => concat("invalid accessibility request: ", m.as_str()),
            A11yError::Backend(m) => concat("accessibility backend error: ", m.as_str()),
        }
    }

    /// The runtime error this accessibility error is reported as.
    pub fn to_core(&self) -> (e: CoreError)
        ensures
            e.code == a11y_core_code(*self),
            e.message@ == a11y_core_message(*self),
    {
        match self {
            A11yError::UnknownNode(id) => {
                let mut s = String::from_str("unknown accessible ");
                push_decimal(&mut s, id.0);
                CoreError { code: ErrorCode::UnknownAccessible, message: s }
            },
            A11yError::InvalidRequest(m) => CoreError {
                code: ErrorCode::InvalidRequest,
                message: m.clone(),
            },
            A11yError::Unavailable(_) => CoreError {
                code: ErrorCode::NotSupported,
                message: self.message(),
            },
            A11yError::NotCorrelated(_) => CoreError {
                code: ErrorCode::NotSupported,
                message: self.message(),
            },
            A11yError::UnknownAction { .. } => CoreError {
                code: ErrorCode::InvalidRequest,
                message: self.message(),
            },
            A11yError::Backend(_) => CoreError { code: ErrorCode::Internal, message: self.message() },
        }
    }
}

} // verus!
