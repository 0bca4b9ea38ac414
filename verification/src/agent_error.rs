//! The agent's errors, the provider's errors, and the loop's classification of
//! an error into retry, recovery or stop.

use vstd::prelude::*;

use crate::fmt::{decimal, push_decimal};
use crate::model::{error_code_wire_name, CoreError, ErrorCode};

verus! {

/// Provider-side failures, kept separate from runtime errors.
#[derive(Debug, Clone)]
pub enum ProviderError {
    /// No API key configured for a provider that requires one.
    MissingApiKey,
    /// The provider request could not be sent.
    Transport(String),
    /// The provider answered with a non-success HTTP status.
    Status {
        /// HTTP status code.
        status: u16,
        /// Response body (truncated by the provider).
        body: String,
    },
    /// The provider did not answer within the configured timeout.
    Timeout(u64),
    /// The provider response could not be parsed into a decision.
    InvalidResponse(String),
}

/// Errors produced by the agent.
#[derive(Debug)]
pub enum Error {
    /// An AGP request failed; the runtime's error code is preserved.
    Client(CoreError),
    /// The LLM provider failed.
    Provider(ProviderError),
    /// Transport-level failure (socket connect/read/write).
    Transport(String),
    /// The runtime speaks a different AGP version.
    ProtocolVersion {
        /// Version this agent implements.
        expected: u32,
        /// Version the runtime reported.
        got: u32,
    },
    /// The loop exhausted its step budget without finishing.
    StepBudgetExhausted(u32),
    /// The loop hit its consecutive-failure budget.
    FailureBudgetExhausted(u32),
    /// A single step exceeded its deadline.
    StepTimeout {
        /// Loop step that timed out.
        step: u32,
        /// Configured deadline in milliseconds.
        timeout_ms: u64,
    },
    /// The provider returned a decision that cannot be executed.
    InvalidDecision(String),
    /// Local I/O failure (report writing, script files); carries its message.
    Io(String),
    /// JSON (de)serialization failure; carries its message.
    Json(String),
}

/// How the loop reacts to an error.
#[derive(Debug, Clone, Copy, PartialEq, Eq, Structural)]
pub enum ErrorClass {
    /// Transient: retry the same step.
    Retryable,
    /// Recoverable: record the failure, refresh the context, decide again.
    Recoverable,
    /// Fatal: stop the run.
    Fatal,
}

/// The recovery class of an error: runtime `timeout`/`busy`, transport, local
/// I/O and provider transport/timeout failures are retryable; unknown
/// window/app and capture/render failures are recoverable; everything else is
/// fatal.
pub open spec fn error_class(e: Error) -> ErrorClass {
    match e {
        Error::Client(c) => match c.code {
            ErrorCode::Timeout | ErrorCode::Busy => ErrorClass::Retryable,
            ErrorCode::UnknownWindow | ErrorCode::UnknownApp | ErrorCode::CaptureFailed
            | ErrorCode::RenderFailed => ErrorClass::Recoverable,
            _ => ErrorClass::Fatal,
        },
        Error::Transport(_) | Error::Io(_) => ErrorClass::Retryable,
        Error::Provider(p) => match p {
            ProviderError::Transport(_) | ProviderError::Timeout(_) => ErrorClass::Retryable,
            _ => ErrorClass::Fatal,
        },
        _ => ErrorClass::Fatal,
    }
}

/// The stable metrics key of an error.
pub open spec fn error_kind_key(e: Error) -> Seq<char> {
    match e {
        Error::Client(c) => error_code_wire_name(c.code),
        Error::Provider(p) => match p {
            ProviderError::MissingApiKey => "provider_missing_api_key"@,
            ProviderError::Transport(_) => "provider_transport"@,
            ProviderError::Status { .. } => "provider_status"@,
            ProviderError::Timeout(_) => "provider_timeout"@,
            ProviderError::InvalidResponse(_) => "provider_invalid_response"@,
        },
        Error::Transport(_) => "transport"@,
        Error::ProtocolVersion { .. } => "protocol_version_mismatch"@,
        Error::StepBudgetExhausted(_) => "step_budget_exhausted"@,
        Error::FailureBudgetExhausted(_) => "failure_budget_exhausted"@,
        Error::StepTimeout { .. } => "step_timeout"@,
        Error::InvalidDecision(_) => "invalid_decision"@,
        Error::Io(_) => "io"@,
        Error::Json(_) => "json"@,
    }
}

/// The human-readable message of a provider error.
pub open spec fn provider_message(p: ProviderError) -> Seq<char> {
    match p {
        ProviderError::MissingApiKey => "missing API key: pass --api-key or set ADESK_AGENT_API_KEY"@,
        ProviderError::Transport(m) => "provider transport error: "@ + m@,
        ProviderError::Status { status, body } => "provider returned HTTP "@ + decimal(
            status as nat,
        ) + ": "@ + body@,
        ProviderError::Timeout(ms) => "provider timed out after "@ + decimal(ms as nat) + " ms"@,
        ProviderError::InvalidResponse(m) => "invalid provider response: "@ + m@,
    }
}

/// The human-readable message of a runtime error: its code, then its message.
pub open spec fn core_error_message(c: CoreError) -> Seq<char> {
    error_code_wire_name(c.code) + ": "@ + c.message@
}

/// The human-readable message of an agent error.
pub open spec fn error_message(e: Error) -> Seq<char> {
    match e {
        Error::Client(c) => core_error_message(c),
        Error::Provider(p) => provider_message(p),
        Error::Transport(m) => "transport error: "@ + m@,
        Error::ProtocolVersion { expected, got } => "AGP protocol version mismatch: agent expects "@
            + decimal(expected as nat) + ", runtime speaks "@ + decimal(got as nat),
        Error::StepBudgetExhausted(n) => "step budget exhausted after "@ + decimal(n as nat)
            + " steps"@,
        Error::FailureBudgetExhausted(n) => "failure budget exhausted after "@ + decimal(
            n as nat,
        ) + " consecutive failures"@,
        Error::StepTimeout { step, timeout_ms } => "step "@ + decimal(step as nat)
            + " timed out after "@ + decimal(timeout_ms as nat) + " ms"@,
        Error::InvalidDecision(m) => "invalid decision: "@ + m@,
        Error::Io(m) => m@,
        Error::Json(m) => m@,
    }
}

impl ProviderError {
    /// The human-readable message.
    pub fn message(&self) -> (m: String)
        ensures
            m@ == provider_message(*self),
    {
        match self {
            ProviderError::MissingApiKey => String::from_str(
                "missing API key: pass --api-key or set ADESK_AGENT_API_KEY",
            ),
            ProviderError::Transport(m) => {
                let mut s = String::from_str("provider transport error: ");
                s.append(m.as_str());
                s
            },
            ProviderError::Status { status, body } => {
                let mut s = String::from_str("provider returned HTTP ");
                push_decimal(&mut s, *status as u64);
                s.append(": ");
                s.append(body.as_str());
                s
            },
            ProviderError::Timeout(ms) => {
                let mut s = String::from_str("provider timed out after ");
                push_decimal(&mut s, *ms);
                s.append(" ms");
                s
            },
            ProviderError::InvalidResponse(m) => {
                let mut s = String::from_str("invalid provider response: ");
                s.append(m.as_str());
                s
            },
        }
    }
}

impl Error {
    /// Classify this error for the loop's recovery policy.
    pub fn class(&self) -> (c: ErrorClass)
        ensures
            c == error_class(*self),
    {
        match self {
            Error::Client(err) => match err.code {
                ErrorCode::Timeout | ErrorCode::Busy => ErrorClass::Retryable,
                ErrorCode::UnknownWindow | ErrorCode::UnknownApp | ErrorCode::CaptureFailed
                | ErrorCode::RenderFailed => ErrorClass::Recoverable,
                _ => ErrorClass::Fatal,
            },
            Error::Transport(_) | Error::Io(_) => ErrorClass::Retryable,
            Error::Provider(p) => match p {
                ProviderError::Transport(_) | ProviderError::Timeout(_) => ErrorClass::Retryable,
                _ => ErrorClass::Fatal,
            },
            _ => ErrorClass::Fatal,
        }
    }

    /// Stable key used for the per-kind failure counts.
    pub fn kind_key(&self) -> (k: String)
        ensures
            k@ == error_kind_key(*self),
    {
        match self {
            Error::Client(err) => String::from_str(err.code.as_str()),
            Error::Provider(err) => match err {
                ProviderError::MissingApiKey => String::from_str("provider_missing_api_key"),
                ProviderError::Transport(_) => String::from_str("provider_transport"),
                ProviderError::Status { .. } => String::from_str("provider_status"),
                ProviderError::Timeout(_) => String::from_str("provider_timeout"),
                ProviderError::InvalidResponse(_) => String::from_str("provider_invalid_response"),
            },
            Error::Transport(_) => String::from_str("transport"),
            Error::ProtocolVersion { .. } => String::from_str("protocol_version_mismatch"),
            Error::StepBudgetExhausted(_) => String::from_str("step_budget_exhausted"),
            Error::FailureBudgetExhausted(_) => String::from_str("failure_budget_exhausted"),
            Error::StepTimeout { .. } => String::from_str("step_timeout"),
            Error::InvalidDecision(_) => String::from_str("invalid_decision"),
            Error::Io(_) => String::from_str("io"),
            Error::Json(_) => String::from_str("json"),
        }
    }

    /// The human-readable message (what the error displays as).
    pub fn message(&self) -> (m: String)
        ensures
            m@ == error_message(*self),
    {
        match self {
            Error::Client(c) => {
                let mut s = String::from_str(c.code.as_str());
                s.append(": ");
                s.append(c.message.as_str());
                s
            },
            Error::Provider(p) => p.message(),
            Error::Transport(m) => {
                let mut s = String::from_str("transport error: ");
                s.append(m.as_str());
                s
            },
            Error::ProtocolVersion { expected, got } => {
                let mut s = String::from_str("AGP protocol version mismatch: agent expects ");
                push_decimal(&mut s, *expected as u64);
                s.append(", runtime speaks ");
                push_decimal(&mut s, *got as u64);
                s
            },
            Error::StepBudgetExhausted(n) => {
                let mut s = String::from_str("step budget exhausted after ");
                push_decimal(&mut s, *n as u64);
                s.append(" steps");
                s
            },
            Error::FailureBudgetExhausted(n) => {
                let mut s = String::from_str("failure budget exhausted after ");
                push_decimal(&mut s, *n as u64);
                s.append(" consecutive failures");
                s
            },
            Error::StepTimeout { step, timeout_ms } => {
                let mut s = String::from_str("step ");
                push_decimal(&mut s, *step as u64);
                s.append(" timed out after ");
                push_decimal(&mut s, *timeout_ms);
                s.append(" ms");
                s
            },
            Error::InvalidDecision(m) => {
                let mut s = String::from_str("invalid decision: ");
                s.append(m.as_str());
                s
            },
            Error::Io(m) => m.clone(),
            Error::Json(m) => m.clone(),
        }
    }
}

} // verus!
