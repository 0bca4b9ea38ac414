//! The AT-SPI backends' own answers: the connected `atspi` backend, and the
//! `off` backend that never touches the bus.
//!
//! Reading a tree over D-Bus is the outside work of the connected backend; what
//! it decides stands in [`crate::correlate`] and [`crate::walk`].

use vstd::prelude::*;

use crate::a11y_error::{a11y_core_code, A11yError};
use crate::dbus::is_connection_unique_name;
use crate::model::ErrorCode;
use crate::source::{ElementHandle, InvokeOutcome, SourceOptions, SourceSnapshot, WindowTarget};

verus! {

/// The name the `atspi` backend family reports, whether or not the bus was
/// reachable: a diagnostic that says "atspi" does not depend on that.
pub const BACKEND_NAME: &'static str = "atspi";

/// The connection to the accessibility bus, carried opaquely.
#[verifier::external_type_specification]
#[verifier::external_body]
pub struct ExAccessibilityConnection(atspi::connection::AccessibilityConnection);

/// `zbus::Connection::unique_name` of the connection the accessibility bus
/// gave: the name the daemon assigned it, as text.
///
/// An `AccessibilityConnection` is only ever built by `from_address`, which
/// builds a bus (not peer-to-peer) connection; zbus sends `Hello` during that
/// build and stores the reply as the connection's unique name, so the name is
/// always there. The reply is deserialized into `OwnedUniqueName`, whose
/// deserializer runs the unique-name validation (`:` and two or more elements
/// of ASCII letters, digits, `_` and `-` joined by `.`, or exactly
/// `org.freedesktop.DBus`; at most 255 bytes). Which name the daemon assigned
/// is its own choice and is not claimed.
#[verifier::external_body]
fn connection_unique_name(
    connection: &atspi::connection::AccessibilityConnection,
) -> (r: Option<String>)
    ensures
        r is Some,
        is_connection_unique_name(r.unwrap()@),
{
    connection.connection().unique_name().map(|name| name.as_str().to_owned())
}

/// The `atspi` backend, already connected to the accessibility bus.
pub struct AtspiSource {
    /// The connection every read runs over.
    connection: atspi::connection::AccessibilityConnection,
}

impl AtspiSource {
    /// The connection the backend reads over, as a value.
    pub closed spec fn bus(&self) -> atspi::connection::AccessibilityConnection {
        self.connection
    }

    /// The backend over an established connection.
    pub fn from_connection(connection: atspi::connection::AccessibilityConnection) -> (s:
        AtspiSource)
        ensures
            s.bus() == connection,
    {
        AtspiSource { connection }
    }

    /// The connection the backend reads over.
    pub fn connection(&self) -> (c: &atspi::connection::AccessibilityConnection)
        ensures
            *c == self.bus(),
    {
        &self.connection
    }

    /// The connected bus name, for diagnostics: the unique name the daemon
    /// assigned this connection (`":1.42"`). A connection to the accessibility
    /// bus always has one.
    pub fn bus_name(&self) -> (r: Option<String>)
        ensures
            r matches Some(n) && is_connection_unique_name(n@),
    {
        connection_unique_name(&self.connection)
    }

    /// The backend's name.
    pub fn name(&self) -> (n: &'static str)
        ensures
            n@ == BACKEND_NAME@,
    {
        BACKEND_NAME
    }

    /// A connected backend is usable by definition.
    pub fn is_available(&self) -> (b: bool)
        ensures
            b,
    {
        true
    }
}

/// The error the lazily connecting backend answers with when the environment
/// has no accessibility bus.
pub fn lazy_unavailable() -> (e: A11yError)
    ensures
        e matches A11yError::Unavailable(m) && m@ == "the "@ + BACKEND_NAME@
            + " backend has no accessibility bus"@,
{
    let mut m = String::new();
    m.append("the ");
    m.append(BACKEND_NAME);
    m.append(" backend has no accessibility bus");
    A11yError::Unavailable(m)
}

/// The `off` backend: accessibility the environment cannot or must not have.
///
/// It answers at once and touches nothing: every read and every action is
/// [`A11yError::Unavailable`] with the reason it was built with.
pub struct UnavailableSource {
    /// Why the backend is unavailable, carried into every error.
    reason: String,
}

impl UnavailableSource {
    /// A backend that always reports [`A11yError::Unavailable`] with `reason`.
    pub fn new(reason: &str) -> (s: UnavailableSource)
        ensures
            s.reason() == reason@,
    {
        UnavailableSource { reason: reason.to_string() }
    }

    /// The reason every answer carries.
    pub closed spec fn reason(&self) -> Seq<char> {
        self.reason@
    }

    /// The backend's name: `off`, the word the runtime spells this mode with,
    /// deliberately not `atspi`.
    pub fn name(&self) -> (n: &'static str)
        ensures
            n@ == "off"@,
    {
        "off"
    }

    /// The `off` backend is never available.
    pub fn is_available(&self) -> (b: bool)
        ensures
            !b,
    {
        false
    }

    /// No tree: the reason, verbatim.
    pub fn snapshot(&self, target: &WindowTarget, opts: SourceOptions) -> (r: Result<
        SourceSnapshot,
        A11yError,
    >)
        ensures
            r matches Err(A11yError::Unavailable(m)) && m@ == self.reason(),
    {
        Err(A11yError::Unavailable(self.reason.clone()))
    }

    /// No action: the reason, verbatim.
    pub fn invoke(&self, handle: &ElementHandle, action: Option<&str>) -> (r: Result<
        InvokeOutcome,
        A11yError,
    >)
        ensures
            r matches Err(A11yError::Unavailable(m)) && m@ == self.reason(),
    {
        Err(A11yError::Unavailable(self.reason.clone()))
    }
}

/// With no backend, every accessibility request is answered `not_supported`:
/// the `off` backend and the lazily connecting one without a bus both answer
/// [`A11yError::Unavailable`], whatever its reason, and that is reported as
/// `not_supported`.
pub proof fn lemma_unavailable_is_not_supported(reason: String)
    ensures
        a11y_core_code(A11yError::Unavailable(reason)) == ErrorCode::NotSupported,
{
}

} // verus!
