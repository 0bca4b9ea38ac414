//! The D-Bus side of the AT-SPI backend: the `"{bus name}|{object path}"`
//! address an element handle is spelled with, and the classification of a D-Bus
//! failure into a legitimate absence or a real backend error.
//!
//! A backend that took every failed call for "the element has no value" would
//! silently turn a broken bus into an empty window; one that took every failure
//! as fatal would make a toolkit that dropped an optional interface look like an
//! outage. Only the error names that really mean "absent" or "gone" are
//! classified as such; everything else is a backend error.

use vstd::prelude::*;

use crate::a11y_error::A11yError;
use crate::chars::{chars_of, is_ascii_alnum, str_equals, string_of_range};

verus! {

/// A character a bus-name element may hold: an ASCII letter or digit, `_` or `-`.
pub open spec fn is_bus_name_char(c: char) -> bool {
    is_ascii_alnum(c) || c == '_' || c == '-'
}

/// Whether `c` is an ASCII digit.
pub open spec fn is_ascii_digit(c: char) -> bool {
    '0' <= c && c <= '9'
}

/// `s` is two or more non-empty elements of bus-name characters joined by `.`.
pub open spec fn dotted_elements(s: Seq<char>) -> bool {
    &&& s.len() > 0
    &&& forall|i: int| 0 <= i < s.len() ==> is_bus_name_char(#[trigger] s[i]) || s[i] == '.'
    &&& s[0] != '.'
    &&& s.last() != '.'
    &&& forall|i: int| #![trigger s[i]] 0 <= i < s.len() - 1 ==> !(s[i] == '.' && s[i + 1] == '.')
    &&& exists|i: int| 0 <= i < s.len() && #[trigger] s[i] == '.'
}

/// A unique bus name, the kind the daemon assigns a connection (`:1.42`): `:`
/// followed by dotted elements.
pub open spec fn is_unique_bus_name(s: Seq<char>) -> bool {
    s.len() > 0 && s[0] == ':' && dotted_elements(s.skip(1))
}

/// What a bus connection's unique name can be: `:` followed by dotted
/// elements, or the daemon's own name `org.freedesktop.DBus`; at most 255
/// characters either way.
pub open spec fn is_connection_unique_name(s: Seq<char>) -> bool {
    s.len() <= 255 && (is_unique_bus_name(s) || s == "org.freedesktop.DBus"@)
}

/// A well-known bus name (`org.a11y.Bus`): dotted elements none of which
/// starts with a digit.
pub open spec fn is_well_known_bus_name(s: Seq<char>) -> bool {
    &&& dotted_elements(s)
    &&& forall|i: int|
        #![trigger s[i]]
        0 <= i < s.len() && (i == 0 || s[i - 1] == '.') ==> !is_ascii_digit(s[i])
}

/// A D-Bus bus name of either kind, at most 255 characters long.
pub open spec fn bus_name_valid(s: Seq<char>) -> bool {
    s.len() <= 255 && (is_unique_bus_name(s) || is_well_known_bus_name(s))
}

/// A D-Bus object path: `/` alone, or `/`-prefixed non-empty elements of ASCII
/// letters, digits and `_`.
pub open spec fn object_path_valid(s: Seq<char>) -> bool {
    &&& s.len() > 0
    &&& s[0] == '/'
    &&& forall|i: int|
        0 <= i < s.len() ==> is_ascii_alnum(#[trigger] s[i]) || s[i] == '_' || s[i] == '/'
    &&& forall|i: int| #![trigger s[i]] 0 <= i < s.len() - 1 ==> !(s[i] == '/' && s[i + 1] == '/')
    &&& (s.len() == 1 || s.last() != '/')
}

/// `zbus_names::BusName::try_from(String)` accepts exactly the strings its
/// validation rules describe: a unique name (`:` then two or more `.`-separated
/// non-empty elements of ASCII letters, digits, `_` and `-`) or a well-known name
/// (two or more such elements, none starting with a digit), of at most 255 bytes.
#[verifier::external_body]
fn accepts_bus_name(s: &str) -> (ok: bool)
    ensures
        ok == bus_name_valid(s@),
{
    atspi::zbus::names::BusName::try_from(s.to_owned()).is_ok()
}

/// `zvariant::ObjectPath::try_from(&str)` accepts exactly the strings its
/// validation rules describe: a leading `/`, only ASCII letters, digits, `_` and
/// `/`, no `//`, and no trailing `/` unless the path is `/` itself.
#[verifier::external_body]
fn accepts_object_path(s: &str) -> (ok: bool)
    ensures
        ok == object_path_valid(s@),
{
    atspi::zbus::zvariant::ObjectPath::try_from(s).is_ok()
}

/// The bus name and object path that address one accessible element.
///
/// This is all an element handle hides: the toolkit's own addressing, spelled
/// `"{name}|{path}"`. Neither a bus name nor an object path may contain `|`, so
/// the spelling is unambiguous.
#[derive(Debug, Clone, PartialEq, Eq)]
pub struct ElementAddress {
    /// Unique bus name of the application the element belongs to.
    pub name: String,
    /// Object path of the element in that application.
    pub path: String,
}

/// The handle spelling of a name and a path.
pub open spec fn spelling(name: Seq<char>, path: Seq<char>) -> Seq<char> {
    name + seq!['|'] + path
}

/// The index of the first `|` in `h` at or after `i`, if any.
pub open spec fn first_bar_from(h: Seq<char>, i: int) -> Option<int>
    decreases h.len() - i,
{
    if i < 0 || i >= h.len() {
        None
    } else if h[i] == '|' {
        Some(i)
    } else {
        first_bar_from(h, i + 1)
    }
}

/// What a handle parses to: the text before its first `|` as the bus name and
/// the text after it as the object path, when both are well formed.
pub open spec fn parsed_address(h: Seq<char>) -> Option<(Seq<char>, Seq<char>)> {
    match first_bar_from(h, 0) {
        Some(i) => {
            let name = h.take(i);
            let path = h.skip(i + 1);
            if bus_name_valid(name) && object_path_valid(path) {
                Some((name, path))
            } else {
                None
            }
        },
        None => None,
    }
}

proof fn lemma_first_bar(h: Seq<char>, i: int)
    requires
        0 <= i <= h.len(),
    ensures
        match first_bar_from(h, i) {
            Some(k) => i <= k < h.len() && h[k] == '|' && forall|j: int|
                i <= j < k ==> h[j] != '|',
            None => forall|j: int| i <= j < h.len() ==> h[j] != '|',
        },
    decreases h.len() - i,
{
    if i < h.len() && h[i] != '|' {
        lemma_first_bar(h, i + 1);
    }
}

proof fn lemma_first_bar_at(h: Seq<char>, i: int, k: int)
    requires
        0 <= i <= k < h.len(),
        h[k] == '|',
        forall|j: int| i <= j < k ==> h[j] != '|',
    ensures
        first_bar_from(h, i) == Some(k),
    decreases k - i,
{
    if i < k {
        lemma_first_bar_at(h, i + 1, k);
    }
}

/// A bus name never holds `|`.
pub proof fn lemma_bus_name_has_no_bar(name: Seq<char>)
    requires
        bus_name_valid(name),
    ensures
        forall|j: int| 0 <= j < name.len() ==> name[j] != '|',
{
    assert forall|j: int| 0 <= j < name.len() implies name[j] != '|' by {
        if is_unique_bus_name(name) {
            if j > 0 {
                assert(name.skip(1)[j - 1] == name[j]);
            }
        }
    }
}

/// Spelling a well-formed address and parsing the spelling gives the address
/// back.
pub proof fn lemma_parse_spelling(name: Seq<char>, path: Seq<char>)
    requires
        bus_name_valid(name),
        object_path_valid(path),
    ensures
        parsed_address(spelling(name, path)) == Some((name, path)),
{
    let h = spelling(name, path);
    lemma_bus_name_has_no_bar(name);
    assert forall|j: int| 0 <= j < name.len() implies h[j] != '|' by {
        assert(h[j] == name[j]);
    }
    assert(h[name.len() as int] == '|');
    lemma_first_bar_at(h, 0, name.len() as int);
    assert(h.take(name.len() as int) =~= name);
    assert(h.skip(name.len() as int + 1) =~= path);
}

/// A handle that parses is the spelling of the well-formed address it parses
/// to.
pub proof fn lemma_spelling_of_parsed(h: Seq<char>)
    requires
        parsed_address(h) is Some,
    ensures
        spelling(parsed_address(h).unwrap().0, parsed_address(h).unwrap().1) == h,
        bus_name_valid(parsed_address(h).unwrap().0),
        object_path_valid(parsed_address(h).unwrap().1),
{
    lemma_first_bar(h, 0);
    let i = first_bar_from(h, 0)->0;
    assert(h.take(i) + seq!['|'] + h.skip(i + 1) =~= h);
}

impl ElementAddress {
    /// Parse the `"{name}|{path}"` spelling a handle carries.
    ///
    /// `None` for anything that is not one of ours: a handle without a
    /// separator, a malformed bus name, or a malformed object path.
    pub fn parse(handle: &str) -> (r: Option<ElementAddress>)
        ensures
            match r {
                Some(a) => parsed_address(handle@) == Some((a.name@, a.path@)),
                None => parsed_address(handle@) is None,
            },
    {
        let cs = chars_of(handle);
        let mut i: usize = 0;
        while i < cs.len() && cs[i] != '|'
            invariant
                cs@ == handle@,
                i <= cs.len(),
                first_bar_from(handle@, i as int) == first_bar_from(handle@, 0),
            decreases cs.len() - i,
        {
            i += 1;
        }
        if i == cs.len() {
            return None;
        }
        let name = string_of_range(&cs, 0, i);
        let path = string_of_range(&cs, i + 1, cs.len());
        proof {
            assert(name@ =~= handle@.take(i as int));
            assert(path@ =~= handle@.skip(i + 1));
        }
        if accepts_bus_name(name.as_str()) && accepts_object_path(path.as_str()) {
            Some(ElementAddress { name, path })
        } else {
            None
        }
    }

    /// The handle spelling of this address.
    pub fn handle(&self) -> (s: String)
        ensures
            s@ == spelling(self.name@, self.path@),
    {
        let mut s = String::new();
        s.append(self.name.as_str());
        s.push('|');
        s.append(self.path.as_str());
        s
    }
}

/// What the classification reads of a failed D-Bus call.
#[derive(Debug, Clone, PartialEq, Eq)]
pub enum BusFailure {
    /// The proxy found no such interface on the element.
    InterfaceNotFound,
    /// The peer answered with a D-Bus error of this name.
    MethodError(String),
    /// Any other failure: transport, serialization, a client-side error.
    Other,
}

/// What the classification reads of a failure the bus daemon answered with.
#[derive(Debug, Clone, PartialEq, Eq)]
pub enum DaemonFailure {
    /// A failure of the underlying connection or peer.
    Bus(BusFailure),
    /// The daemon knows no such service.
    ServiceUnknown(String),
    /// The name has no owner any more.
    NameHasNoOwner(String),
    /// The daemon refused the call.
    AccessDenied(String),
    /// The daemon hit one of its limits.
    LimitsExceeded(String),
    /// Any other daemon error.
    Other(String),
}

/// The error names that mean "no such interface / method / property".
pub open spec fn is_absent_interface_name(name: Seq<char>) -> bool {
    ||| name == "org.freedesktop.DBus.Error.UnknownInterface"@
    ||| name == "org.freedesktop.DBus.Error.UnknownMethod"@
    ||| name == "org.freedesktop.DBus.Error.UnknownProperty"@
    ||| name == "org.freedesktop.DBus.Error.NotSupported"@
}

/// The error names that mean "that element is not there any more".
pub open spec fn is_missing_element_name(name: Seq<char>) -> bool {
    ||| name == "org.freedesktop.DBus.Error.ServiceUnknown"@
    ||| name == "org.freedesktop.DBus.Error.NameHasNoOwner"@
    ||| name == "org.freedesktop.DBus.Error.UnknownObject"@
    ||| name == "org.freedesktop.DBus.Error.NoReply"@
    ||| name == "org.freedesktop.DBus.Error.Disconnected"@
}

/// The D-Bus error name a failure carried, when it was a remote error.
pub open spec fn failure_name(f: BusFailure) -> Option<Seq<char>> {
    match f {
        BusFailure::MethodError(name) => Some(name@),
        _ => None,
    }
}

/// A failure that says the element has no such interface, method or property.
pub open spec fn is_absent_interface_failure(f: BusFailure) -> bool {
    match f {
        BusFailure::InterfaceNotFound => true,
        _ => match failure_name(f) {
            Some(name) => is_absent_interface_name(name),
            None => false,
        },
    }
}

/// A failure that says the element is gone.
pub open spec fn is_missing_element_failure(f: BusFailure) -> bool {
    match failure_name(f) {
        Some(name) => is_missing_element_name(name),
        None => false,
    }
}

/// A daemon failure that says the bus name has no owner any more.
pub open spec fn is_missing_name_failure(f: DaemonFailure) -> bool {
    match f {
        DaemonFailure::Bus(inner) => is_missing_element_failure(inner),
        DaemonFailure::ServiceUnknown(_) | DaemonFailure::NameHasNoOwner(_) => true,
        _ => false,
    }
}

/// Whether `name` is one of the error names that mean "no such interface /
/// method / property".
pub fn absent_interface_error(name: &str) -> (r: bool)
    ensures
        r == is_absent_interface_name(name@),
{
    str_equals(name, "org.freedesktop.DBus.Error.UnknownInterface") || str_equals(
        name,
        "org.freedesktop.DBus.Error.UnknownMethod",
    ) || str_equals(name, "org.freedesktop.DBus.Error.UnknownProperty") || str_equals(
        name,
        "org.freedesktop.DBus.Error.NotSupported",
    )
}

/// Whether `name` is one of the error names that mean "that element is not
/// there any more".
pub fn missing_element_error(name: &str) -> (r: bool)
    ensures
        r == is_missing_element_name(name@),
{
    str_equals(name, "org.freedesktop.DBus.Error.ServiceUnknown") || str_equals(
        name,
        "org.freedesktop.DBus.Error.NameHasNoOwner",
    ) || str_equals(name, "org.freedesktop.DBus.Error.UnknownObject") || str_equals(
        name,
        "org.freedesktop.DBus.Error.NoReply",
    ) || str_equals(name, "org.freedesktop.DBus.Error.Disconnected")
}

/// The error name a failure carried, when it was a remote error rather than a
/// transport or client-side one.
pub fn error_name(failure: &BusFailure) -> (r: Option<&str>)
    ensures
        match r {
            Some(name) => failure_name(*failure) == Some(name@),
            None => failure_name(*failure) is None,
        },
{
    match failure {
        BusFailure::MethodError(name) => Some(name.as_str()),
        _ => None,
    }
}

/// Whether a failure says the element has no such interface, method or
/// property: a legitimate absence on an element that otherwise exists.
pub fn is_absent_interface(failure: &BusFailure) -> (r: bool)
    ensures
        r == is_absent_interface_failure(*failure),
{
    match failure {
        BusFailure::InterfaceNotFound => true,
        _ => match error_name(failure) {
            Some(name) => absent_interface_error(name),
            None => false,
        },
    }
}

/// Whether a failure says the element is gone: its application left the bus,
/// or the object path no longer exists.
pub fn is_missing_element(failure: &BusFailure) -> (r: bool)
    ensures
        r == is_missing_element_failure(*failure),
{
    match error_name(failure) {
        Some(name) => missing_element_error(name),
        None => false,
    }
}

/// Whether a daemon failure says the bus name has no owner any more.
pub fn is_missing_name(failure: &DaemonFailure) -> (r: bool)
    ensures
        r == is_missing_name_failure(*failure),
{
    match failure {
        DaemonFailure::Bus(inner) => is_missing_element(inner),
        DaemonFailure::ServiceUnknown(_) => true,
        DaemonFailure::NameHasNoOwner(_) => true,
        _ => false,
    }
}

/// A D-Bus failure as the backend error, naming the call it came from.
pub fn backend_error(what: &str, error: &str) -> (e: A11yError)
    ensures
        e matches A11yError::Backend(m) && m@ == what@ + ": "@ + error@,
{
    let mut m = String::new();
    m.append(what);
    m.append(": ");
    m.append(error);
    A11yError::Backend(m)
}

} // verus!
