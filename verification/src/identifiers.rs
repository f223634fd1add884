//! Type-safe identifiers for transit entities. Each wraps the entity's
//! textual id; two identifiers are equal exactly when their text is.

use vstd::prelude::*;

verus! {

/// Identifies a transit station.
#[derive(Debug, Hash)]
pub struct StationIdentifier(String);

impl View for StationIdentifier {
    type V = Seq<char>;

    closed spec fn view(&self) -> Seq<char> {
        self.0@
    }
}

impl StationIdentifier {
    pub fn new(s: &str) -> (r: StationIdentifier)
        ensures
            r@ == s@,
    {
        StationIdentifier(s.to_owned())
    }

    /// The identifier's text.
    pub fn as_str(&self) -> (r: &str)
        ensures
            r@ == self@,
    {
        self.0.as_str()
    }
}

impl Clone for StationIdentifier {
    fn clone(&self) -> (r: StationIdentifier)
        ensures
            r@ == self@,
    {
        StationIdentifier(self.0.clone())
    }
}

impl PartialEq for StationIdentifier {
    fn eq(&self, other: &StationIdentifier) -> (r: bool) {
        self.0 == other.0
    }
}

impl Eq for StationIdentifier {

}

impl vstd::std_specs::cmp::PartialEqSpecImpl for StationIdentifier {
    open spec fn obeys_eq_spec() -> bool {
        true
    }

    open spec fn eq_spec(&self, other: &StationIdentifier) -> bool {
        self@ == other@
    }
}

impl From<String> for StationIdentifier {
    fn from(s: String) -> (r: StationIdentifier) {
        StationIdentifier(s)
    }
}

impl vstd::std_specs::convert::FromSpecImpl<String> for StationIdentifier {
    open spec fn obeys_from_spec() -> bool {
        true
    }

    closed spec fn from_spec(s: String) -> StationIdentifier {
        StationIdentifier(s)
    }
}

impl<'a> From<&'a str> for StationIdentifier {
    fn from(s: &'a str) -> (r: StationIdentifier) {
        StationIdentifier::new(s)
    }
}

impl<'a> vstd::std_specs::convert::FromSpecImpl<&'a str> for StationIdentifier {
    open spec fn obeys_from_spec() -> bool {
        false
    }

    closed spec fn from_spec(s: &'a str) -> StationIdentifier {
        arbitrary()
    }
}

/// Identifies a transit route.
#[derive(Debug, Hash)]
pub struct RouteIdentifier(String);

impl View for RouteIdentifier {
    type V = Seq<char>;

    closed spec fn view(&self) -> Seq<char> {
        self.0@
    }
}

impl RouteIdentifier {
    pub fn new(s: &str) -> (r: RouteIdentifier)
        ensures
            r@ == s@,
    {
        RouteIdentifier(s.to_owned())
    }

    /// The identifier's text.
    pub fn as_str(&self) -> (r: &str)
        ensures
            r@ == self@,
    {
        self.0.as_str()
    }
}

impl Clone for RouteIdentifier {
    fn clone(&self) -> (r: RouteIdentifier)
        ensures
            r@ == self@,
    {
        RouteIdentifier(self.0.clone())
    }
}

impl PartialEq for RouteIdentifier {
    fn eq(&self, other: &RouteIdentifier) -> (r: bool) {
        self.0 == other.0
    }
}

impl Eq for RouteIdentifier {

}

impl vstd::std_specs::cmp::PartialEqSpecImpl for RouteIdentifier {
    open spec fn obeys_eq_spec() -> bool {
        true
    }

    open spec fn eq_spec(&self, other: &RouteIdentifier) -> bool {
        self@ == other@
    }
}

impl From<String> for RouteIdentifier {
    fn from(s: String) -> (r: RouteIdentifier) {
        RouteIdentifier(s)
    }
}

impl vstd::std_specs::convert::FromSpecImpl<String> for RouteIdentifier {
    open spec fn obeys_from_spec() -> bool {
        true
    }

    closed spec fn from_spec(s: String) -> RouteIdentifier {
        RouteIdentifier(s)
    }
}

impl<'a> From<&'a str> for RouteIdentifier {
    fn from(s: &'a str) -> (r: RouteIdentifier) {
        RouteIdentifier::new(s)
    }
}

impl<'a> vstd::std_specs::convert::FromSpecImpl<&'a str> for RouteIdentifier {
    open spec fn obeys_from_spec() -> bool {
        false
    }

    closed spec fn from_spec(s: &'a str) -> RouteIdentifier {
        arbitrary()
    }
}

/// Identifies a transit trip.
#[derive(Debug, Hash)]
pub struct TripIdentifier(String);

impl View for TripIdentifier {
    type V = Seq<char>;

    closed spec fn view(&self) -> Seq<char> {
        self.0@
    }
}

impl TripIdentifier {
    pub fn new(s: &str) -> (r: TripIdentifier)
        ensures
            r@ == s@,
    {
        TripIdentifier(s.to_owned())
    }

    /// The identifier's text.
    pub fn as_str(&self) -> (r: &str)
        ensures
            r@ == self@,
    {
        self.0.as_str()
    }
}

impl Clone for TripIdentifier {
    fn clone(&self) -> (r: TripIdentifier)
        ensures
            r@ == self@,
    {
        TripIdentifier(self.0.clone())
    }
}

impl PartialEq for TripIdentifier {
    fn eq(&self, other: &TripIdentifier) -> (r: bool) {
        self.0 == other.0
    }
}

impl Eq for TripIdentifier {

}

impl vstd::std_specs::cmp::PartialEqSpecImpl for TripIdentifier {
    open spec fn obeys_eq_spec() -> bool {
        true
    }

    open spec fn eq_spec(&self, other: &TripIdentifier) -> bool {
        self@ == other@
    }
}

impl From<String> for TripIdentifier {
    fn from(s: String) -> (r: TripIdentifier) {
        TripIdentifier(s)
    }
}

impl vstd::std_specs::convert::FromSpecImpl<String> for TripIdentifier {
    open spec fn obeys_from_spec() -> bool {
        true
    }

    closed spec fn from_spec(s: String) -> TripIdentifier {
        TripIdentifier(s)
    }
}

impl<'a> From<&'a str> for TripIdentifier {
    fn from(s: &'a str) -> (r: TripIdentifier) {
        TripIdentifier::new(s)
    }
}

impl<'a> vstd::std_specs::convert::FromSpecImpl<&'a str> for TripIdentifier {
    open spec fn obeys_from_spec() -> bool {
        false
    }

    closed spec fn from_spec(s: &'a str) -> TripIdentifier {
        arbitrary()
    }
}

/// Identifies a complex of connected stations.
#[derive(Debug, Hash)]
pub struct ComplexIdentifier(String);

impl View for ComplexIdentifier {
    type V = Seq<char>;

    closed spec fn view(&self) -> Seq<char> {
        self.0@
    }
}

impl ComplexIdentifier {
    pub fn new(s: &str) -> (r: ComplexIdentifier)
        ensures
            r@ == s@,
    {
        ComplexIdentifier(s.to_owned())
    }

    /// The identifier's text.
    pub fn as_str(&self) -> (r: &str)
        ensures
            r@ == self@,
    {
        self.0.as_str()
    }
}

impl Clone for ComplexIdentifier {
    fn clone(&self) -> (r: ComplexIdentifier)
        ensures
            r@ == self@,
    {
        ComplexIdentifier(self.0.clone())
    }
}

impl PartialEq for ComplexIdentifier {
    fn eq(&self, other: &ComplexIdentifier) -> (r: bool) {
        self.0 == other.0
    }
}

impl Eq for ComplexIdentifier {

}

impl vstd::std_specs::cmp::PartialEqSpecImpl for ComplexIdentifier {
    open spec fn obeys_eq_spec() -> bool {
        true
    }

    open spec fn eq_spec(&self, other: &ComplexIdentifier) -> bool {
        self@ == other@
    }
}

impl From<String> for ComplexIdentifier {
    fn from(s: String) -> (r: ComplexIdentifier) {
        ComplexIdentifier(s)
    }
}

impl vstd::std_specs::convert::FromSpecImpl<String> for ComplexIdentifier {
    open spec fn obeys_from_spec() -> bool {
        true
    }

    closed spec fn from_spec(s: String) -> ComplexIdentifier {
        ComplexIdentifier(s)
    }
}

impl<'a> From<&'a str> for ComplexIdentifier {
    fn from(s: &'a str) -> (r: ComplexIdentifier) {
        ComplexIdentifier::new(s)
    }
}

impl<'a> vstd::std_specs::convert::FromSpecImpl<&'a str> for ComplexIdentifier {
    open spec fn obeys_from_spec() -> bool {
        false
    }

    closed spec fn from_spec(s: &'a str) -> ComplexIdentifier {
        arbitrary()
    }
}

/// Identifies a service calendar entry.
#[derive(Debug, Hash)]
pub struct ServiceIdentifier(String);

impl View for ServiceIdentifier {
    type V = Seq<char>;

    closed spec fn view(&self) -> Seq<char> {
        self.0@
    }
}

impl ServiceIdentifier {
    pub fn new(s: &str) -> (r: ServiceIdentifier)
        ensures
            r@ == s@,
    {
        ServiceIdentifier(s.to_owned())
    }

    /// The identifier's text.
    pub fn as_str(&self) -> (r: &str)
        ensures
            r@ == self@,
    {
        self.0.as_str()
    }
}

impl Clone for ServiceIdentifier {
    fn clone(&self) -> (r: ServiceIdentifier)
        ensures
            r@ == self@,
    {
        ServiceIdentifier(self.0.clone())
    }
}

impl PartialEq for ServiceIdentifier {
    fn eq(&self, other: &ServiceIdentifier) -> (r: bool) {
        self.0 == other.0
    }
}

impl Eq for ServiceIdentifier {

}

impl vstd::std_specs::cmp::PartialEqSpecImpl for ServiceIdentifier {
    open spec fn obeys_eq_spec() -> bool {
        true
    }

    open spec fn eq_spec(&self, other: &ServiceIdentifier) -> bool {
        self@ == other@
    }
}

impl From<String> for ServiceIdentifier {
    fn from(s: String) -> (r: ServiceIdentifier) {
        ServiceIdentifier(s)
    }
}

impl vstd::std_specs::convert::FromSpecImpl<String> for ServiceIdentifier {
    open spec fn obeys_from_spec() -> bool {
        true
    }

    closed spec fn from_spec(s: String) -> ServiceIdentifier {
        ServiceIdentifier(s)
    }
}

impl<'a> From<&'a str> for ServiceIdentifier {
    fn from(s: &'a str) -> (r: ServiceIdentifier) {
        ServiceIdentifier::new(s)
    }
}

impl<'a> vstd::std_specs::convert::FromSpecImpl<&'a str> for ServiceIdentifier {
    open spec fn obeys_from_spec() -> bool {
        false
    }

    closed spec fn from_spec(s: &'a str) -> ServiceIdentifier {
        arbitrary()
    }
}

} // verus!
