//! Extensions specific to the HTTP/2 protocol.
use vstd::prelude::*;

verus! {

/// Represents the `:protocol` pseudo-header used by
/// the [Extended CONNECT Protocol].
///
/// [Extended CONNECT Protocol]: https://datatracker.ietf.org/doc/html/rfc8441#section-4
#[derive(Debug)]
pub struct Protocol {
    pub value: String,
}

impl View for Protocol {
    type V = Seq<char>;

    open spec fn view(&self) -> Seq<char> {
        self.value@
    }
}

impl Protocol {
    /// Converts a static string to a protocol name.
    pub fn from_static(value: &'static str) -> (r: Protocol)
        ensures
            r@ == value@,
    {
        Protocol { value: value.to_owned() }
    }

    /// A protocol with this name.
    pub fn new(value: String) -> (r: Protocol)
        ensures
            r@ == value@,
    {
        Protocol { value }
    }

    /// Returns a str representation of the header.
    pub fn as_str(&self) -> (r: &str)
        ensures
            r@ == self@,
    {
        self.value.as_str()
    }

    /// The name of the protocol.
    pub fn into_string(self) -> (r: String)
        ensures
            r@ == self@,
    {
        self.value
    }
}

impl Clone for Protocol {
    fn clone(&self) -> (r: Protocol)
        ensures
            r@ == self@,
    {
        Protocol { value: self.value.clone() }
    }
}

} // verus!
