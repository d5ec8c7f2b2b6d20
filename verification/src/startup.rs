//! Application wiring shared with the embedding binary.

use vstd::prelude::*;

verus! {

/// The base URL the application is served under, carried to the handlers
/// that build absolute links (the confirmation link of a new
/// subscription).
pub struct ApplicationBaseUrl(pub String);

impl ApplicationBaseUrl {
    /// The URL text.
    pub fn as_str(&self) -> (r: &str)
        ensures
            r@ == self.0@,
    {
        self.0.as_str()
    }
}

} // verus!
