//! What can go wrong in the library's operations.
use vstd::prelude::*;

verus! {

/// The library's errors.
#[derive(Clone, Debug, PartialEq, Eq)]
pub enum Error {
    /// A feed locator whose scheme is neither http(s) nor file; holds the scheme.
    UnknownScheme(String),
    /// A text that does not parse as an absolute URL; holds the text.
    InvalidUrl(String),
    /// A configuration key that is not known; holds the key.
    UnknownKey(String),
    /// A configuration key that cannot be assigned directly; holds the key.
    ReadOnlyKey(String),
    /// Arguments that do not go together; holds what is wrong.
    InvalidArgument(String),
    /// No subscription has the id or name given; holds it.
    MissingFeed(String),
    /// The data directory was set up before and no overwrite was asked for.
    PreviouslySetup,
}

} // verus!
