//! The error taxonomy: every failure of the library is one of these labeled
//! cases, carrying a human-readable message.  No operation panics.

use vstd::prelude::*;
use vstd::string::StringExecFns;

verus! {

/// A labeled failure of one document operation.
#[derive(Debug, PartialEq)]
pub enum Error {
    /// The input carrier is neither text nor binary.
    CarrierType,
    /// The underlying parser signalled input it could not recover from.
    Parse(String),
    /// The CSS selector string could not be compiled.
    Selector(String),
    /// The output-format selector string is not a recognized value.
    InvalidFormat(String),
    /// A command argument is missing or of an unusable kind.
    Argument(String),
    /// An internal node reference did not resolve to a live node.
    NodeLookup,
}

impl Error {
    /// The human-readable message of this failure.
    pub fn message(&self) -> (r: String)
        ensures
            self matches Error::CarrierType ==> r@ == "Input type neither string nor binary"@,
            self matches Error::Parse(m) ==> r@ == m@,
            self matches Error::Selector(m) ==> r@ == m@,
            self matches Error::InvalidFormat(m) ==> r@ == m@,
            self matches Error::Argument(m) ==> r@ == m@,
            self matches Error::NodeLookup ==> r@
                == "Node reference does not resolve to a live node"@,
    {
        match self {
            Error::CarrierType => String::from_str("Input type neither string nor binary"),
            Error::Parse(m) => m.clone(),
            Error::Selector(m) => m.clone(),
            Error::InvalidFormat(m) => m.clone(),
            Error::Argument(m) => m.clone(),
            Error::NodeLookup => String::from_str("Node reference does not resolve to a live node"),
        }
    }
}

} // verus!
