//! The failures a route reports.

use vstd::prelude::*;

verus! {

#[derive(Debug, Clone, Copy, PartialEq, Eq, Structural)]
pub enum RouteError {
    /// A segment of the template uses the parameter syntax wrongly: a brace
    /// that does not enclose a whole segment, `{}`, or a lone `:`.
    MalformedParameter,
    /// The regular expression built from the template was refused.
    InvalidPattern,
    /// Dispatch reached a connection-upgrade route, which is not supported.
    UnsupportedUpgrade,
}

} // verus!
