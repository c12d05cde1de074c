//! The failure taxonomy of the client engine.

use vstd::prelude::*;

verus! {

/// Every way one logical request can fail.
///
/// Transport-layer failures (`ConnectError`, `IoError`) are passed
/// through from the transport collaborator, never wrapped into the
/// protocol error kinds.
#[derive(Clone, Copy, Debug, PartialEq, Eq, Structural)]
pub enum HttpError {
    /// A header line with no `:` anywhere in it.
    MalformedHeader,
    /// A status line that is not `HTTP/1.1` followed by a three-digit
    /// code in `[100, 599]`.
    MalformedStatusLine,
    /// A request was serialized a second time without a reset.
    AlreadySent,
    /// The redirect limit was hit without reaching a non-redirect status.
    RedirectLoopExceeded,
    /// The cumulative wall-clock budget of the logical call ran out.
    Timeout,
    /// The transport could not open a connection.
    ConnectError,
    /// The transport failed while reading or writing.
    IoError,
}

} // verus!
