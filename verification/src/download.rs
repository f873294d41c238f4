//! The plain-value decisions of the HTTP download commands.
//!
//! The transfer itself is network I/O and belongs to the shell; the
//! library settles the request timeout and reads the response status.

use vstd::prelude::*;

verus! {

/// The request timeout used when the frontend gives none, in
/// milliseconds.
pub const DEFAULT_TIMEOUT_MS: u64 = 30000;

/// The timeout for a download request: the frontend's value, or the
/// default when it gave none.
pub fn effective_timeout_ms(timeout_ms: Option<u64>) -> (r: u64)
    ensures
        r == (match timeout_ms {
            Some(t) => t,
            None => DEFAULT_TIMEOUT_MS,
        }),
{
    match timeout_ms {
        Some(t) => t,
        None => DEFAULT_TIMEOUT_MS,
    }
}

/// Whether an HTTP status code reports success: the `2xx` range.
pub fn is_success_status(code: u16) -> (r: bool)
    ensures
        r == (200 <= code < 300),
{
    200 <= code && code < 300
}

} // verus!
