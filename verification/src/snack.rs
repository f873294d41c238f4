//! The notification-relay payload types.
//!
//! The backend forwards informational messages to the frontend unchanged;
//! the relay itself is event I/O and belongs to the shell.  The payload
//! vocabulary lives here so that every part of the program names severity
//! and placement the same way.

use vstd::prelude::*;

verus! {

/// The severity of a relayed notification.
#[derive(Debug, Clone, PartialEq, Eq)]
pub enum SnackType {
    /// Informational.
    Info,
    /// An error.
    Error,
    /// A success report.
    Success,
    /// A warning.
    Warning,
    /// No severity styling.
    Plain,
}

/// Where a relayed notification is placed.
#[derive(Debug, Clone, PartialEq, Eq)]
pub enum SnackAlign {
    /// Let the frontend decide.
    Auto,
    /// At the top.
    Top,
    /// At the bottom.
    Bottom,
}

} // verus!
