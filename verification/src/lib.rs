//! Native backend logic of a desktop mod-manager shell.
//!
//! The frontend drives the backend through a small command surface.  The
//! pieces with actual decision content live here, fully verified:
//!
//! - [`paths`]: resolution of possibly-relative paths against a base
//!   directory, parent extraction, and the `.notfound` marker naming rule.
//! - [`fs_model`]: the existence-repair procedure (`ensure_exists`) and the
//!   copy/move/rename/delete surface, stated over a model filesystem.
//! - [`gate`]: the two-signal readiness barrier that gates the one-shot
//!   wake-up notification.
//! - [`cli`]: the command-line grammar the backend accepts.
//! - [`dialog`]: file-dialog option types and mode selection.
//! - [`download`]: the plain-value decisions of the HTTP download commands.
//! - [`snack`]: the notification-relay payload types.
//! - [`text`]: the string comparisons and the argument split the above
//!   build on.

pub mod cli;
pub mod dialog;
pub mod download;
pub mod fs_model;
pub mod gate;
pub mod paths;
pub mod snack;
pub mod text;
