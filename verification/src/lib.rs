//! Watches a privileged spool directory for completed incoming file
//! transfers and hands each file to an unprivileged user: a privilege-scoped
//! accept/decline prompt decides whether the file is moved into the user's
//! directory (with corrected ownership) or discarded.

pub mod ident;
pub mod orchestrator;
pub mod paths;
pub mod prompt;
pub mod transfer;
pub mod watcher;
