//! Removal of bcachefs extended attributes from a file or directory.
//!
//! The library holds the decisions; the caller performs the system calls.
//! [`command`] validates a decoded command line into an [`command::Operation`],
//! [`names`] builds the namespaced attribute names, and [`executor`] is the
//! state machine that says, reply by reply, which system call comes next.
//! [`trace`] states what a whole run of that machine does.
pub mod command;
pub mod executor;
pub mod names;
pub mod trace;
