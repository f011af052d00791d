//! Shared task lists kept in a replicated, append-only document.
//!
//! A document is a log of entries that peers replicate among themselves. This
//! crate holds what is built on top of such a log: the record of a task and
//! its fixed-size payload, the keys under which records and the list's name
//! are stored, the projection of the log into the visible list, the ticket by
//! which a list is shared, the register of the lists a node knows, and the
//! signal that tells a caller that a list has changed.
//!
//! Nothing here performs I/O. A caller scans the document and hands the
//! entries over; what has to be written comes back as a value.
//!
//! The payloads are written and read by `postcard`, and tickets are put into
//! text by `data_encoding`. What is claimed of these two without proof
//! stands in the modules `codec` and `text`: that they write the layouts
//! that the modules `wire` and `text` lay down, and read them again. Three
//! functions of the standard library are taken on trust too: the two that
//! change the case of ASCII letters, in `text`, and the one that reads UTF-8,
//! in `keys`. Everything else is proved from these claims, and among it that
//! the layouts can be read in one way only.

pub mod error;
pub mod wire;
pub mod wire_laws;
pub mod codec;
pub mod text;
pub mod keys;
pub mod document;
pub mod tasks;
pub mod projection;
pub mod projection_laws;
pub mod list;
pub mod list_laws;
pub mod ticket;
pub mod todos;
pub mod todo;
pub mod notifier;
pub mod shell;
