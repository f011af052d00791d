//! The failures that the operations of this crate report.

use vstd::prelude::*;

verus! {

/// The class of a failure, by which a caller decides how to react.
#[derive(Clone, Copy, Debug, PartialEq, Eq, Structural)]
pub enum ErrorKind {
    /// The request itself is not acceptable. Repeating it will not help.
    Validation,
    /// What was asked for is not there.
    NotFound,
    /// Data that is present is not what it claims to be.
    Decode,
    /// The content of an entry has not arrived yet.
    ContentUnavailable,
}

/// A failure of an operation of this crate.
#[derive(Clone, Copy, Debug, PartialEq, Eq, Structural)]
pub enum ListError {
    /// The label of a record is longer than [`crate::wire::MAX_LABEL_LEN`] bytes.
    LabelTooLong,
    /// The record does not fit into a payload of [`crate::wire::MAX_RECORD_SIZE`] bytes.
    RecordTooLarge,
    /// A ticket is too large to be written as text.
    TicketTooLarge,
    /// A text is too long to be read as a ticket.
    TextTooLong,
    /// A command cannot be given now.
    UnexpectedCommand,
    /// A key does not begin with the prefix of record keys, or what follows
    /// the prefix is not UTF-8.
    InvalidKey,
    /// A list of that name exists already.
    AlreadyExists,
    /// No entry under the requested key, or no list of the requested name.
    NotFound,
    /// A document holds no entry for the name of its list.
    NameMissing,
    /// A payload or a ticket is malformed.
    Decode,
    /// The content of an entry that is needed could not be fetched.
    ContentUnavailable,
}

impl ListError {
    /// The class of this failure.
    pub open spec fn kind_spec(self) -> ErrorKind {
        match self {
            ListError::LabelTooLong => ErrorKind::Validation,
            ListError::RecordTooLarge => ErrorKind::Validation,
            ListError::TicketTooLarge => ErrorKind::Validation,
            ListError::TextTooLong => ErrorKind::Validation,
            ListError::UnexpectedCommand => ErrorKind::Validation,
            ListError::InvalidKey => ErrorKind::Validation,
            ListError::AlreadyExists => ErrorKind::Validation,
            ListError::NotFound => ErrorKind::NotFound,
            ListError::NameMissing => ErrorKind::NotFound,
            ListError::Decode => ErrorKind::Decode,
            ListError::ContentUnavailable => ErrorKind::ContentUnavailable,
        }
    }

    /// The class of this failure.
    pub fn kind(&self) -> (k: ErrorKind)
        ensures
            k == self.kind_spec(),
    {
        match self {
            ListError::LabelTooLong => ErrorKind::Validation,
            ListError::RecordTooLarge => ErrorKind::Validation,
            ListError::TicketTooLarge => ErrorKind::Validation,
            ListError::TextTooLong => ErrorKind::Validation,
            ListError::UnexpectedCommand => ErrorKind::Validation,
            ListError::InvalidKey => ErrorKind::Validation,
            ListError::AlreadyExists => ErrorKind::Validation,
            ListError::NotFound => ErrorKind::NotFound,
            ListError::NameMissing => ErrorKind::NotFound,
            ListError::Decode => ErrorKind::Decode,
            ListError::ContentUnavailable => ErrorKind::ContentUnavailable,
        }
    }
}

} // verus!
