//! The error taxonomy of the task tracker.
//!
//! Every recoverable failure of the core is one of these variants; the
//! caller renders the message and carries on.

use vstd::prelude::*;

verus! {

/// One error class per way an operation can fail.
#[derive(Clone, Copy, Debug, PartialEq, Eq, Structural)]
pub enum TtdError {
    /// The journal file could not be opened, read or written.
    IoError,
    /// The persisted content is not a valid task list.
    DecodeError,
    /// A monthly day outside `1..=31` was supplied.
    InvalidDay,
    /// A weekday string the calendar cannot parse was supplied.
    InvalidWeekday,
    /// A date string the calendar cannot parse was supplied.
    InvalidDate,
    /// No variant selector was supplied where one was needed.
    MissingVariant,
    /// An id or index outside `1..=len` was supplied.
    IndexError,
    /// The operation needs at least one task, but none exist.
    EmptyListError,
    /// An update was requested on a variant that does not support it.
    WrongVariantError,
}

impl TtdError {
    /// The user-facing message for this error, without any styling.
    pub fn message(&self) -> (r: String)
        ensures
            r@ == self.spec_message(),
    {
        match self {
            TtdError::IoError => "error: The journal file could not be accessed.".to_owned(),
            TtdError::DecodeError => "error: The journal file is malformed.".to_owned(),
            TtdError::InvalidDay => "error: Invalid day, please enter a valid day (e.g. 1, 2, 3, etc.)".to_owned(),
            TtdError::InvalidWeekday => "error: Invalid weekday, please enter a valid weekday (e.g. Mon, FRI, tue, etc.)".to_owned(),
            TtdError::InvalidDate => "error: Invalid date, please enter a valid date (e.g. 20240402)".to_owned(),
            TtdError::MissingVariant => "error: Invalid task type, please enter a valid task type (e.g. WeekTask, MonthTask, OnceTask, BookMark)".to_owned(),
            TtdError::IndexError => "error: Invalid index, please enter a valid index (e.g. 1, 2, 3, etc.)".to_owned(),
            TtdError::EmptyListError => "error: There are no tasks to remove!".to_owned(),
            TtdError::WrongVariantError => "error: The task is not a bookmark, please enter a valid index (e.g. 1, 2, 3, etc.)".to_owned(),
        }
    }

    /// What `message` returns, per variant.
    pub open spec fn spec_message(&self) -> Seq<char> {
        match self {
            TtdError::IoError => "error: The journal file could not be accessed."@,
            TtdError::DecodeError => "error: The journal file is malformed."@,
            TtdError::InvalidDay => "error: Invalid day, please enter a valid day (e.g. 1, 2, 3, etc.)"@,
            TtdError::InvalidWeekday => "error: Invalid weekday, please enter a valid weekday (e.g. Mon, FRI, tue, etc.)"@,
            TtdError::InvalidDate => "error: Invalid date, please enter a valid date (e.g. 20240402)"@,
            TtdError::MissingVariant => "error: Invalid task type, please enter a valid task type (e.g. WeekTask, MonthTask, OnceTask, BookMark)"@,
            TtdError::IndexError => "error: Invalid index, please enter a valid index (e.g. 1, 2, 3, etc.)"@,
            TtdError::EmptyListError => "error: There are no tasks to remove!"@,
            TtdError::WrongVariantError => "error: The task is not a bookmark, please enter a valid index (e.g. 1, 2, 3, etc.)"@,
        }
    }
}

} // verus!
