//! The store of received log records, kept in order of arrival.

use vstd::prelude::*;
use crate::json_log::LogEntry;

verus! {

/// The log records received so far, oldest first.
#[derive(Debug)]
pub struct Logs {
    entries: Vec<LogEntry>,
}

impl View for Logs {
    type V = Seq<LogEntry>;

    closed spec fn view(&self) -> Seq<LogEntry> {
        self.entries@
    }
}

/// What reading and decoding the log file gave.
pub enum LogFileRead {
    /// The file held a log store.
    Parsed(Logs),
    /// The text ended before a log store was complete, as an empty file does.
    EndOfInput,
    /// The text was not a log store; the decoder's message.
    Invalid(String),
}

impl Logs {
    /// A store without records.
    pub fn empty() -> (r: Logs)
        ensures
            r@ == Seq::<LogEntry>::empty(),
    {
        Logs { entries: Vec::new() }
    }

    /// A store holding the given records, in the given order.
    pub fn from_entries(entries: Vec<LogEntry>) -> (r: Logs)
        ensures
            r@ == entries@,
    {
        Logs { entries }
    }

    /// The records, oldest first, given up by the store.
    pub fn into_entries(self) -> (r: Vec<LogEntry>)
        ensures
            r@ == self@,
    {
        self.entries
    }

    /// The store to start with, given what reading the log file gave, and
    /// whether that store must be written back to the file: a decoded store
    /// is used as it is; a file that ends early (such as a new, empty one)
    /// starts an empty store that must be written; anything else is an error
    /// carrying the decoder's message.
    pub fn new(read: LogFileRead) -> (r: Result<(Logs, bool), String>)
        ensures
            match read {
                LogFileRead::Parsed(l) => r == Ok::<(Logs, bool), String>((l, false)),
                LogFileRead::EndOfInput => r matches Ok((l, true)) && l@ == Seq::<LogEntry>::empty(),
                LogFileRead::Invalid(e) => r == Err::<(Logs, bool), String>(e),
            },
    {
        match read {
            LogFileRead::Parsed(l) => Ok((l, false)),
            LogFileRead::EndOfInput => Ok((Logs::empty(), true)),
            LogFileRead::Invalid(e) => Err(e),
        }
    }

    /// Adds a record after all others.
    pub fn append(&mut self, entry: LogEntry)
        ensures
            final(self)@ == old(self)@.push(entry),
    {
        self.entries.push(entry);
    }

    /// The records, oldest first.
    pub fn entries(&self) -> (r: &[LogEntry])
        ensures
            r@ == self@,
    {
        self.entries.as_slice()
    }

    /// The number of records.
    pub fn len(&self) -> (r: usize)
        ensures
            r == self@.len(),
    {
        self.entries.len()
    }
}

} // verus!
