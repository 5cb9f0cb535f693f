//! The log store behind the runtime's output service: every message is kept
//! with its severity and the host-clock instant it arrived, oldest first,
//! and the history can be cleared. Forwarding entries to consoles, files or
//! script-visible signals is the host's work; the store itself never drops
//! an entry.

use vstd::prelude::*;

use crate::enums::MessageType;

verus! {

/// The message history of the runtime: text, severity and arrival instant
/// of each entry, oldest first.
#[derive(Debug)]
pub struct LogService {
    logs: Vec<(String, MessageType, u64)>,
}

impl LogService {
    /// The history: the view of each message with its severity and arrival
    /// instant, oldest first.
    pub closed spec fn logs(&self) -> Seq<(Seq<char>, MessageType, u64)> {
        self.logs@.map_values(|p: (String, MessageType, u64)| (p.0@, p.1, p.2))
    }

    /// An empty history.
    pub fn new() -> (s: LogService)
        ensures
            s.logs() == Seq::<(Seq<char>, MessageType, u64)>::empty(),
    {
        let s = LogService { logs: Vec::new() };
        proof {
            assert(s.logs() =~= Seq::<(Seq<char>, MessageType, u64)>::empty());
        }
        s
    }

    /// Forgets the whole history.
    pub fn clear_logs(&mut self)
        ensures
            final (self).logs() == Seq::<(Seq<char>, MessageType, u64)>::empty(),
    {
        self.logs.clear();
        proof {
            assert(final (self).logs() =~= Seq::<(Seq<char>, MessageType, u64)>::empty());
        }
    }

    /// Records one entry of the given severity at the given instant.
    pub fn log_with_type(&mut self, message: String, msg_type: MessageType, now_usec: u64)
        ensures
            final (self).logs() == old(self).logs().push((message@, msg_type, now_usec)),
    {
        let ghost entry = (message@, msg_type, now_usec);
        self.logs.push((message, msg_type, now_usec));
        proof {
            assert(final (self).logs() =~= old(self).logs().push(entry));
        }
    }

    /// Records plain output.
    pub fn log_message(&mut self, message: String, now_usec: u64)
        ensures
            final (self).logs() == old(self).logs().push(
                (message@, MessageType::MessageOutput, now_usec),
            ),
    {
        self.log_with_type(message, MessageType::MessageOutput, now_usec);
    }

    /// Records an informational message.
    pub fn log_info(&mut self, message: String, now_usec: u64)
        ensures
            final (self).logs() == old(self).logs().push(
                (message@, MessageType::MessageInfo, now_usec),
            ),
    {
        self.log_with_type(message, MessageType::MessageInfo, now_usec);
    }

    /// Records a warning.
    pub fn log_warn(&mut self, message: String, now_usec: u64)
        ensures
            final (self).logs() == old(self).logs().push(
                (message@, MessageType::MessageWarning, now_usec),
            ),
    {
        self.log_with_type(message, MessageType::MessageWarning, now_usec);
    }

    /// Records an error.
    pub fn log_err(&mut self, message: String, now_usec: u64)
        ensures
            final (self).logs() == old(self).logs().push(
                (message@, MessageType::MessageError, now_usec),
            ),
    {
        self.log_with_type(message, MessageType::MessageError, now_usec);
    }

    /// How many entries the history holds.
    pub fn history_len(&self) -> (n: usize)
        ensures
            n == self.logs().len(),
    {
        self.logs.len()
    }

    /// One entry of the history: a copy of its text, its severity and its
    /// arrival instant.
    pub fn history_entry(&self, i: usize) -> (r: (String, MessageType, u64))
        requires
            i < self.logs().len(),
        ensures
            r.0@ == self.logs()[i as int].0,
            r.1 == self.logs()[i as int].1,
            r.2 == self.logs()[i as int].2,
    {
        let entry = &self.logs[i];
        (entry.0.clone(), entry.1, entry.2)
    }
}

} // verus!
