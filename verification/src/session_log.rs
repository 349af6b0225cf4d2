//! Which guest output goes to the execution log, and under which session.

use std::collections::HashMap;

use vstd::prelude::*;
use vstd::std_specs::hash::*;

verus! {

/// A session that was observed to start.
#[derive(Clone, Copy, Debug, PartialEq, Eq, Structural)]
pub struct SessionInfo {
    /// Numbers sessions in the order in which they started, from 1.
    pub session_id: u64,
    /// Whether the session has a terminal, which merges both output streams.
    pub is_pty: bool,
}

/// The observed sessions by correlation ID.
pub struct SessionRegistry {
    entries: HashMap<u32, SessionInfo>,
    next_session_id: u64,
}

/// The observed sessions by correlation ID, and the number of the next one.
#[verifier::ext_equal]
pub ghost struct RegistryState {
    pub entries: Map<u32, SessionInfo>,
    pub next_session_id: u64,
}

impl View for SessionRegistry {
    type V = RegistryState;

    closed spec fn view(&self) -> RegistryState {
        RegistryState { entries: self.entries@, next_session_id: self.next_session_id }
    }
}

/// The stream that a chunk of output belongs to.
#[derive(Clone, Copy, Debug, PartialEq, Eq, Structural)]
pub enum LogSource {
    Stdout,
    Stderr,
    /// Both streams of a terminal.
    Output,
}

/// A guest message, as far as the log is concerned. `None` for a payload that does not decode.
pub enum LoggedMessage {
    /// The envelope does not decode.
    Undecodable,
    Stdout { id: u32, data: Option<Vec<u8>> },
    Stderr { id: u32, data: Option<Vec<u8>> },
    Other { id: u32 },
}

/// A chunk for the log.
pub struct LogChunk {
    pub source: LogSource,
    pub session_id: u64,
    pub data: Vec<u8>,
}

/// The chunk that a message gives to the log.
pub open spec fn logged(entries: Map<u32, SessionInfo>, message: LoggedMessage) -> Option<LogChunk> {
    match message {
        LoggedMessage::Stdout { id, data: Some(data) } => if entries.contains_key(id) {
            Some(
                LogChunk {
                    source: if entries[id].is_pty {
                        LogSource::Output
                    } else {
                        LogSource::Stdout
                    },
                    session_id: entries[id].session_id,
                    data,
                },
            )
        } else {
            None
        },
        LoggedMessage::Stderr { id, data: Some(data) } => if entries.contains_key(id) {
            Some(
                LogChunk {
                    source: LogSource::Stderr,
                    session_id: entries[id].session_id,
                    data,
                },
            )
        } else {
            None
        },
        _ => None,
    }
}

/// The registry after a message. A terminal frame ends the session that it names.
pub open spec fn after_message(
    entries: Map<u32, SessionInfo>,
    message: LoggedMessage,
    terminal: bool,
) -> Map<u32, SessionInfo> {
    let named = match message {
        LoggedMessage::Undecodable => None,
        LoggedMessage::Stdout { id, .. } => Some(id),
        LoggedMessage::Stderr { id, .. } => Some(id),
        LoggedMessage::Other { id } => Some(id),
    };
    if terminal && named is Some {
        entries.remove(named->0)
    } else {
        entries
    }
}

impl SessionRegistry {
    pub fn new() -> (registry: SessionRegistry)
        ensures
            registry@.entries == Map::<u32, SessionInfo>::empty(),
            registry@.next_session_id == 1,
    {
        broadcast use group_hash_axioms;

        SessionRegistry { entries: HashMap::new(), next_session_id: 1 }
    }

    /// A client's request starts a session.
    pub fn register(&mut self, id: u32, is_pty: bool) -> (session_id: u64)
        ensures
            session_id == old(self)@.next_session_id,
            final(self)@.entries == old(self)@.entries.insert(
                id,
                SessionInfo { session_id, is_pty },
            ),
            final(self)@.next_session_id == if old(self)@.next_session_id < u64::MAX {
                (old(self)@.next_session_id + 1) as u64
            } else {
                0
            },
    {
        broadcast use group_hash_axioms;

        let session_id: u64 = self.next_session_id;
        self.next_session_id = session_id.wrapping_add(1);
        self.entries.insert(id, SessionInfo { session_id, is_pty });
        session_id
    }

    /// The chunk that a guest message gives to the log. Capture is best effort: what does not
    /// decode is passed over, and so is output of a session whose start was not observed.
    pub fn tap(&mut self, message: LoggedMessage, terminal: bool) -> (chunk: Option<LogChunk>)
        ensures
            chunk == logged(old(self)@.entries, message),
            final(self)@ == (RegistryState {
                entries: after_message(old(self)@.entries, message, terminal),
                ..old(self)@
            }),
    {
        broadcast use group_hash_axioms;

        match message {
            LoggedMessage::Undecodable => None,
            LoggedMessage::Stdout { id, data } => {
                let info = match self.entries.get(&id) {
                    Some(info) => *info,
                    None => {
                        assert(self@.entries.remove(id) =~= self@.entries);
                        return None;
                    },
                };
                if terminal {
                    self.entries.remove(&id);
                }
                match data {
                    Some(data) => {
                        let source = if info.is_pty {
                            LogSource::Output
                        } else {
                            LogSource::Stdout
                        };
                        Some(LogChunk { source, session_id: info.session_id, data })
                    },
                    None => None,
                }
            },
            LoggedMessage::Stderr { id, data } => {
                let info = match self.entries.get(&id) {
                    Some(info) => *info,
                    None => {
                        assert(self@.entries.remove(id) =~= self@.entries);
                        return None;
                    },
                };
                if terminal {
                    self.entries.remove(&id);
                }
                match data {
                    Some(data) => Some(
                        LogChunk { source: LogSource::Stderr, session_id: info.session_id, data },
                    ),
                    None => None,
                }
            },
            LoggedMessage::Other { id } => {
                if terminal {
                    self.entries.remove(&id);
                }
                None
            },
        }
    }
}

/// Only output of observed sessions reaches the log, under the number of its session.
pub proof fn log_holds_observed_sessions(entries: Map<u32, SessionInfo>, message: LoggedMessage)
    ensures
        logged(entries, message) matches Some(chunk) ==> exists|id: u32| #[trigger]
            entries.contains_key(id) && entries[id].session_id == chunk.session_id,
{
}

/// Output is logged byte for byte under its session: standard output under its own name unless the
/// session has a terminal, standard error under its own name always. What does not decode, what
/// belongs to no observed session and what is no output gives nothing.
pub proof fn output_is_logged_under_its_session(
    entries: Map<u32, SessionInfo>,
    id: u32,
    data: Vec<u8>,
)
    ensures
        entries.contains_key(id) ==> {
            &&& logged(entries, LoggedMessage::Stdout { id, data: Some(data) }) matches Some(chunk)
                && chunk.data == data && chunk.session_id == entries[id].session_id && (chunk.source
                == LogSource::Output <==> entries[id].is_pty) && (chunk.source == LogSource::Stdout
                <==> !entries[id].is_pty)
            &&& logged(entries, LoggedMessage::Stderr { id, data: Some(data) }) matches Some(chunk)
                && chunk.data == data && chunk.session_id == entries[id].session_id && chunk.source
                == LogSource::Stderr
        },
        !entries.contains_key(id) ==> logged(
            entries,
            LoggedMessage::Stdout { id, data: Some(data) },
        ) is None && logged(entries, LoggedMessage::Stderr { id, data: Some(data) }) is None,
        logged(entries, LoggedMessage::Stdout { id, data: None }) is None,
        logged(entries, LoggedMessage::Stderr { id, data: None }) is None,
        logged(entries, LoggedMessage::Other { id }) is None,
        logged(entries, LoggedMessage::Undecodable) is None,
{
}

/// A terminal frame ends the session that it names, and no other; every other message leaves the
/// sessions as they are.
pub proof fn terminal_ends_its_own_session(
    entries: Map<u32, SessionInfo>,
    id: u32,
    data: Option<Vec<u8>>,
    other: u32,
)
    ensures
        ({
            let messages = seq![
                LoggedMessage::Stdout { id, data },
                LoggedMessage::Stderr { id, data },
                LoggedMessage::Other { id },
            ];
            forall|k: int|
                #![trigger messages[k]]
                0 <= k < 3 ==> {
                    let after = after_message(entries, messages[k], true);
                    &&& !after.contains_key(id)
                    &&& other != id ==> after.contains_key(other) == entries.contains_key(other)
                    &&& other != id && entries.contains_key(other) ==> after[other]
                        == entries[other]
                    &&& after_message(entries, messages[k], false) == entries
                }
        }),
        after_message(entries, LoggedMessage::Undecodable, true) == entries,
        after_message(entries, LoggedMessage::Undecodable, false) == entries,
{
}

} // verus!
