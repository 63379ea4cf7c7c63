//! The connection slot and its open/replace state machine.
//!
//! At most one connection is live at a time. Opening a port replaces whatever
//! the slot held; a failed attempt leaves the slot exactly as it was. Each
//! installed connection carries an id drawn from a strictly growing counter,
//! so a connection that has left the slot can never become live again.

use vstd::prelude::*;

verus! {

/// Why an open attempt did not install a connection.
#[derive(Clone, Copy, Debug, PartialEq, Eq)]
pub enum ConnectionError {
    /// The MIDI subsystem could not be initialized on this platform.
    SubsystemUnavailable,
    /// The requested index did not resolve against the fresh enumeration.
    PortNotFound,
    /// The driver failed while establishing the connection.
    ConnectFailure,
}

/// A live, exclusive binding to one input port.
///
/// The `id` distinguishes this connection from every one the owning
/// [`MidiState`] installed before or will install later.
#[derive(Clone, Copy, Debug, PartialEq, Eq)]
pub struct Connection {
    /// Unique over the life of the owning slot.
    pub id: u64,
    /// The enumeration index the connection was opened on.
    pub port_index: usize,
}

/// What the device driver reported during one open attempt.
///
/// The host gathers this by initializing the subsystem, enumerating ports and,
/// when the requested index is in range, attempting the connect call.
#[derive(Clone, Copy, Debug, PartialEq, Eq)]
pub enum DriverReply {
    /// Initialization of the MIDI subsystem failed.
    SubsystemUnavailable,
    /// Enumeration reported `port_count` ports. `connect_ok` tells whether the
    /// driver's connect call succeeded; it is consulted only when the
    /// requested index is in range.
    Enumerated { port_count: usize, connect_ok: bool },
}

/// The single shared cell holding at most one live connection, together with
/// the counter that gives each new connection its id.
///
/// Callers that share one value of this type across threads must serialize
/// access behind a lock; each operation then sees a consistent slot.
pub struct MidiState {
    /// The connection slot: the one live connection, if any.
    pub input: Option<Connection>,
    /// The id the next successful open will install.
    pub next_id: u64,
}

/// The outcome an open attempt reports, given the requested index and what
/// the driver replied.
pub open spec fn open_result(input_idx: usize, reply: DriverReply) -> Result<(), ConnectionError> {
    match reply {
        DriverReply::SubsystemUnavailable => Err(ConnectionError::SubsystemUnavailable),
        DriverReply::Enumerated { port_count, connect_ok } => {
            if input_idx >= port_count {
                Err(ConnectionError::PortNotFound)
            } else if connect_ok {
                Ok(())
            } else {
                Err(ConnectionError::ConnectFailure)
            }
        },
    }
}

/// The slot after one completed open attempt: replaced on success, untouched
/// on any failure.
pub open spec fn state_after_open(s: MidiState, input_idx: usize, reply: DriverReply) -> MidiState {
    if open_result(input_idx, reply) is Ok {
        MidiState {
            input: Some(Connection { id: s.next_id, port_index: input_idx }),
            next_id: (s.next_id + 1) as u64,
        }
    } else {
        s
    }
}

impl MidiState {
    /// The slot holds a live connection bearing this id.
    pub open spec fn is_live(self, conn_id: u64) -> bool {
        self.input matches Some(c) && c.id == conn_id
    }

    /// The id of whatever the slot holds stays below the counter, so the
    /// counter never hands out an id that is already live.
    pub open spec fn wf(self) -> bool {
        self.input matches Some(c) ==> c.id < self.next_id
    }

    /// A fresh manager: empty slot, counter at zero.
    pub fn new() -> (s: Self)
        ensures
            s.input is None,
            s.next_id == 0,
            s.wf(),
    {
        MidiState { input: None, next_id: 0 }
    }

    /// One completed open attempt. The slot is replaced exactly when the
    /// index resolved and the driver's connect succeeded; every failure
    /// leaves the slot and the counter untouched and names its cause.
    pub fn open_midi_connection(&mut self, input_idx: usize, reply: DriverReply) -> (r: Result<
        (),
        ConnectionError,
    >)
        requires
            old(self).next_id < u64::MAX,
        ensures
            *final(self) == state_after_open(*old(self), input_idx, reply),
            r == open_result(input_idx, reply),
            old(self).wf() ==> final(self).wf(),
    {
        match reply {
            DriverReply::SubsystemUnavailable => Err(ConnectionError::SubsystemUnavailable),
            DriverReply::Enumerated { port_count, connect_ok } => {
                if input_idx >= port_count {
                    Err(ConnectionError::PortNotFound)
                } else if connect_ok {
                    let c = Connection { id: self.next_id, port_index: input_idx };
                    self.input = Some(c);
                    self.next_id = self.next_id + 1;
                    Ok(())
                } else {
                    Err(ConnectionError::ConnectFailure)
                }
            },
        }
    }
}

impl Default for MidiState {
    /// Same empty state as [`MidiState::new`].
    fn default() -> (s: Self)
        ensures
            s.input is None,
            s.next_id == 0,
            s.wf(),
    {
        MidiState::new()
    }
}

/// The slot after a run of completed open attempts, applied oldest first:
/// the serialized history seen by callers that share one slot behind a lock.
pub open spec fn state_after_opens(s: MidiState, attempts: Seq<(usize, DriverReply)>) -> MidiState
    decreases attempts.len(),
{
    if attempts.len() == 0 {
        s
    } else {
        state_after_open(
            state_after_opens(s, attempts.drop_last()),
            attempts.last().0,
            attempts.last().1,
        )
    }
}

/// The port index of the last attempt in the run that succeeded, if any.
pub open spec fn last_winner(attempts: Seq<(usize, DriverReply)>) -> Option<usize>
    decreases attempts.len(),
{
    if attempts.len() == 0 {
        None
    } else if open_result(attempts.last().0, attempts.last().1) is Ok {
        Some(attempts.last().0)
    } else {
        last_winner(attempts.drop_last())
    }
}

/// Every failed open attempt is a no-op on the slot: an index out of range,
/// an unavailable subsystem or a refused connect leaves the occupant, if any,
/// exactly as it was.
pub proof fn lemma_failed_open_leaves_slot(s: MidiState, input_idx: usize, reply: DriverReply)
    requires
        open_result(input_idx, reply) is Err,
    ensures
        state_after_open(s, input_idx, reply) == s,
{
}

/// A successful open installs a connection to the requested port whose id
/// differs from whatever was live before: the replaced connection is no
/// longer live the moment the open returns.
pub proof fn lemma_open_replaces(s: MidiState, input_idx: usize, reply: DriverReply)
    requires
        s.wf(),
        s.next_id < u64::MAX,
        open_result(input_idx, reply) is Ok,
    ensures
        ({
            let s2 = state_after_open(s, input_idx, reply);
            &&& s2.input matches Some(c) && c.port_index == input_idx && c.id == s.next_id
            &&& forall|id: u64| s.is_live(id) ==> !s2.is_live(id)
            &&& s2.wf()
        }),
{
}

/// The id counter only grows, by at most one per attempt, and a well-formed
/// slot stays well-formed, as long as the counter has room for the run.
pub proof fn lemma_opens_preserve_wf(s: MidiState, attempts: Seq<(usize, DriverReply)>)
    requires
        s.wf(),
        s.next_id + attempts.len() <= u64::MAX,
    ensures
        s.next_id <= state_after_opens(s, attempts).next_id,
        state_after_opens(s, attempts).next_id <= s.next_id + attempts.len(),
        state_after_opens(s, attempts).wf(),
    decreases attempts.len(),
{
    if attempts.len() > 0 {
        lemma_opens_preserve_wf(s, attempts.drop_last());
    }
}

/// Serialized open attempts obey last-writer-wins: after the run, the slot
/// holds a connection to the port of the last attempt that succeeded, and if
/// none succeeded the prior occupant, if any, is still there.
pub proof fn lemma_last_successful_open_wins(s: MidiState, attempts: Seq<(usize, DriverReply)>)
    ensures
        ({
            let fin = state_after_opens(s, attempts);
            match last_winner(attempts) {
                Some(idx) => fin.input matches Some(c) && c.port_index == idx,
                None => fin.input == s.input,
            }
        }),
    decreases attempts.len(),
{
    if attempts.len() > 0 {
        lemma_last_successful_open_wins(s, attempts.drop_last());
    }
}

/// Once a connection has left the slot, no later run of open attempts can
/// make it live again: replacement is final.
pub proof fn lemma_retired_id_never_returns(
    s: MidiState,
    id: u64,
    attempts: Seq<(usize, DriverReply)>,
)
    requires
        s.wf(),
        !s.is_live(id),
        id < s.next_id,
        s.next_id + attempts.len() <= u64::MAX,
    ensures
        !state_after_opens(s, attempts).is_live(id),
    decreases attempts.len(),
{
    if attempts.len() > 0 {
        lemma_retired_id_never_returns(s, id, attempts.drop_last());
        lemma_opens_preserve_wf(s, attempts.drop_last());
    }
}

/// Resolve a requested index against a fresh enumeration of `port_count`
/// ports: in range it names the port to connect to, out of range the attempt
/// stops here.
pub fn resolve_port(input_idx: usize, port_count: usize) -> (r: Result<usize, ConnectionError>)
    ensures
        input_idx < port_count ==> r == Ok::<usize, ConnectionError>(input_idx),
        input_idx >= port_count ==> r == Err::<usize, ConnectionError>(
            ConnectionError::PortNotFound,
        ),
{
    if input_idx < port_count {
        Ok(input_idx)
    } else {
        Err(ConnectionError::PortNotFound)
    }
}

} // verus!
