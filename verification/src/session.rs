//! The capture path: one slot plus the stream of events the sink accepted.

use vstd::prelude::*;
use crate::event::{capture_event, MidiEvent};
use crate::manager::{
    lemma_open_replaces, open_result, state_after_open, ConnectionError, DriverReply, MidiState,
};

verus! {

/// What one capture callback did with its message.
#[derive(Clone, Copy, Debug, PartialEq, Eq)]
pub enum DeliverOutcome {
    /// The connection was live and the sink accepted the event.
    Forwarded,
    /// The message came from a connection that no longer occupies the slot;
    /// it is dropped without reaching the sink.
    StaleConnection,
    /// The sink refused the event; the failure is swallowed so the capture
    /// path returns to the driver at once, and the message is not retried.
    SinkRejected,
}

/// The capture core as the host drives it: the connection slot together with
/// the events the sink has accepted so far, in acceptance order.
///
/// `emitted` records what was handed to the sink; the host forwards each new
/// entry on to the real event channel.
pub struct CaptureSession {
    /// The connection slot and its id counter.
    pub state: MidiState,
    /// Every event the sink accepted, oldest first.
    pub emitted: Vec<MidiEvent>,
}

impl CaptureSession {
    /// The sink's stream as payload bytes and arrival times, in order.
    pub open spec fn log(self) -> Seq<(Seq<u8>, u64)> {
        self.emitted@.map(|i: int, e: MidiEvent| (e.payload@, e.timestamp))
    }

    /// A fresh session: empty slot, nothing emitted.
    pub fn new() -> (s: Self)
        ensures
            s.state.input is None,
            s.state.next_id == 0,
            s.state.wf(),
            s.log() == Seq::<(Seq<u8>, u64)>::empty(),
    {
        let s = CaptureSession { state: MidiState::new(), emitted: Vec::new() };
        proof {
            assert(s.log() =~= Seq::<(Seq<u8>, u64)>::empty());
        }
        s
    }

    /// One completed open attempt, as on [`MidiState`]; the sink's stream is
    /// untouched, so no event is ever emitted by opening a connection.
    pub fn open_midi_connection(&mut self, input_idx: usize, reply: DriverReply) -> (r: Result<
        (),
        ConnectionError,
    >)
        requires
            old(self).state.next_id < u64::MAX,
        ensures
            final(self).state == state_after_open(old(self).state, input_idx, reply),
            r == open_result(input_idx, reply),
            final(self).log() == old(self).log(),
            old(self).state.wf() ==> final(self).state.wf(),
    {
        self.state.open_midi_connection(input_idx, reply)
    }

    /// One capture callback: a message from connection `conn_id` arriving at
    /// `timestamp`. It is copied and appended to the sink's stream exactly
    /// when `conn_id` is still the live connection and the sink accepted it
    /// (`sink_ok`); otherwise nothing changes. The slot itself is never
    /// touched, and no outcome is a panic: a sink failure is logged by the
    /// host and swallowed here.
    pub fn deliver(
        &mut self,
        conn_id: u64,
        timestamp: u64,
        message: &[u8],
        sink_ok: bool,
    ) -> (r: DeliverOutcome)
        ensures
            final(self).state == old(self).state,
            r == (if old(self).state.is_live(conn_id) {
                if sink_ok {
                    DeliverOutcome::Forwarded
                } else {
                    DeliverOutcome::SinkRejected
                }
            } else {
                DeliverOutcome::StaleConnection
            }),
            final(self).log() == (if old(self).state.is_live(conn_id) && sink_ok {
                old(self).log().push((message@, timestamp))
            } else {
                old(self).log()
            }),
    {
        let live: bool = match &self.state.input {
            Some(c) => c.id == conn_id,
            None => false,
        };
        if live {
            if sink_ok {
                let e = capture_event(timestamp, message);
                self.emitted.push(e);
                proof {
                    assert(self.log() =~= old(self).log().push((message@, timestamp)));
                }
                DeliverOutcome::Forwarded
            } else {
                DeliverOutcome::SinkRejected
            }
        } else {
            DeliverOutcome::StaleConnection
        }
    }
}

/// The sink's stream after a run of capture callbacks for connection
/// `conn_id`, one per message in `msgs` (payload and arrival time), applied
/// oldest first against an unchanging slot.
pub open spec fn log_after_deliveries(
    st: MidiState,
    log: Seq<(Seq<u8>, u64)>,
    conn_id: u64,
    msgs: Seq<(Seq<u8>, u64)>,
    sink_ok: bool,
) -> Seq<(Seq<u8>, u64)>
    decreases msgs.len(),
{
    if msgs.len() == 0 {
        log
    } else {
        let rest = log_after_deliveries(st, log, conn_id, msgs.drop_last(), sink_ok);
        if st.is_live(conn_id) && sink_ok {
            rest.push(msgs.last())
        } else {
            rest
        }
    }
}

/// Messages captured on the live connection reach the sink in arrival order,
/// byte for byte: a run of callbacks for the live connection, with the sink
/// accepting, appends exactly the captured messages, unchanged and in order.
pub proof fn lemma_capture_order_preserved(
    st: MidiState,
    log: Seq<(Seq<u8>, u64)>,
    conn_id: u64,
    msgs: Seq<(Seq<u8>, u64)>,
)
    requires
        st.is_live(conn_id),
    ensures
        log_after_deliveries(st, log, conn_id, msgs, true) == log + msgs,
    decreases msgs.len(),
{
    if msgs.len() == 0 {
        assert(log + msgs =~= log);
    } else {
        lemma_capture_order_preserved(st, log, conn_id, msgs.drop_last());
        assert(log + msgs =~= (log + msgs.drop_last()).push(msgs.last()));
    }
}

/// Opening one port and then another leaves exactly one live connection, to
/// the second port, and the first connection's capture path falls silent:
/// whatever messages it still hands over after the second open returns, none
/// reaches the sink.
pub proof fn lemma_reopen_silences_first(
    s: MidiState,
    log: Seq<(Seq<u8>, u64)>,
    a_idx: usize,
    a_reply: DriverReply,
    b_idx: usize,
    b_reply: DriverReply,
    msgs: Seq<(Seq<u8>, u64)>,
    sink_ok: bool,
)
    requires
        s.wf(),
        s.next_id + 2 <= u64::MAX,
        open_result(a_idx, a_reply) is Ok,
        open_result(b_idx, b_reply) is Ok,
    ensures
        ({
            let s1 = state_after_open(s, a_idx, a_reply);
            let s2 = state_after_open(s1, b_idx, b_reply);
            &&& s2.input matches Some(c) && c.port_index == b_idx
            &&& s1.input matches Some(a) ==> !s2.is_live(a.id)
            &&& s1.input matches Some(a) ==> log_after_deliveries(
                s2,
                log,
                a.id,
                msgs,
                sink_ok,
            ) == log
        }),
{
    let s1 = state_after_open(s, a_idx, a_reply);
    let s2 = state_after_open(s1, b_idx, b_reply);
    lemma_open_replaces(s, a_idx, a_reply);
    lemma_open_replaces(s1, b_idx, b_reply);
    let a = s1.input->Some_0;
    assert(s1.is_live(a.id));
    assert(!s2.is_live(a.id));
    lemma_stale_connection_silent(s2, log, a.id, msgs, sink_ok);
}

/// A connection that does not occupy the slot delivers nothing: however many
/// callbacks it still fires, the sink's stream is unchanged.
pub proof fn lemma_stale_connection_silent(
    st: MidiState,
    log: Seq<(Seq<u8>, u64)>,
    conn_id: u64,
    msgs: Seq<(Seq<u8>, u64)>,
    sink_ok: bool,
)
    requires
        !st.is_live(conn_id),
    ensures
        log_after_deliveries(st, log, conn_id, msgs, sink_ok) == log,
    decreases msgs.len(),
{
    if msgs.len() > 0 {
        lemma_stale_connection_silent(st, log, conn_id, msgs.drop_last(), sink_ok);
    }
}

} // verus!
