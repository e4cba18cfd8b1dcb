//! The synchronous relay over a worker, and the idle-backoff policy of
//! the background loop that hosts one.
//!
//! The relay owns the IPC client and forwards `send`, `tick` and
//! `destroy` to it unchanged.  The host program's background thread
//! drives the relay in a loop: between unproductive ticks it sleeps an
//! adaptive quantum, doubling from 100 µs up to 10 ms and falling back
//! to the floor after any productive tick; those decisions are the
//! verified [`next_idle_sleep_us`].

use vstd::prelude::*;

use crate::NetResult;
use crate::ipc_client::{ClientModel, IpcClient, TickOutcome, busy_tick_ok, idle_tick_ok};
use crate::protocol::{Protocol, ProtocolModel};
use crate::socket::SocketModel;
use crate::wire::{envelope_frames, wire_encodable};

verus! {

broadcast use vstd::seq::group_seq_axioms;

/// A direct owner of a single worker, exposing `send`, `tick` and
/// `destroy` synchronously.
#[derive(Debug)]
pub struct NetConnectionRelay {
    worker: IpcClient,
}

impl View for NetConnectionRelay {
    type V = ClientModel;

    closed spec fn view(&self) -> ClientModel {
        self.worker@
    }
}

impl NetConnectionRelay {
    /// Wrap a worker.
    pub fn new(worker: IpcClient) -> (r: NetConnectionRelay)
        ensures
            r@ == worker@,
    {
        NetConnectionRelay { worker }
    }

    /// Hand one outbound frame to the worker, which sends it down the
    /// socket in its envelope.
    pub fn send(&mut self, data: &Protocol, now_ms: u64) -> (r: NetResult<()>)
        requires
            wire_encodable(data@),
        ensures
            r is Ok,
            final(self)@ == (ClientModel {
                socket: SocketModel {
                    sent: old(self)@.socket.sent.push(envelope_frames(data@)),
                    ..old(self)@.socket
                },
                last_send_millis: now_ms,
                ..old(self)@
            }),
    {
        self.worker.receive(data, now_ms)
    }

    /// Drive the worker one step.
    pub fn tick(&mut self, now_ms: u64) -> (r: NetResult<TickOutcome>)
        ensures
            old(self)@.socket.inbox.len() == 0 ==> idle_tick_ok(
                old(self)@,
                final(self)@,
                now_ms,
                r,
            ),
            old(self)@.socket.inbox.len() > 0 ==> busy_tick_ok(
                old(self)@,
                final(self)@,
                now_ms,
                r,
            ),
    {
        self.worker.tick(now_ms)
    }

    /// Release the worker.
    pub fn destroy(self) -> (r: NetResult<()>)
        ensures
            r is Ok,
    {
        self.worker.destroy()
    }

    /// The log of messages sent down the socket, oldest first.
    pub fn sent_log(&self) -> (r: &Vec<Vec<Vec<u8>>>)
        ensures
            crate::socket::msgs_view(r@) == self@.socket.sent,
    {
        self.worker.sent_log()
    }

    /// Queue an inbound message on the underlying mock socket.
    pub fn inject_message(&mut self, msg: Vec<Vec<u8>>)
        ensures
            final(self)@ == (ClientModel {
                socket: SocketModel {
                    inbox: old(self)@.socket.inbox.push(crate::wire::frames_view(msg@)),
                    ..old(self)@.socket
                },
                ..old(self)@
            }),
    {
        self.worker.inject_message(msg)
    }
}

// ---------------------------------------------------------------------
// The adaptive idle backoff
// ---------------------------------------------------------------------

/// The floor of the idle sleep, in microseconds.
pub const IDLE_SLEEP_FLOOR_US: u64 = 100;

/// The cap of the idle sleep, in microseconds.
pub const IDLE_SLEEP_CAP_US: u64 = 10_000;

/// The next idle sleep: back to the floor after a productive tick,
/// doubled up to the cap after an idle one.
pub open spec fn spec_next_idle_sleep_us(did_work: bool, current_us: u64) -> u64 {
    if did_work {
        IDLE_SLEEP_FLOOR_US
    } else if 2 * current_us > IDLE_SLEEP_CAP_US {
        IDLE_SLEEP_CAP_US
    } else {
        (2 * current_us) as u64
    }
}

/// Compute the next idle sleep for the background loop.
pub fn next_idle_sleep_us(did_work: bool, current_us: u64) -> (r: u64)
    requires
        current_us <= IDLE_SLEEP_CAP_US,
    ensures
        r == spec_next_idle_sleep_us(did_work, current_us),
{
    if did_work {
        IDLE_SLEEP_FLOOR_US
    } else if current_us > IDLE_SLEEP_CAP_US / 2 {
        IDLE_SLEEP_CAP_US
    } else {
        2 * current_us
    }
}

/// Adaptive sleep bounds: starting inside `[100 µs, 10 ms]`, the sleep
/// stays inside that range forever, and any productive tick resets it
/// to the floor.
pub proof fn lemma_idle_sleep_bounds(did_work: bool, current_us: u64)
    requires
        IDLE_SLEEP_FLOOR_US <= current_us <= IDLE_SLEEP_CAP_US,
    ensures
        IDLE_SLEEP_FLOOR_US <= spec_next_idle_sleep_us(did_work, current_us)
            <= IDLE_SLEEP_CAP_US,
        did_work ==> spec_next_idle_sleep_us(did_work, current_us) == IDLE_SLEEP_FLOOR_US,
{
}

// ---------------------------------------------------------------------
// Submission order
// ---------------------------------------------------------------------

/// The four-frame envelopes of a sequence of frames, in order.
pub open spec fn envelopes_of(frames: Seq<ProtocolModel>) -> Seq<Seq<Seq<u8>>> {
    frames.map_values(|m: ProtocolModel| envelope_frames(m))
}

/// The sent log after handing each frame to the relay in order: every
/// `send` appends exactly that frame's envelope (its contract above).
pub open spec fn sent_after_sends(sent: Seq<Seq<Seq<u8>>>, frames: Seq<ProtocolModel>)
    -> Seq<Seq<Seq<u8>>>
    decreases frames.len(),
{
    if frames.len() == 0 {
        sent
    } else {
        sent_after_sends(sent.push(envelope_frames(frames[0])), frames.drop_first())
    }
}

/// Frames sent through the connection reach the socket in submission
/// order: after any sequence of sends the socket log is the old log
/// followed by the frames' envelopes, in the order submitted.
pub proof fn lemma_sends_preserve_order(sent: Seq<Seq<Seq<u8>>>, frames: Seq<ProtocolModel>)
    ensures
        sent_after_sends(sent, frames) == sent + envelopes_of(frames),
    decreases frames.len(),
{
    if frames.len() == 0 {
        assert(envelopes_of(frames) =~= Seq::<Seq<Seq<u8>>>::empty());
        assert(sent + envelopes_of(frames) =~= sent);
    } else {
        lemma_sends_preserve_order(sent.push(envelope_frames(frames[0])), frames.drop_first());
        assert(envelopes_of(frames.drop_first())
            =~= envelopes_of(frames).drop_first());
        assert(sent.push(envelope_frames(frames[0])) + envelopes_of(frames).drop_first()
            =~= sent + envelopes_of(frames));
    }
}

} // verus!