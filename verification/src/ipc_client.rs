//! The IPC client worker: brings the connection up, sustains it with
//! heartbeat pings, enforces the receive timeout, and decodes inbound
//! frames.
//!
//! The client is a deterministic state machine: every operation takes
//! the current time in whole milliseconds.  During bring-up the probe
//! schedule follows the documented backoff — 1 ms doubling to a 500 ms
//! cap within a 3000 ms budget — against a simulated clock, since the
//! in-memory transport needs no waiting.

use vstd::prelude::*;

use crate::NetError;
use crate::NetResult;
use crate::protocol::{PingData, PongData, Protocol, ProtocolModel};
use crate::socket::{IpcSocket, SocketModel};
use crate::wire::{build_envelope, decode_envelope, envelope_decode, envelope_frames,
    wire_encodable};

verus! {

broadcast use vstd::seq::group_seq_axioms;

/// The mathematical state of a client: its socket and the two
/// liveness clocks.
pub struct ClientModel {
    pub socket: SocketModel,
    pub last_recv_millis: u64,
    pub last_send_millis: u64,
}

/// More than 500 ms have passed since the last send: a ping is owed.
pub open spec fn heartbeat_due(last_send_millis: u64, now_ms: u64) -> bool {
    now_ms > last_send_millis && now_ms - last_send_millis > 500
}

/// More than 2000 ms have passed without an inbound frame: the
/// connection is considered dead.
pub open spec fn recv_timed_out(last_recv_millis: u64, now_ms: u64) -> bool {
    now_ms > last_recv_millis && now_ms - last_recv_millis > 2000
}

/// What one tick did: whether any progress was made, and what is
/// delivered to the owner, if anything: the decoded inbound frame, or
/// the decode error it provoked (decode errors are not fatal; the
/// connection goes on).
pub struct TickOutcome {
    pub did_work: bool,
    pub frame: Option<NetResult<Protocol>>,
}

/// What a tick does when no inbound message is pending: fail on the
/// receive timeout, else ping when the heartbeat is due, else rest.
pub open spec fn idle_tick_ok(
    o: ClientModel,
    n: ClientModel,
    now_ms: u64,
    r: Result<TickOutcome, NetError>,
) -> bool {
    match r {
        Ok(t) => {
            &&& t.frame is None
            &&& !recv_timed_out(o.last_recv_millis, now_ms)
            &&& if heartbeat_due(o.last_send_millis, now_ms) {
                &&& t.did_work
                &&& n == (ClientModel {
                    socket: SocketModel {
                        sent: o.socket.sent.push(envelope_frames(ProtocolModel::Ping(now_ms))),
                        ..o.socket
                    },
                    last_send_millis: now_ms,
                    ..o
                })
            } else {
                &&& !t.did_work
                &&& n == o
            }
        },
        Err(e) => {
            &&& e == NetError::IpcTimeout
            &&& recv_timed_out(o.last_recv_millis, now_ms)
            &&& n == o
        },
    }
}

/// What a tick does when an inbound message is pending: pop it, refresh
/// the receive clock, decode it, answer a ping with a pong, deliver the
/// frame, and still ping if the heartbeat is due.
pub open spec fn busy_tick_ok(
    o: ClientModel,
    n: ClientModel,
    now_ms: u64,
    r: Result<TickOutcome, NetError>,
) -> bool {
    let msg = o.socket.inbox[0];
    match envelope_decode(msg) {
        Some(m) => match r {
            Ok(t) => {
                &&& t.did_work
                &&& t.frame matches Some(f) && f matches Ok(p) && p@ == m
                &&& n.last_recv_millis == now_ms
                &&& n.socket.inbox == o.socket.inbox.drop_first()
                &&& n.socket.connected == o.socket.connected
                &&& match m {
                    ProtocolModel::Ping(sent) => {
                        &&& n.socket.sent == o.socket.sent.push(
                            envelope_frames(ProtocolModel::Pong(sent, now_ms)),
                        )
                        &&& n.last_send_millis == now_ms
                    },
                    _ => if heartbeat_due(o.last_send_millis, now_ms) {
                        &&& n.socket.sent == o.socket.sent.push(
                            envelope_frames(ProtocolModel::Ping(now_ms)),
                        )
                        &&& n.last_send_millis == now_ms
                    } else {
                        &&& n.socket.sent == o.socket.sent
                        &&& n.last_send_millis == o.last_send_millis
                    },
                }
            },
            Err(_) => false,
        },
        None => match r {
            Ok(t) => {
                &&& t.did_work
                &&& t.frame matches Some(f) && f matches Err(e) && e is DecodeError
                &&& n == decode_err_after(o, now_ms)
            },
            Err(_) => false,
        },
    }
}

/// The client after a busy tick whose message would not decode: the
/// message is dropped, the receive clock is refreshed only when the
/// frame count was right, and the heartbeat is kept alive; the error
/// goes to the owner and the connection goes on.
pub open spec fn decode_err_after(c: ClientModel, now_ms: u64) -> ClientModel {
    let msg = c.socket.inbox[0];
    let base = ClientModel {
        socket: SocketModel { inbox: c.socket.inbox.drop_first(), ..c.socket },
        last_recv_millis: if msg.len() == 4 {
            now_ms
        } else {
            c.last_recv_millis
        },
        ..c
    };
    if heartbeat_due(c.last_send_millis, now_ms) {
        ClientModel {
            socket: SocketModel {
                sent: base.socket.sent.push(envelope_frames(ProtocolModel::Ping(now_ms))),
                ..base.socket
            },
            last_send_millis: now_ms,
            ..base
        }
    } else {
        base
    }
}

/// Heartbeat liveness: when no traffic flows — nothing is pending
/// inbound, the connection has not timed out, and more than 500 ms
/// have passed since the last send — the next tick sends exactly one
/// ping, stamped with the current time.
pub proof fn lemma_heartbeat_liveness(
    o: ClientModel,
    n: ClientModel,
    now_ms: u64,
    r: Result<TickOutcome, NetError>,
)
    requires
        o.socket.inbox.len() == 0,
        idle_tick_ok(o, n, now_ms, r),
        !recv_timed_out(o.last_recv_millis, now_ms),
        heartbeat_due(o.last_send_millis, now_ms),
    ensures
        r matches Ok(t) && t.did_work,
        n.socket.sent == o.socket.sent.push(envelope_frames(ProtocolModel::Ping(now_ms))),
        n.last_send_millis == now_ms,
{
}

/// Idle-timeout liveness: when nothing is pending inbound and more
/// than 2000 ms have passed without an inbound frame, the tick fails
/// with the connection timeout and changes nothing.
pub proof fn lemma_idle_timeout(
    o: ClientModel,
    n: ClientModel,
    now_ms: u64,
    r: Result<TickOutcome, NetError>,
)
    requires
        o.socket.inbox.len() == 0,
        idle_tick_ok(o, n, now_ms, r),
        recv_timed_out(o.last_recv_millis, now_ms),
    ensures
        r matches Err(e) && e == NetError::IpcTimeout,
        n == o,
{
}

/// The worker on top of a socket.
#[derive(Debug)]
pub struct IpcClient {
    socket: IpcSocket,
    last_recv_millis: u64,
    last_send_millis: u64,
}

impl View for IpcClient {
    type V = ClientModel;

    closed spec fn view(&self) -> ClientModel {
        ClientModel {
            socket: self.socket@,
            last_recv_millis: self.last_recv_millis,
            last_send_millis: self.last_send_millis,
        }
    }
}

impl IpcClient {
    /// Bring up a connection on an already connected socket.  The
    /// server signals readiness with any pending message; until one is
    /// seen, probe pings go out on the documented backoff schedule
    /// against a simulated clock, and after 3000 ms of that schedule
    /// the bring-up fails.  On the in-memory transport the inbox never
    /// fills by waiting, so success means the socket already held a
    /// message and no probe was needed.
    pub fn new(socket: IpcSocket, now_ms: u64) -> (r: NetResult<IpcClient>)
        ensures
            match r {
                Ok(c) => {
                    &&& socket@.inbox.len() > 0
                    &&& c@.socket == socket@
                    &&& c@.last_recv_millis == now_ms
                    &&& c@.last_send_millis == 0
                },
                Err(e) => {
                    &&& socket@.inbox.len() == 0
                    &&& e == NetError::ConnectInitTimeout
                },
            },
    {
        let mut sock = socket;
        let ghost s0 = sock@;
        let mut elapsed: u64 = 0;
        let mut backoff: u64 = 1;
        let mut ready: bool = match sock.poll(0) {
            Ok(b) => b,
            Err(_) => vstd::pervasive::unreached(),
        };
        while !ready && elapsed <= 3000
            invariant
                ready == (sock@.inbox.len() > 0),
                sock@.inbox == s0.inbox,
                ready ==> sock@ == s0,
                elapsed <= 3500,
                1 <= backoff <= 500,
            decreases 3501 - elapsed,
        {
            let probe = Protocol::Ping(PingData { sent: now_ms });
            let env = build_envelope(&probe);
            match sock.send(env) {
                Ok(_) => {},
                Err(_) => vstd::pervasive::unreached(),
            }
            // the host would sleep `backoff` ms here before probing again
            elapsed = elapsed + backoff;
            backoff = if backoff * 2 > 500 {
                500
            } else {
                backoff * 2
            };
            ready = match sock.poll(0) {
                Ok(b) => b,
                Err(_) => vstd::pervasive::unreached(),
            };
        }
        if ready {
            Ok(IpcClient { socket: sock, last_recv_millis: now_ms, last_send_millis: 0 })
        } else {
            Err(NetError::ConnectInitTimeout)
        }
    }

    /// Send one frame down the socket in the four-frame envelope and
    /// refresh the send clock.
    fn priv_send(&mut self, data: &Protocol, now_ms: u64) -> (r: NetResult<()>)
        requires
            wire_encodable(data@),
        ensures
            r is Ok,
            final(self)@ == (ClientModel {
                socket: SocketModel {
                    sent: old(self)@.socket.sent.push(envelope_frames(data@)),
                    ..old(self)@.socket
                },
                last_send_millis: now_ms,
                ..old(self)@
            }),
    {
        let env = build_envelope(data);
        match self.socket.send(env) {
            Ok(_) => {},
            Err(_) => vstd::pervasive::unreached(),
        }
        self.last_send_millis = now_ms;
        Ok(())
    }

    /// Forward one frame from the owner down the socket.
    pub fn receive(&mut self, data: &Protocol, now_ms: u64) -> (r: NetResult<()>)
        requires
            wire_encodable(data@),
        ensures
            r is Ok,
            final(self)@ == (ClientModel {
                socket: SocketModel {
                    sent: old(self)@.socket.sent.push(envelope_frames(data@)),
                    ..old(self)@.socket
                },
                last_send_millis: now_ms,
                ..old(self)@
            }),
    {
        self.priv_send(data, now_ms)
    }

    /// One steady-state step: process at most one inbound message,
    /// enforce the receive timeout, and keep the heartbeat alive.
    pub fn tick(&mut self, now_ms: u64) -> (r: NetResult<TickOutcome>)
        ensures
            old(self)@.socket.inbox.len() == 0 ==> idle_tick_ok(
                old(self)@,
                final(self)@,
                now_ms,
                r,
            ),
            old(self)@.socket.inbox.len() > 0 ==> busy_tick_ok(
                old(self)@,
                final(self)@,
                now_ms,
                r,
            ),
    {
        let mut did_work: bool = false;
        let mut frame: Option<NetResult<Protocol>> = None;
        let pending = match self.socket.poll(0) {
            Ok(b) => b,
            Err(_) => vstd::pervasive::unreached(),
        };
        if pending {
            let msg = match self.socket.recv() {
                Ok(m) => m,
                Err(_) => vstd::pervasive::unreached(),
            };
            if msg.len() != 4 {
                frame = Some(Err(NetError::DecodeError("bad msg len".to_owned())));
                did_work = true;
            } else {
                self.last_recv_millis = now_ms;
                match decode_envelope(&msg) {
                    Ok(decoded) => {
                        if let Protocol::Ping(p) = &decoded {
                            let pong = Protocol::Pong(PongData { orig: p.sent, recv: now_ms });
                            match self.priv_send(&pong, now_ms) {
                                Ok(_) => {},
                                Err(_) => vstd::pervasive::unreached(),
                            }
                        }
                        frame = Some(Ok(decoded));
                    },
                    Err(e) => {
                        frame = Some(Err(e));
                    },
                }
                did_work = true;
            }
        } else {
            if now_ms > self.last_recv_millis && now_ms - self.last_recv_millis > 2000 {
                return Err(NetError::IpcTimeout);
            }
        }
        if now_ms > self.last_send_millis && now_ms - self.last_send_millis > 500 {
            let ping = Protocol::Ping(PingData { sent: now_ms });
            match self.priv_send(&ping, now_ms) {
                Ok(_) => {},
                Err(_) => vstd::pervasive::unreached(),
            }
            did_work = true;
        }
        Ok(TickOutcome { did_work, frame })
    }

    /// Release the worker and its socket.
    pub fn destroy(self) -> (r: NetResult<()>)
        ensures
            r is Ok,
    {
        self.socket.close()
    }

    /// The log of messages sent down the socket, oldest first.
    pub fn sent_log(&self) -> (r: &Vec<Vec<Vec<u8>>>)
        ensures
            crate::socket::msgs_view(r@) == self@.socket.sent,
    {
        self.socket.sent_log()
    }

    /// Queue an inbound message on the underlying mock socket.
    pub fn inject_message(&mut self, msg: Vec<Vec<u8>>)
        ensures
            final(self)@ == (ClientModel {
                socket: SocketModel {
                    inbox: old(self)@.socket.inbox.push(crate::wire::frames_view(msg@)),
                    ..old(self)@.socket
                },
                ..old(self)@
            }),
    {
        self.socket.inject_message(msg)
    }
}

} // verus!
