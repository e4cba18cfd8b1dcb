//! The IPC net worker: the relay-hosted client plus the handshake.
//!
//! The worker keeps the last-known handshake state (`undefined` until
//! the daemon reports one), asks for the state every 500 ms until it is
//! `ready`, answers `need_config` by requesting and then setting the
//! default configuration, forwards every inbound frame to the owner,
//! and delivers the synthetic `Ready` frame exactly once, on the tick
//! that first observes the `ready` state.
//!
//! The handshake grammar this drives is fixed:
//! request state; state `need_config`; request default config; default
//! config; set config; state `ready`; local `Ready`.

use vstd::prelude::*;

use crate::NetError;
use crate::NetResult;
use crate::ipc_client::{ClientModel, IpcClient, decode_err_after, heartbeat_due,
    recv_timed_out};
use crate::json::{JsonModel, JsonValue, parse_text, parse_text_exec};
use crate::net_connection::NetConnectionRelay;
use crate::protocol::{JsonString, Protocol, ProtocolModel};
use crate::protocol_wrapper::{ProtocolWrapper, WrapperModel, lookup, wrapper_from_protocol,
    wrapper_to_protocol, get_str};
use crate::socket::{IpcSocket, SocketModel, canned_pong};
use crate::wire::{envelope_decode, envelope_frames, wire_encodable};

verus! {

broadcast use vstd::seq::group_seq_axioms, vstd::string::group_string_axioms;

/// The mathematical state of a net worker.
pub struct WorkerModel {
    pub client: ClientModel,
    pub is_ready: bool,
    pub state: Seq<char>,
    pub id: Seq<char>,
    pub bindings: Seq<Seq<char>>,
    pub last_state_millis: u64,
}

/// What one worker tick did: progress, what is forwarded to the owner
/// (the inbound frame, or the decode error it provoked), and whether
/// the synthetic `Ready` frame goes to the owner now.
pub struct WorkerTick {
    pub did_work: bool,
    pub frame: Option<NetResult<Protocol>>,
    pub ready: bool,
}

/// A state request is owed: not yet ready, and over 500 ms since the
/// last one.
pub open spec fn request_state_due(o: WorkerModel, now_ms: u64) -> bool {
    o.state != "ready"@ && now_ms > o.last_state_millis && now_ms - o.last_state_millis > 500
}

/// The envelope of the `requestState` control frame.
pub open spec fn req_state_env() -> Seq<Seq<u8>> {
    envelope_frames(wrapper_to_protocol(WrapperModel::RequestState))
}

/// The envelope of the `requestDefaultConfig` control frame.
pub open spec fn req_def_cfg_env() -> Seq<Seq<u8>> {
    envelope_frames(wrapper_to_protocol(WrapperModel::RequestDefaultConfig))
}

/// The envelope of the `setConfig` control frame carrying `c`.
pub open spec fn set_cfg_env(c: Seq<char>) -> Seq<Seq<u8>> {
    envelope_frames(wrapper_to_protocol(WrapperModel::SetConfig(c)))
}

/// The worker after the periodic state request, if one is owed.
pub open spec fn after_request_state(o: WorkerModel, now_ms: u64) -> WorkerModel {
    if request_state_due(o, now_ms) {
        WorkerModel {
            client: ClientModel {
                socket: SocketModel {
                    sent: o.client.socket.sent.push(req_state_env()),
                    ..o.client.socket
                },
                last_send_millis: now_ms,
                ..o.client
            },
            last_state_millis: now_ms,
            ..o
        }
    } else {
        o
    }
}

/// The client after a busy tick that decoded `m`: the message popped,
/// the receive clock refreshed, a ping answered with a pong, and the
/// heartbeat kept alive.
pub open spec fn busy_after(c: ClientModel, m: ProtocolModel, now_ms: u64) -> ClientModel {
    let base = ClientModel {
        socket: SocketModel { inbox: c.socket.inbox.drop_first(), ..c.socket },
        last_recv_millis: now_ms,
        ..c
    };
    match m {
        ProtocolModel::Ping(sent) => ClientModel {
            socket: SocketModel {
                sent: base.socket.sent.push(envelope_frames(ProtocolModel::Pong(sent, now_ms))),
                ..base.socket
            },
            last_send_millis: now_ms,
            ..base
        },
        _ => if heartbeat_due(c.last_send_millis, now_ms) {
            ClientModel {
                socket: SocketModel {
                    sent: base.socket.sent.push(envelope_frames(ProtocolModel::Ping(now_ms))),
                    ..base.socket
                },
                last_send_millis: now_ms,
                ..base
            }
        } else {
            base
        },
    }
}

/// The worker after classifying the decoded command `wm`: a state
/// report updates the handshake fields and answers `need_config` with
/// a config request; a default config in state `need_config` is set.
pub open spec fn classify_effect(w: WorkerModel, wm: WrapperModel, now_ms: u64) -> WorkerModel {
    match wm {
        WrapperModel::State(s) => {
            let w2 = WorkerModel { state: s.state, id: s.id, bindings: s.bindings, ..w };
            if s.state == "need_config"@ {
                WorkerModel {
                    client: ClientModel {
                        socket: SocketModel {
                            sent: w2.client.socket.sent.push(req_def_cfg_env()),
                            ..w2.client.socket
                        },
                        last_send_millis: now_ms,
                        ..w2.client
                    },
                    ..w2
                }
            } else {
                w2
            }
        },
        WrapperModel::DefaultConfig(c) => {
            if w.state == "need_config"@ {
                WorkerModel {
                    client: ClientModel {
                        socket: SocketModel {
                            sent: w.client.socket.sent.push(set_cfg_env(c)),
                            ..w.client.socket
                        },
                        last_send_millis: now_ms,
                        ..w.client
                    },
                    ..w
                }
            } else {
                w
            }
        },
        _ => w,
    }
}

/// Whether this tick delivers the synthetic `Ready` frame: the state
/// just became `ready` and the latch was not yet set.
pub open spec fn emits_ready(w: WorkerModel) -> bool {
    !w.is_ready && w.state == "ready"@
}

/// The worker after the `Ready` latch.
pub open spec fn after_latch(w: WorkerModel) -> WorkerModel {
    if emits_ready(w) {
        WorkerModel { is_ready: true, ..w }
    } else {
        w
    }
}

/// The full transition of one worker tick, relating the old and new
/// states to the outcome.
pub open spec fn worker_tick_rel(
    o: WorkerModel,
    n: WorkerModel,
    now_ms: u64,
    r: Result<(bool, Option<Result<ProtocolModel, NetError>>, bool), NetError>,
) -> bool {
    let mid = after_request_state(o, now_ms);
    let c = mid.client;
    if c.socket.inbox.len() == 0 {
        match r {
            Ok((did_work, frame, ready)) => {
                &&& frame is None
                &&& !ready
                &&& !recv_timed_out(c.last_recv_millis, now_ms)
                &&& did_work == heartbeat_due(c.last_send_millis, now_ms)
                &&& if heartbeat_due(c.last_send_millis, now_ms) {
                    n == (WorkerModel {
                        client: ClientModel {
                            socket: SocketModel {
                                sent: c.socket.sent.push(
                                    envelope_frames(ProtocolModel::Ping(now_ms)),
                                ),
                                ..c.socket
                            },
                            last_send_millis: now_ms,
                            ..c
                        },
                        ..mid
                    })
                } else {
                    n == mid
                }
            },
            Err(e) => {
                &&& e == NetError::IpcTimeout
                &&& recv_timed_out(c.last_recv_millis, now_ms)
                &&& n == mid
            },
        }
    } else {
        let msg = c.socket.inbox[0];
        match envelope_decode(msg) {
            Some(m) => match r {
                Ok((did_work, frame, ready)) => match wrapper_from_protocol(m) {
                    Ok(wm) => {
                        let w2 = classify_effect(
                            WorkerModel { client: busy_after(c, m, now_ms), ..mid },
                            wm,
                            now_ms,
                        );
                        &&& did_work
                        &&& frame == Some(Ok::<ProtocolModel, NetError>(m))
                        &&& ready == emits_ready(w2)
                        &&& n == after_latch(w2)
                    },
                    Err(msg) => {
                        &&& did_work
                        &&& !ready
                        &&& (frame matches Some(f) && f matches Err(e)
                            && e matches NetError::DecodeError(em) && em@ == msg)
                        &&& n == (WorkerModel { client: busy_after(c, m, now_ms), ..mid })
                    },
                },
                Err(_) => false,
            },
            None => match r {
                Ok((did_work, frame, ready)) => {
                    &&& did_work
                    &&& !ready
                    &&& frame matches Some(f) && f matches Err(e) && e is DecodeError
                    &&& n == (WorkerModel { client: decode_err_after(c, now_ms), ..mid })
                },
                Err(_) => false,
            },
        }
    }
}

/// One step of the `Ready` latch: a delivery needs a clear latch and
/// sets it, and the latch never clears.
pub open spec fn ready_step(pre: bool, post: bool, emitted: bool) -> bool {
    &&& emitted ==> (!pre && post)
    &&& post == (pre || emitted)
}

/// The worker itself.
#[derive(Debug)]
pub struct IpcNetWorker {
    relay: NetConnectionRelay,
    is_ready: bool,
    state: String,
    id: String,
    bindings: Vec<String>,
    last_state_millis: u64,
}

impl View for IpcNetWorker {
    type V = WorkerModel;

    closed spec fn view(&self) -> WorkerModel {
        WorkerModel {
            client: self.relay@,
            is_ready: self.is_ready,
            state: self.state@,
            id: self.id@,
            bindings: crate::protocol_wrapper::strings_view(self.bindings@),
            last_state_millis: self.last_state_millis,
        }
    }
}

/// The string member of the parsed configuration object under `key`.
pub open spec fn config_field(s: Seq<char>, key: Seq<char>) -> Option<Seq<char>> {
    match parse_text(s) {
        Some(m) => match m {
            JsonModel::Obj(ms) => match lookup(ms, key) {
                Some(v) => match v {
                    JsonModel::Str(t) => Some(t),
                    _ => None,
                },
                _ => None,
            },
            _ => None,
        },
        _ => None,
    }
}

/// The initial model of a worker over a fresh mock socket.
pub open spec fn initial_worker_model(now_ms: u64) -> WorkerModel {
    WorkerModel {
        client: ClientModel {
            socket: SocketModel {
                connected: true,
                inbox: seq![canned_pong()],
                sent: Seq::empty(),
            },
            last_recv_millis: now_ms,
            last_send_millis: 0,
        },
        is_ready: false,
        state: "undefined"@,
        id: "undefined"@,
        bindings: Seq::empty(),
        last_state_millis: 0,
    }
}

impl IpcNetWorker {
    /// Build a worker from its configuration: a JSON object naming the
    /// `socketType` and the `ipcUri`.  Only the in-memory `mock`
    /// transport can be hosted here; any other type is refused.
    pub fn new(config: &JsonString, now_ms: u64) -> (r: NetResult<IpcNetWorker>)
        ensures
            match r {
                Ok(w) => {
                    &&& config_field(config@, "socketType"@) == Some("mock"@)
                    &&& config_field(config@, "ipcUri"@) is Some
                    &&& w@ == initial_worker_model(now_ms)
                },
                Err(e) => {
                    &&& !(config_field(config@, "socketType"@) == Some("mock"@)
                        && config_field(config@, "ipcUri"@) is Some)
                    &&& e is ConfigError
                },
            },
    {
        let parsed = parse_text_exec(config.0.as_str());
        let ms = match parsed {
            Some(v) => match v {
                JsonValue::Obj(ms) => ms,
                _ => {
                    return Err(NetError::ConfigError("malformed network config".to_owned()));
                },
            },
            None => {
                return Err(NetError::ConfigError("malformed network config".to_owned()));
            },
        };
        let socket_type = match get_str(&ms, "socketType") {
            Some(t) => t,
            None => {
                return Err(NetError::ConfigError("unexpected socketType".to_owned()));
            },
        };
        let uri = match get_str(&ms, "ipcUri") {
            Some(u) => u,
            None => {
                return Err(NetError::ConfigError("missing ipcUri".to_owned()));
            },
        };
        if !crate::json::str_eq(socket_type.as_str(), "mock") {
            return Err(NetError::ConfigError("unexpected socketType".to_owned()));
        }
        let mut socket = IpcSocket::new_mock();
        match socket.connect(uri.as_str()) {
            Ok(_) => {},
            Err(_) => vstd::pervasive::unreached(),
        }
        let client = match IpcClient::new(socket, now_ms) {
            Ok(c) => c,
            Err(_) => vstd::pervasive::unreached(),
        };
        let w = IpcNetWorker {
            relay: NetConnectionRelay::new(client),
            is_ready: false,
            state: "undefined".to_owned(),
            id: "undefined".to_owned(),
            bindings: Vec::new(),
            last_state_millis: 0,
        };
        proof {
            assert(w@.bindings =~= Seq::<Seq<char>>::empty());
            assert(w@.client.socket.sent =~= Seq::<Seq<Seq<u8>>>::empty());
            assert(w@ == initial_worker_model(now_ms));
        }
        Ok(w)
    }

    /// Forward one outbound frame to the daemon.
    pub fn receive(&mut self, data: &Protocol, now_ms: u64) -> (r: NetResult<()>)
        requires
            wire_encodable(data@),
        ensures
            r is Ok,
            final(self)@ == (WorkerModel {
                client: ClientModel {
                    socket: SocketModel {
                        sent: old(self)@.client.socket.sent.push(envelope_frames(data@)),
                        ..old(self)@.client.socket
                    },
                    last_send_millis: now_ms,
                    ..old(self)@.client
                },
                ..old(self)@
            }),
    {
        self.relay.send(data, now_ms)
    }

    /// One worker step: keep the state requests flowing, drive the
    /// relay, classify the inbound frame, and deliver the synthetic
    /// `Ready` frame exactly once.
    pub fn tick(&mut self, now_ms: u64) -> (r: NetResult<WorkerTick>)
        ensures
            worker_tick_rel(old(self)@, final(self)@, now_ms, match r {
                Ok(t) => Ok((
                    t.did_work,
                    match t.frame {
                        Some(f) => match f {
                            Ok(p) => Some(Ok::<ProtocolModel, NetError>(p@)),
                            Err(e) => Some(Err::<ProtocolModel, NetError>(e)),
                        },
                        None => None,
                    },
                    t.ready,
                )),
                Err(e) => Err(e),
            }),
            r matches Ok(t) ==> ready_step(old(self)@.is_ready, final(self)@.is_ready, t.ready),
            r is Err ==> final(self)@.is_ready == old(self)@.is_ready,
    {
        let ghost o = self@;
        if !crate::json::str_eq(self.state.as_str(), "ready") {
            if now_ms > self.last_state_millis && now_ms - self.last_state_millis > 500 {
                let req = ProtocolWrapper::RequestState.into_protocol();
                proof {
                    assert(wire_encodable(req@));
                }
                match self.relay.send(&req, now_ms) {
                    Ok(_) => {},
                    Err(_) => vstd::pervasive::unreached(),
                }
                self.last_state_millis = now_ms;
            }
        }
        proof {
            assert(self@ == after_request_state(o, now_ms));
        }
        let ghost mid = self@;
        let outcome = match self.relay.tick(now_ms) {
            Ok(t) => t,
            Err(e) => {
                return Err(e);
            },
        };
        let mut ready_flag: bool = false;
        let frame = match outcome.frame {
            Some(delivery) => Some(match delivery {
                Err(e) => Err(e),
                Ok(data) => match ProtocolWrapper::from_protocol(data.duplicate()) {
                    Err(e) => Err(e),
                    Ok(wrapper) => {
                    match wrapper {
                        ProtocolWrapper::State(s) => {
                            self.state = s.state;
                            self.id = s.id;
                            self.bindings = s.bindings;
                            if crate::json::str_eq(self.state.as_str(), "need_config") {
                                let req = ProtocolWrapper::RequestDefaultConfig.into_protocol();
                                proof {
                                    assert(wire_encodable(req@));
                                }
                                match self.relay.send(&req, now_ms) {
                                    Ok(_) => {},
                                    Err(_) => vstd::pervasive::unreached(),
                                }
                            }
                        },
                        ProtocolWrapper::DefaultConfig(c) => {
                            if crate::json::str_eq(self.state.as_str(), "need_config") {
                                let set = ProtocolWrapper::SetConfig(c).into_protocol();
                                proof {
                                    assert(wire_encodable(set@));
                                }
                                match self.relay.send(&set, now_ms) {
                                    Ok(_) => {},
                                    Err(_) => vstd::pervasive::unreached(),
                                }
                            }
                        },
                        _ => {},
                    }
                    if !self.is_ready && crate::json::str_eq(self.state.as_str(), "ready") {
                        self.is_ready = true;
                        ready_flag = true;
                    }
                    Ok(data)
                    },
                },
            }),
            None => None,
        };
        Ok(WorkerTick { did_work: outcome.did_work, frame, ready: ready_flag })
    }

    /// Release the worker and everything under it.
    pub fn destroy(self) -> (r: NetResult<()>)
        ensures
            r is Ok,
    {
        self.relay.destroy()
    }

    /// The log of messages sent down the socket, oldest first.
    pub fn sent_log(&self) -> (r: &Vec<Vec<Vec<u8>>>)
        ensures
            crate::socket::msgs_view(r@) == self@.client.socket.sent,
    {
        self.relay.sent_log()
    }

    /// Queue an inbound message on the underlying mock socket.
    pub fn inject_message(&mut self, msg: Vec<Vec<u8>>)
        ensures
            final(self)@ == (WorkerModel {
                client: ClientModel {
                    socket: SocketModel {
                        inbox: old(self)@.client.socket.inbox.push(
                            crate::wire::frames_view(msg@),
                        ),
                        ..old(self)@.client.socket
                    },
                    ..old(self)@.client
                },
                ..old(self)@
            }),
    {
        self.relay.inject_message(msg)
    }
}

// ---------------------------------------------------------------------
// At most one Ready
// ---------------------------------------------------------------------

/// The number of `true` entries in a sequence of flags.
pub open spec fn count_true(s: Seq<bool>) -> int
    decreases s.len(),
{
    if s.len() == 0 {
        0
    } else {
        (if s[0] { 1int } else { 0int }) + count_true(s.drop_first())
    }
}

/// Once the latch is set, no later step delivers `Ready`.
proof fn lemma_no_ready_after_latch(latches: Seq<bool>, emits: Seq<bool>)
    requires
        latches.len() == emits.len() + 1,
        latches[0],
        forall|i: int| 0 <= i < emits.len() ==> ready_step(
            #[trigger] latches[i],
            latches[i + 1],
            emits[i],
        ),
    ensures
        count_true(emits) == 0,
    decreases emits.len(),
{
    if emits.len() > 0 {
        assert(ready_step(latches[0], latches[1], emits[0]));
        assert(!emits[0]);
        assert(latches[1]);
        let lt = latches.drop_first();
        let et = emits.drop_first();
        assert forall|i: int| 0 <= i < et.len() implies ready_step(
            #[trigger] lt[i],
            lt[i + 1],
            et[i],
        ) by {
            assert(lt[i] == latches[i + 1]);
            assert(lt[i + 1] == latches[i + 2]);
            assert(et[i] == emits[i + 1]);
        }
        lemma_no_ready_after_latch(lt, et);
    }
}

/// At most one `Ready`: across any sequence of worker ticks starting
/// with a clear latch, the synthetic `Ready` frame is delivered to the
/// owner at most once.
pub proof fn lemma_ready_at_most_once(latches: Seq<bool>, emits: Seq<bool>)
    requires
        latches.len() == emits.len() + 1,
        !latches[0],
        forall|i: int| 0 <= i < emits.len() ==> ready_step(
            #[trigger] latches[i],
            latches[i + 1],
            emits[i],
        ),
    ensures
        count_true(emits) <= 1,
    decreases emits.len(),
{
    if emits.len() > 0 {
        assert(ready_step(latches[0], latches[1], emits[0]));
        let lt = latches.drop_first();
        let et = emits.drop_first();
        assert forall|i: int| 0 <= i < et.len() implies ready_step(
            #[trigger] lt[i],
            lt[i + 1],
            et[i],
        ) by {
            assert(lt[i] == latches[i + 1]);
            assert(lt[i + 1] == latches[i + 2]);
            assert(et[i] == emits[i + 1]);
        }
        if emits[0] {
            assert(latches[1]);
            assert(lt[0]);
            lemma_no_ready_after_latch(lt, et);
        } else {
            assert(!latches[1]);
            lemma_ready_at_most_once(lt, et);
        }
    }
}

} // verus!