//! The application-facing entry point: picks the backend named by the
//! configuration and exposes a single send/tick/destroy surface.
//!
//! The configuration is a JSON object `{"backend": "ipc", "config":
//! {"socketType": ..., "ipcUri": ...}}`.  Any backend other than `ipc`
//! is refused with a message naming the offending value; the inner
//! object is handed to the IPC net worker.

use vstd::prelude::*;

use crate::NetError;
use crate::NetResult;
use crate::ipc_net_worker::{IpcNetWorker, WorkerTick, initial_worker_model, worker_tick_rel,
    ready_step, config_field, WorkerModel};
use crate::json::{JsonModel, JsonValue, emit_value, parse_text, parse_text_exec, ser_value};
use crate::protocol::{JsonString, Protocol};
use crate::protocol_wrapper::lookup;
use crate::socket::SocketModel;
use crate::ipc_client::ClientModel;
use crate::wire::{envelope_frames, wire_encodable};

verus! {

broadcast use vstd::seq::group_seq_axioms, vstd::string::group_string_axioms;

/// The `backend` member of the configuration; anything unreadable
/// counts as `null`, as an absent member does.
pub open spec fn backend_of(s: Seq<char>) -> JsonModel {
    match parse_text(s) {
        Some(m) => match m {
            JsonModel::Obj(ms) => match lookup(ms, "backend"@) {
                Some(v) => v,
                None => JsonModel::Null,
            },
            _ => JsonModel::Null,
        },
        _ => JsonModel::Null,
    }
}

/// The text handed to the IPC net worker: the canonical text of the
/// `config` member, or of `null` where there is none.
pub open spec fn inner_config_text(s: Seq<char>) -> Seq<char> {
    match parse_text(s) {
        Some(m) => match m {
            JsonModel::Obj(ms) => match lookup(ms, "config"@) {
                Some(v) => ser_value(v),
                None => ser_value(JsonModel::Null),
            },
            _ => ser_value(JsonModel::Null),
        },
        _ => ser_value(JsonModel::Null),
    }
}

/// The configuration selects the IPC backend over the mock transport.
pub open spec fn config_accepted(s: Seq<char>) -> bool {
    &&& backend_of(s) == JsonModel::Str("ipc"@)
    &&& config_field(inner_config_text(s), "socketType"@) == Some("mock"@)
    &&& config_field(inner_config_text(s), "ipcUri"@) is Some
}

/// The p2p facade: one connection, selected by configuration.
#[derive(Debug)]
pub struct P2pNetwork {
    worker: IpcNetWorker,
}

impl View for P2pNetwork {
    type V = WorkerModel;

    closed spec fn view(&self) -> WorkerModel {
        self.worker@
    }
}

impl P2pNetwork {
    /// Bring up the network named by the configuration.
    pub fn new(config: &JsonString, now_ms: u64) -> (r: NetResult<P2pNetwork>)
        ensures
            match r {
                Ok(p) => {
                    &&& config_accepted(config@)
                    &&& p@ == initial_worker_model(now_ms)
                },
                Err(e) => {
                    &&& !config_accepted(config@)
                    &&& e is ConfigError
                    &&& (backend_of(config@) != JsonModel::Str("ipc"@) ==> e->ConfigError_0@
                        == ("unknown p2p_network backend: "@
                            + ser_value(backend_of(config@))))
                },
            },
    {
        let parsed = parse_text_exec(config.0.as_str());
        let ms_opt = match parsed {
            Some(v) => match v {
                JsonValue::Obj(ms) => Some(ms),
                _ => None,
            },
            None => None,
        };
        match ms_opt {
            Some(ms) => {
                let backend_idx = crate::protocol_wrapper::find_key(&ms, "backend");
                let is_ipc = match backend_idx {
                    Some(i) => match &ms[i].1 {
                        JsonValue::Str(s) => crate::json::str_eq(s.as_str(), "ipc"),
                        _ => false,
                    },
                    None => false,
                };
                if !is_ipc {
                    let mut msg = "unknown p2p_network backend: ".to_owned();
                    let shown = match backend_idx {
                        Some(i) => emit_value(&ms[i].1),
                        None => emit_value(&JsonValue::Null),
                    };
                    msg.append(shown.as_str());
                    return Err(NetError::ConfigError(msg));
                }
                let inner = match crate::protocol_wrapper::find_key(&ms, "config") {
                    Some(i) => emit_value(&ms[i].1),
                    None => emit_value(&JsonValue::Null),
                };
                let worker = match IpcNetWorker::new(&JsonString(inner), now_ms) {
                    Ok(w) => w,
                    Err(e) => return Err(e),
                };
                Ok(P2pNetwork { worker })
            },
            None => {
                let mut msg = "unknown p2p_network backend: ".to_owned();
                let shown = emit_value(&JsonValue::Null);
                msg.append(shown.as_str());
                Err(NetError::ConfigError(msg))
            },
        }
    }

    /// Send one frame to the daemon.
    pub fn send(&mut self, data: &Protocol, now_ms: u64) -> (r: NetResult<()>)
        requires
            wire_encodable(data@),
        ensures
            r is Ok,
            final(self)@ == (WorkerModel {
                client: ClientModel {
                    socket: SocketModel {
                        sent: old(self)@.client.socket.sent.push(envelope_frames(data@)),
                        ..old(self)@.client.socket
                    },
                    last_send_millis: now_ms,
                    ..old(self)@.client
                },
                ..old(self)@
            }),
    {
        self.worker.receive(data, now_ms)
    }

    /// Drive the connection one step.
    pub fn tick(&mut self, now_ms: u64) -> (r: NetResult<WorkerTick>)
        ensures
            worker_tick_rel(old(self)@, final(self)@, now_ms, match r {
                Ok(t) => Ok((
                    t.did_work,
                    match t.frame {
                        Some(f) => match f {
                            Ok(p) => Some(
                                Ok::<crate::protocol::ProtocolModel, NetError>(p@),
                            ),
                            Err(e) => Some(
                                Err::<crate::protocol::ProtocolModel, NetError>(e),
                            ),
                        },
                        None => None,
                    },
                    t.ready,
                )),
                Err(e) => Err(e),
            }),
            r matches Ok(t) ==> ready_step(old(self)@.is_ready, final(self)@.is_ready, t.ready),
            r is Err ==> final(self)@.is_ready == old(self)@.is_ready,
    {
        self.worker.tick(now_ms)
    }

    /// Tear the connection down.
    pub fn destroy(self) -> (r: NetResult<()>)
        ensures
            r is Ok,
    {
        self.worker.destroy()
    }

    /// The log of messages sent down the socket, oldest first.
    pub fn sent_log(&self) -> (r: &Vec<Vec<Vec<u8>>>)
        ensures
            crate::socket::msgs_view(r@) == self@.client.socket.sent,
    {
        self.worker.sent_log()
    }

    /// Queue an inbound message on the underlying mock socket.
    pub fn inject_message(&mut self, msg: Vec<Vec<u8>>)
        ensures
            final(self)@ == (WorkerModel {
                client: ClientModel {
                    socket: SocketModel {
                        inbox: old(self)@.client.socket.inbox.push(
                            crate::wire::frames_view(msg@),
                        ),
                        ..old(self)@.client.socket
                    },
                    ..old(self)@.client
                },
                ..old(self)@
            }),
    {
        self.worker.inject_message(msg)
    }
}

} // verus!