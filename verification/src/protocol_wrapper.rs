//! The typed command sum layered over the opaque JSON transport.
//!
//! Inbound `Json` frames are parsed once, at this boundary, into a typed
//! command; downstream code never branches on a stringly-typed method.
//! A frame that is not JSON, does not parse, or carries no known
//! `method` degrades to `RawProtocol` and is passed through; a frame
//! with a recognized method but a missing or non-string required field
//! is a decode error, surfaced to the owner.  The field names on the
//! wire — `_id`, `toAddress`, `fromAddress`, `address`, `bindings`,
//! `config` — are fixed: external peers consume them.

use vstd::prelude::*;

use crate::json::{JsonValue, JsonModel, jv_model, jv_models, jv_member_models, ser_value,
    parse_text, parse_text_exec, emit_value, wf_value, lemma_parse_ser_text,
    lemma_jv_models_index, lemma_jv_member_models_index};
use crate::NetError;
use crate::NetResult;
use crate::protocol::{JsonString, Protocol, ProtocolModel};

verus! {

broadcast use vstd::seq::group_seq_axioms, vstd::string::group_string_axioms;

/// The state report of the daemon: its handshake state, its identity
/// and its bound addresses.
#[derive(Debug, Clone, PartialEq)]
pub struct StateData {
    pub state: String,
    pub id: String,
    pub bindings: Vec<String>,
}

/// The model of a [`StateData`].
pub struct StateModel {
    pub state: Seq<char>,
    pub id: Seq<char>,
    pub bindings: Seq<Seq<char>>,
}

/// The character sequences held by a vector of strings.
pub open spec fn strings_view(v: Seq<String>) -> Seq<Seq<char>> {
    Seq::new(v.len(), |i: int| v[i]@)
}

impl View for StateData {
    type V = StateModel;

    open spec fn view(&self) -> StateModel {
        StateModel { state: self.state@, id: self.id@, bindings: strings_view(self.bindings@) }
    }
}

/// An opaque configuration blob.
#[derive(Debug, Clone, PartialEq)]
pub struct ConfigData {
    pub config: String,
}

impl View for ConfigData {
    type V = Seq<char>;

    open spec fn view(&self) -> Seq<char> {
        self.config@
    }
}

/// A transport address to connect to.
#[derive(Debug, Clone, PartialEq)]
pub struct ConnectData {
    pub address: String,
}

impl View for ConnectData {
    type V = Seq<char>;

    open spec fn view(&self) -> Seq<char> {
        self.address@
    }
}

/// The identity of a newly connected peer.
#[derive(Debug, Clone, PartialEq)]
pub struct PeerConnectData {
    pub id: String,
}

impl View for PeerConnectData {
    type V = Seq<char>;

    open spec fn view(&self) -> Seq<char> {
        self.id@
    }
}

/// An outbound application message.
#[derive(Debug, PartialEq)]
pub struct SendData {
    pub msg_id: String,
    pub to_address: String,
    pub data: JsonValue,
}

/// The model of a [`SendData`].
pub struct SendModel {
    pub msg_id: Seq<char>,
    pub to_address: Seq<char>,
    pub data: JsonModel,
}

impl View for SendData {
    type V = SendModel;

    open spec fn view(&self) -> SendModel {
        SendModel { msg_id: self.msg_id@, to_address: self.to_address@, data: jv_model(self.data) }
    }
}

/// An inbound application message to handle.
#[derive(Debug, PartialEq)]
pub struct HandleSendData {
    pub msg_id: String,
    pub to_address: String,
    pub from_address: String,
    pub data: JsonValue,
}

/// The model of a [`HandleSendData`].
pub struct HandleSendModel {
    pub msg_id: Seq<char>,
    pub to_address: Seq<char>,
    pub from_address: Seq<char>,
    pub data: JsonModel,
}

impl View for HandleSendData {
    type V = HandleSendModel;

    open spec fn view(&self) -> HandleSendModel {
        HandleSendModel {
            msg_id: self.msg_id@,
            to_address: self.to_address@,
            from_address: self.from_address@,
            data: jv_model(self.data),
        }
    }
}

/// The typed command sum.
#[derive(Debug, PartialEq)]
pub enum ProtocolWrapper {
    /// A frame outside the control grammar, passed through untouched.
    RawProtocol(Protocol),
    RequestState,
    State(StateData),
    RequestDefaultConfig,
    DefaultConfig(ConfigData),
    SetConfig(ConfigData),
    Connect(ConnectData),
    PeerConnected(PeerConnectData),
    SendMessage(SendData),
    HandleSend(HandleSendData),
}

/// The model of a [`ProtocolWrapper`].
pub enum WrapperModel {
    RawProtocol(ProtocolModel),
    RequestState,
    State(StateModel),
    RequestDefaultConfig,
    DefaultConfig(Seq<char>),
    SetConfig(Seq<char>),
    Connect(Seq<char>),
    PeerConnected(Seq<char>),
    SendMessage(SendModel),
    HandleSend(HandleSendModel),
}

impl View for ProtocolWrapper {
    type V = WrapperModel;

    open spec fn view(&self) -> WrapperModel {
        match self {
            ProtocolWrapper::RawProtocol(p) => WrapperModel::RawProtocol(p@),
            ProtocolWrapper::RequestState => WrapperModel::RequestState,
            ProtocolWrapper::State(s) => WrapperModel::State(s@),
            ProtocolWrapper::RequestDefaultConfig => WrapperModel::RequestDefaultConfig,
            ProtocolWrapper::DefaultConfig(c) => WrapperModel::DefaultConfig(c@),
            ProtocolWrapper::SetConfig(c) => WrapperModel::SetConfig(c@),
            ProtocolWrapper::Connect(c) => WrapperModel::Connect(c@),
            ProtocolWrapper::PeerConnected(c) => WrapperModel::PeerConnected(c@),
            ProtocolWrapper::SendMessage(m) => WrapperModel::SendMessage(m@),
            ProtocolWrapper::HandleSend(m) => WrapperModel::HandleSend(m@),
        }
    }
}

// ---------------------------------------------------------------------
// The wire form of each command
// ---------------------------------------------------------------------

/// The strings of `bindings`, as JSON string values.
pub open spec fn strs_to_models(bs: Seq<Seq<char>>) -> Seq<JsonModel> {
    Seq::new(bs.len(), |i: int| JsonModel::Str(bs[i]))
}

/// The JSON object a non-raw command travels as.
pub open spec fn wrapper_obj(w: WrapperModel) -> JsonModel
    recommends
        !(w is RawProtocol),
{
    match w {
        WrapperModel::RawProtocol(_) => JsonModel::Null,
        WrapperModel::RequestState => JsonModel::Obj(
            seq![("method"@, JsonModel::Str("requestState"@))],
        ),
        WrapperModel::State(s) => JsonModel::Obj(
            seq![
                ("method"@, JsonModel::Str("state"@)),
                ("state"@, JsonModel::Str(s.state)),
                ("id"@, JsonModel::Str(s.id)),
                ("bindings"@, JsonModel::Arr(strs_to_models(s.bindings))),
            ],
        ),
        WrapperModel::RequestDefaultConfig => JsonModel::Obj(
            seq![("method"@, JsonModel::Str("requestDefaultConfig"@))],
        ),
        WrapperModel::DefaultConfig(c) => JsonModel::Obj(
            seq![("method"@, JsonModel::Str("defaultConfig"@)), ("config"@, JsonModel::Str(c))],
        ),
        WrapperModel::SetConfig(c) => JsonModel::Obj(
            seq![("method"@, JsonModel::Str("setConfig"@)), ("config"@, JsonModel::Str(c))],
        ),
        WrapperModel::Connect(a) => JsonModel::Obj(
            seq![("method"@, JsonModel::Str("connect"@)), ("address"@, JsonModel::Str(a))],
        ),
        WrapperModel::PeerConnected(id) => JsonModel::Obj(
            seq![("method"@, JsonModel::Str("peerConnected"@)), ("id"@, JsonModel::Str(id))],
        ),
        WrapperModel::SendMessage(m) => JsonModel::Obj(
            seq![
                ("method"@, JsonModel::Str("send"@)),
                ("_id"@, JsonModel::Str(m.msg_id)),
                ("toAddress"@, JsonModel::Str(m.to_address)),
                ("data"@, m.data),
            ],
        ),
        WrapperModel::HandleSend(m) => JsonModel::Obj(
            seq![
                ("method"@, JsonModel::Str("handleSend"@)),
                ("_id"@, JsonModel::Str(m.msg_id)),
                ("toAddress"@, JsonModel::Str(m.to_address)),
                ("fromAddress"@, JsonModel::Str(m.from_address)),
                ("data"@, m.data),
            ],
        ),
    }
}

/// The frame a command converts into: raw commands pass through, the
/// rest travel as the canonical text of their JSON object.
pub open spec fn wrapper_to_protocol(w: WrapperModel) -> ProtocolModel {
    match w {
        WrapperModel::RawProtocol(p) => p,
        _ => ProtocolModel::Json(ser_value(wrapper_obj(w))),
    }
}

// ---------------------------------------------------------------------
// Decoding a frame into a command
// ---------------------------------------------------------------------

/// The first member of the object with the given key, if any.
pub open spec fn lookup(ms: Seq<(Seq<char>, JsonModel)>, key: Seq<char>) -> Option<JsonModel>
    decreases ms.len(),
{
    if ms.len() == 0 {
        None
    } else if ms[0].0 == key {
        Some(ms[0].1)
    } else {
        lookup(ms.drop_first(), key)
    }
}

/// The string held by a member, or a default.
pub open spec fn str_or(o: Option<JsonModel>, d: Seq<char>) -> Seq<char> {
    match o {
        Some(JsonModel::Str(s)) => s,
        _ => d,
    }
}

/// A binding entry: its string, or `undefined` for anything else.
pub open spec fn str_or_undefined(m: JsonModel) -> Seq<char> {
    match m {
        JsonModel::Str(s) => s,
        _ => "undefined"@,
    }
}

/// The strings of a `bindings` member: absent or non-array means none.
pub open spec fn arr_strs(o: Option<JsonModel>) -> Seq<Seq<char>> {
    match o {
        Some(JsonModel::Arr(items)) => Seq::new(items.len(), |i: int| str_or_undefined(items[i])),
        _ => Seq::empty(),
    }
}

/// The methods this stack understands.
pub open spec fn known_method(m: Seq<char>) -> bool {
    m == "requestState"@ || m == "state"@ || m == "requestDefaultConfig"@
        || m == "defaultConfig"@ || m == "setConfig"@ || m == "connect"@
        || m == "peerConnected"@ || m == "send"@ || m == "handleSend"@
}

/// The message of the decode error a recognized but malformed control
/// frame surfaces.
pub open spec fn malformed_msg(m: Seq<char>) -> Seq<char> {
    "malformed "@ + m + " frame"@
}

/// Interpret a parsed JSON object.  Three outcomes: a typed command; a
/// raw pass-through where no `method` member, a non-string one, or an
/// unknown one makes the text no control frame at all; or, where the
/// method is recognized but a required field is missing or not a
/// string, the message of the decode error that surfaces to the owner.
pub open spec fn interp_obj(ms: Seq<(Seq<char>, JsonModel)>, orig: Seq<char>)
    -> Result<WrapperModel, Seq<char>>
{
    let raw = Ok::<WrapperModel, Seq<char>>(
        WrapperModel::RawProtocol(ProtocolModel::Json(orig)),
    );
    match lookup(ms, "method"@) {
        Some(JsonModel::Str(m)) => {
            let malformed = Err::<WrapperModel, Seq<char>>(malformed_msg(m));
            if m == "requestState"@ {
                Ok(WrapperModel::RequestState)
            } else if m == "state"@ {
                Ok(WrapperModel::State(StateModel {
                    state: str_or(lookup(ms, "state"@), "undefined"@),
                    id: str_or(lookup(ms, "id"@), "undefined"@),
                    bindings: arr_strs(lookup(ms, "bindings"@)),
                }))
            } else if m == "requestDefaultConfig"@ {
                Ok(WrapperModel::RequestDefaultConfig)
            } else if m == "defaultConfig"@ {
                match lookup(ms, "config"@) {
                    Some(JsonModel::Str(c)) => Ok(WrapperModel::DefaultConfig(c)),
                    _ => malformed,
                }
            } else if m == "setConfig"@ {
                match lookup(ms, "config"@) {
                    Some(JsonModel::Str(c)) => Ok(WrapperModel::SetConfig(c)),
                    _ => malformed,
                }
            } else if m == "connect"@ {
                match lookup(ms, "address"@) {
                    Some(JsonModel::Str(a)) => Ok(WrapperModel::Connect(a)),
                    _ => malformed,
                }
            } else if m == "peerConnected"@ {
                match lookup(ms, "id"@) {
                    Some(JsonModel::Str(id)) => Ok(WrapperModel::PeerConnected(id)),
                    _ => malformed,
                }
            } else if m == "send"@ {
                match (lookup(ms, "_id"@), lookup(ms, "toAddress"@)) {
                    (Some(JsonModel::Str(mi)), Some(JsonModel::Str(ta))) =>
                        Ok(WrapperModel::SendMessage(SendModel {
                            msg_id: mi,
                            to_address: ta,
                            data: match lookup(ms, "data"@) {
                                Some(d) => d,
                                None => JsonModel::Null,
                            },
                        })),
                    _ => malformed,
                }
            } else if m == "handleSend"@ {
                match (lookup(ms, "_id"@), lookup(ms, "toAddress"@), lookup(ms, "fromAddress"@)) {
                    (
                        Some(JsonModel::Str(mi)),
                        Some(JsonModel::Str(ta)),
                        Some(JsonModel::Str(fa)),
                    ) => Ok(WrapperModel::HandleSend(HandleSendModel {
                        msg_id: mi,
                        to_address: ta,
                        from_address: fa,
                        data: match lookup(ms, "data"@) {
                            Some(d) => d,
                            None => JsonModel::Null,
                        },
                    })),
                    _ => malformed,
                }
            } else {
                raw
            }
        },
        _ => raw,
    }
}

/// What a JSON payload decodes to.
pub open spec fn wrapper_of_json(s: Seq<char>) -> Result<WrapperModel, Seq<char>> {
    match parse_text(s) {
        Some(JsonModel::Obj(ms)) => interp_obj(ms, s),
        _ => Ok(WrapperModel::RawProtocol(ProtocolModel::Json(s))),
    }
}

/// What any frame decodes to: only `Json` frames carry commands.
pub open spec fn wrapper_from_protocol(p: ProtocolModel) -> Result<WrapperModel, Seq<char>> {
    match p {
        ProtocolModel::Json(s) => wrapper_of_json(s),
        _ => Ok(WrapperModel::RawProtocol(p)),
    }
}

/// A command all of whose number lexemes (inside `data`) are well
/// formed, so that its wire text parses back.
pub open spec fn wrapper_wf(w: WrapperModel) -> bool {
    match w {
        WrapperModel::SendMessage(m) => wf_value(m.data),
        WrapperModel::HandleSend(m) => wf_value(m.data),
        _ => true,
    }
}

// ---------------------------------------------------------------------
// The wrapper round trip
// ---------------------------------------------------------------------

/// The method names and field keys on the wire are pairwise distinct
/// wherever one decode step must tell them apart.
proof fn lemma_wire_names_distinct()
    ensures
        "state"@ != "requestState"@,
        "requestDefaultConfig"@ != "requestState"@,
        "requestDefaultConfig"@ != "state"@,
        "defaultConfig"@ != "requestState"@,
        "defaultConfig"@ != "state"@,
        "defaultConfig"@ != "requestDefaultConfig"@,
        "setConfig"@ != "requestState"@,
        "setConfig"@ != "state"@,
        "setConfig"@ != "requestDefaultConfig"@,
        "setConfig"@ != "defaultConfig"@,
        "connect"@ != "requestState"@,
        "connect"@ != "state"@,
        "connect"@ != "requestDefaultConfig"@,
        "connect"@ != "defaultConfig"@,
        "connect"@ != "setConfig"@,
        "peerConnected"@ != "requestState"@,
        "peerConnected"@ != "state"@,
        "peerConnected"@ != "requestDefaultConfig"@,
        "peerConnected"@ != "defaultConfig"@,
        "peerConnected"@ != "setConfig"@,
        "peerConnected"@ != "connect"@,
        "send"@ != "requestState"@,
        "send"@ != "state"@,
        "send"@ != "requestDefaultConfig"@,
        "send"@ != "defaultConfig"@,
        "send"@ != "setConfig"@,
        "send"@ != "connect"@,
        "send"@ != "peerConnected"@,
        "handleSend"@ != "requestState"@,
        "handleSend"@ != "state"@,
        "handleSend"@ != "requestDefaultConfig"@,
        "handleSend"@ != "defaultConfig"@,
        "handleSend"@ != "setConfig"@,
        "handleSend"@ != "connect"@,
        "handleSend"@ != "peerConnected"@,
        "handleSend"@ != "send"@,
        "method"@ != "state"@,
        "method"@ != "id"@,
        "method"@ != "bindings"@,
        "method"@ != "config"@,
        "method"@ != "address"@,
        "method"@ != "_id"@,
        "method"@ != "toAddress"@,
        "method"@ != "fromAddress"@,
        "method"@ != "data"@,
        "state"@ != "id"@,
        "state"@ != "bindings"@,
        "id"@ != "bindings"@,
        "_id"@ != "toAddress"@,
        "_id"@ != "fromAddress"@,
        "_id"@ != "data"@,
        "toAddress"@ != "fromAddress"@,
        "toAddress"@ != "data"@,
        "fromAddress"@ != "data"@,
{
    reveal_strlit("method");
    reveal_strlit("state");
    reveal_strlit("id");
    reveal_strlit("bindings");
    reveal_strlit("config");
    reveal_strlit("address");
    reveal_strlit("_id");
    reveal_strlit("toAddress");
    reveal_strlit("fromAddress");
    reveal_strlit("data");
    reveal_strlit("requestState");
    reveal_strlit("requestDefaultConfig");
    reveal_strlit("defaultConfig");
    reveal_strlit("setConfig");
    reveal_strlit("connect");
    reveal_strlit("peerConnected");
    reveal_strlit("send");
    reveal_strlit("handleSend");
    assert("method"@.len() == 6);
    assert("state"@.len() == 5);
    assert("id"@.len() == 2);
    assert("bindings"@.len() == 8);
    assert("config"@.len() == 6);
    assert("address"@.len() == 7);
    assert("_id"@.len() == 3);
    assert("toAddress"@.len() == 9);
    assert("fromAddress"@.len() == 11);
    assert("data"@.len() == 4);
    assert("requestState"@.len() == 12);
    assert("requestDefaultConfig"@.len() == 20);
    assert("defaultConfig"@.len() == 13);
    assert("setConfig"@.len() == 9);
    assert("connect"@.len() == 7);
    assert("peerConnected"@.len() == 13);
    assert("send"@.len() == 4);
    assert("handleSend"@.len() == 10);
    assert("method"@[0] != "config"@[0]);
    assert("defaultConfig"@[0] != "peerConnected"@[0]);
    assert("setConfig"@[0] != "toAddress"@[0]);
    assert("connect"@[0] != "address"@[0]);
    assert("send"@[0] != "data"@[0]);
}

/// The interpretation of a non-raw command's own object is that
/// command, whatever whole text it was read from.
#[verifier::rlimit(100)]
proof fn lemma_interp_obj_of(w: WrapperModel, orig: Seq<char>)
    requires
        !(w is RawProtocol),
    ensures
        interp_obj(wrapper_obj(w)->Obj_0, orig) == Ok::<WrapperModel, Seq<char>>(w),
{
    let ms = wrapper_obj(w)->Obj_0;
    lemma_wire_names_distinct();
        match w {
        WrapperModel::RawProtocol(_) => {},
        WrapperModel::RequestState => {},
        WrapperModel::State(s) => {
            let ms1 = ms.drop_first();
            let ms2 = ms1.drop_first();
            let ms3 = ms2.drop_first();
            assert(ms1 =~= seq![
                ("state"@, JsonModel::Str(s.state)),
                ("id"@, JsonModel::Str(s.id)),
                ("bindings"@, JsonModel::Arr(strs_to_models(s.bindings))),
            ]);
            assert(ms2 =~= seq![
                ("id"@, JsonModel::Str(s.id)),
                ("bindings"@, JsonModel::Arr(strs_to_models(s.bindings))),
            ]);
            assert(ms3 =~= seq![
                ("bindings"@, JsonModel::Arr(strs_to_models(s.bindings))),
            ]);
            assert(lookup(ms1, "state"@) == Some(JsonModel::Str(s.state)));
            assert(lookup(ms, "state"@) == Some(JsonModel::Str(s.state)));
            assert(lookup(ms2, "id"@) == Some(JsonModel::Str(s.id)));
            assert(lookup(ms1, "id"@) == Some(JsonModel::Str(s.id)));
            assert(lookup(ms, "id"@) == Some(JsonModel::Str(s.id)));
            assert(lookup(ms3, "bindings"@)
                == Some(JsonModel::Arr(strs_to_models(s.bindings))));
            assert(lookup(ms2, "bindings"@)
                == Some(JsonModel::Arr(strs_to_models(s.bindings))));
            assert(lookup(ms1, "bindings"@)
                == Some(JsonModel::Arr(strs_to_models(s.bindings))));
            assert(lookup(ms, "bindings"@)
                == Some(JsonModel::Arr(strs_to_models(s.bindings))));
            assert(arr_strs(lookup(ms, "bindings"@)) =~= s.bindings);
        },
        WrapperModel::RequestDefaultConfig => {},
        WrapperModel::DefaultConfig(c) => {
            let ms1 = ms.drop_first();
            assert(ms1 =~= seq![("config"@, JsonModel::Str(c))]);
            assert(lookup(ms1, "config"@) == Some(JsonModel::Str(c)));
            assert(lookup(ms, "config"@) == Some(JsonModel::Str(c)));
        },
        WrapperModel::SetConfig(c) => {
            let ms1 = ms.drop_first();
            assert(ms1 =~= seq![("config"@, JsonModel::Str(c))]);
            assert(lookup(ms1, "config"@) == Some(JsonModel::Str(c)));
            assert(lookup(ms, "config"@) == Some(JsonModel::Str(c)));
        },
        WrapperModel::Connect(a) => {
            let ms1 = ms.drop_first();
            assert(ms1 =~= seq![("address"@, JsonModel::Str(a))]);
            assert(lookup(ms1, "address"@) == Some(JsonModel::Str(a)));
            assert(lookup(ms, "address"@) == Some(JsonModel::Str(a)));
        },
        WrapperModel::PeerConnected(id) => {
            let ms1 = ms.drop_first();
            assert(ms1 =~= seq![("id"@, JsonModel::Str(id))]);
            assert(lookup(ms1, "id"@) == Some(JsonModel::Str(id)));
            assert(lookup(ms, "id"@) == Some(JsonModel::Str(id)));
        },
        WrapperModel::SendMessage(m) => {
            let ms1 = ms.drop_first();
            let ms2 = ms1.drop_first();
            let ms3 = ms2.drop_first();
            assert(ms1 =~= seq![
                ("_id"@, JsonModel::Str(m.msg_id)),
                ("toAddress"@, JsonModel::Str(m.to_address)),
                ("data"@, m.data),
            ]);
            assert(ms2 =~= seq![
                ("toAddress"@, JsonModel::Str(m.to_address)),
                ("data"@, m.data),
            ]);
            assert(ms3 =~= seq![("data"@, m.data)]);
            assert(lookup(ms1, "_id"@) == Some(JsonModel::Str(m.msg_id)));
            assert(lookup(ms, "_id"@) == Some(JsonModel::Str(m.msg_id)));
            assert(lookup(ms2, "toAddress"@) == Some(JsonModel::Str(m.to_address)));
            assert(lookup(ms1, "toAddress"@) == Some(JsonModel::Str(m.to_address)));
            assert(lookup(ms, "toAddress"@) == Some(JsonModel::Str(m.to_address)));
            assert(lookup(ms3, "data"@) == Some(m.data));
            assert(lookup(ms2, "data"@) == Some(m.data));
            assert(lookup(ms1, "data"@) == Some(m.data));
            assert(lookup(ms, "data"@) == Some(m.data));
        },
        WrapperModel::HandleSend(m) => {
            let ms1 = ms.drop_first();
            let ms2 = ms1.drop_first();
            let ms3 = ms2.drop_first();
            let ms4 = ms3.drop_first();
            assert(ms1 =~= seq![
                ("_id"@, JsonModel::Str(m.msg_id)),
                ("toAddress"@, JsonModel::Str(m.to_address)),
                ("fromAddress"@, JsonModel::Str(m.from_address)),
                ("data"@, m.data),
            ]);
            assert(ms2 =~= seq![
                ("toAddress"@, JsonModel::Str(m.to_address)),
                ("fromAddress"@, JsonModel::Str(m.from_address)),
                ("data"@, m.data),
            ]);
            assert(ms3 =~= seq![
                ("fromAddress"@, JsonModel::Str(m.from_address)),
                ("data"@, m.data),
            ]);
            assert(ms4 =~= seq![("data"@, m.data)]);
            assert(lookup(ms1, "_id"@) == Some(JsonModel::Str(m.msg_id)));
            assert(lookup(ms, "_id"@) == Some(JsonModel::Str(m.msg_id)));
            assert(lookup(ms2, "toAddress"@) == Some(JsonModel::Str(m.to_address)));
            assert(lookup(ms1, "toAddress"@) == Some(JsonModel::Str(m.to_address)));
            assert(lookup(ms, "toAddress"@) == Some(JsonModel::Str(m.to_address)));
            assert(lookup(ms3, "fromAddress"@) == Some(JsonModel::Str(m.from_address)));
            assert(lookup(ms2, "fromAddress"@) == Some(JsonModel::Str(m.from_address)));
            assert(lookup(ms1, "fromAddress"@) == Some(JsonModel::Str(m.from_address)));
            assert(lookup(ms, "fromAddress"@) == Some(JsonModel::Str(m.from_address)));
            assert(lookup(ms4, "data"@) == Some(m.data));
            assert(lookup(ms3, "data"@) == Some(m.data));
            assert(lookup(ms2, "data"@) == Some(m.data));
            assert(lookup(ms1, "data"@) == Some(m.data));
            assert(lookup(ms, "data"@) == Some(m.data));
        },
    }
}

/// The wrapper round trip: every non-raw command, with well-formed
/// `data`, converts to a frame and decodes from it back to itself.
#[verifier::rlimit(100)]
pub proof fn lemma_wrapper_round_trip(w: WrapperModel)
    requires
        !(w is RawProtocol),
        wrapper_wf(w),
    ensures
        wrapper_from_protocol(wrapper_to_protocol(w)) == Ok::<WrapperModel, Seq<char>>(w),
{
    let obj = wrapper_obj(w);
    let ms = obj->Obj_0;
    let text = ser_value(obj);
    lemma_wire_names_distinct();
    assert(wf_value(obj)) by {
        match w {
            WrapperModel::State(s) => {
                assert(forall|i: int| 0 <= i < strs_to_models(s.bindings).len()
                    ==> wf_value(#[trigger] strs_to_models(s.bindings)[i]));
                assert(forall|i: int| 0 <= i < ms.len() ==> wf_value(#[trigger] ms[i].1));
            },
            WrapperModel::SendMessage(m) => {
                assert(forall|i: int| 0 <= i < ms.len() ==> wf_value(#[trigger] ms[i].1));
            },
            WrapperModel::HandleSend(m) => {
                assert(forall|i: int| 0 <= i < ms.len() ==> wf_value(#[trigger] ms[i].1));
            },
            _ => {
                assert(forall|i: int| 0 <= i < ms.len() ==> wf_value(#[trigger] ms[i].1));
            },
        }
    }
    lemma_parse_ser_text(obj);
    assert(parse_text(text) == Some(obj));
    lemma_interp_obj_of(w, text);

}

/// Unknown-method tolerance: a JSON object whose `method` is missing,
/// not a string, or outside the known set decodes to a raw frame.
pub proof fn lemma_unknown_method_raw(s: Seq<char>)
    requires
        match parse_text(s) {
            Some(m) => match m {
                JsonModel::Obj(ms) => match lookup(ms, "method"@) {
                    Some(v) => match v {
                        JsonModel::Str(name) => !known_method(name),
                        _ => true,
                    },
                    None => true,
                },
                _ => false,
            },
            None => false,
        },
    ensures
        wrapper_of_json(s) == Ok::<WrapperModel, Seq<char>>(
            WrapperModel::RawProtocol(ProtocolModel::Json(s)),
        ),
{
}

/// Malformed-control-frame rejection: a JSON object whose `method` is
/// recognized but whose required fields are missing or not strings
/// decodes to the decode error naming that method, never to a command
/// or a raw frame.
pub proof fn lemma_malformed_recognized_is_decode_error(s: Seq<char>)
    requires
        match parse_text(s) {
            Some(v) => match v {
                JsonModel::Obj(ms) => match lookup(ms, "method"@) {
                    Some(mv) => match mv {
                        JsonModel::Str(name) => {
                            ||| (name == "defaultConfig"@ || name == "setConfig"@)
                                && !(lookup(ms, "config"@) matches Some(JsonModel::Str(_)))
                            ||| name == "connect"@
                                && !(lookup(ms, "address"@) matches Some(JsonModel::Str(_)))
                            ||| name == "peerConnected"@
                                && !(lookup(ms, "id"@) matches Some(JsonModel::Str(_)))
                            ||| (name == "send"@ || name == "handleSend"@)
                                && !(lookup(ms, "_id"@) matches Some(JsonModel::Str(_))
                                    && lookup(ms, "toAddress"@) matches Some(JsonModel::Str(_)))
                            ||| name == "handleSend"@
                                && !(lookup(ms, "fromAddress"@) matches Some(JsonModel::Str(_)))
                        },
                        _ => false,
                    },
                    None => false,
                },
                _ => false,
            },
            None => false,
        },
    ensures
        wrapper_of_json(s) matches Err(msg),
{
    lemma_wire_names_distinct();
}

// ---------------------------------------------------------------------
// Executable conversion: command to frame
// ---------------------------------------------------------------------

impl ProtocolWrapper {
    /// The frame this command travels as: raw commands pass through,
    /// the rest become the canonical text of their JSON object.
    pub fn into_protocol(self) -> (r: Protocol)
        ensures
            r@ == wrapper_to_protocol(self@),
    {
        let ghost w = self@;
        match self {
            ProtocolWrapper::RawProtocol(p) => p,
            ProtocolWrapper::RequestState => {
                let mut ms: Vec<(String, JsonValue)> = Vec::new();
                ms.push(("method".to_owned(), JsonValue::Str("requestState".to_owned())));
                proof {
                    lemma_jv_member_models_index(ms@);
                    assert(jv_member_models(ms@) =~= seq![
                        ("method"@, JsonModel::Str("requestState"@)),
                    ]);
                }
                emit_obj(ms, Ghost(w))
            },
            ProtocolWrapper::State(s) => {
                let mut items: Vec<JsonValue> = Vec::new();
                let n: usize = s.bindings.len();
                let mut i: usize = 0;
                while i < n
                    invariant
                        i <= n,
                        n == s.bindings@.len(),
                        items@.len() == i,
                        forall|q: int| 0 <= q < i ==> jv_model(#[trigger] items@[q])
                            == JsonModel::Str(s.bindings@[q]@),
                    decreases n - i,
                {
                    items.push(JsonValue::Str(s.bindings[i].clone()));
                    i = i + 1;
                }
                proof {
                    lemma_jv_models_index(items@);
                    assert(jv_models(items@) =~= strs_to_models(strings_view(s.bindings@)));
                }
                let ghost sm = s@;
                let mut ms: Vec<(String, JsonValue)> = Vec::new();
                ms.push(("method".to_owned(), JsonValue::Str("state".to_owned())));
                ms.push(("state".to_owned(), JsonValue::Str(s.state)));
                ms.push(("id".to_owned(), JsonValue::Str(s.id)));
                ms.push(("bindings".to_owned(), JsonValue::Arr(items)));
                proof {
                    lemma_jv_member_models_index(ms@);
                    assert(jv_member_models(ms@) =~= seq![
                        ("method"@, JsonModel::Str("state"@)),
                        ("state"@, JsonModel::Str(sm.state)),
                        ("id"@, JsonModel::Str(sm.id)),
                        ("bindings"@, JsonModel::Arr(strs_to_models(sm.bindings))),
                    ]);
                }
                emit_obj(ms, Ghost(w))
            },
            ProtocolWrapper::RequestDefaultConfig => {
                let mut ms: Vec<(String, JsonValue)> = Vec::new();
                ms.push(("method".to_owned(), JsonValue::Str("requestDefaultConfig".to_owned())));
                proof {
                    lemma_jv_member_models_index(ms@);
                    assert(jv_member_models(ms@) =~= seq![
                        ("method"@, JsonModel::Str("requestDefaultConfig"@)),
                    ]);
                }
                emit_obj(ms, Ghost(w))
            },
            ProtocolWrapper::DefaultConfig(c) => {
                let ghost cm = c@;
                let mut ms: Vec<(String, JsonValue)> = Vec::new();
                ms.push(("method".to_owned(), JsonValue::Str("defaultConfig".to_owned())));
                ms.push(("config".to_owned(), JsonValue::Str(c.config)));
                proof {
                    lemma_jv_member_models_index(ms@);
                    assert(jv_member_models(ms@) =~= seq![
                        ("method"@, JsonModel::Str("defaultConfig"@)),
                        ("config"@, JsonModel::Str(cm)),
                    ]);
                }
                emit_obj(ms, Ghost(w))
            },
            ProtocolWrapper::SetConfig(c) => {
                let ghost cm = c@;
                let mut ms: Vec<(String, JsonValue)> = Vec::new();
                ms.push(("method".to_owned(), JsonValue::Str("setConfig".to_owned())));
                ms.push(("config".to_owned(), JsonValue::Str(c.config)));
                proof {
                    lemma_jv_member_models_index(ms@);
                    assert(jv_member_models(ms@) =~= seq![
                        ("method"@, JsonModel::Str("setConfig"@)),
                        ("config"@, JsonModel::Str(cm)),
                    ]);
                }
                emit_obj(ms, Ghost(w))
            },
            ProtocolWrapper::Connect(c) => {
                let ghost cm = c@;
                let mut ms: Vec<(String, JsonValue)> = Vec::new();
                ms.push(("method".to_owned(), JsonValue::Str("connect".to_owned())));
                ms.push(("address".to_owned(), JsonValue::Str(c.address)));
                proof {
                    lemma_jv_member_models_index(ms@);
                    assert(jv_member_models(ms@) =~= seq![
                        ("method"@, JsonModel::Str("connect"@)),
                        ("address"@, JsonModel::Str(cm)),
                    ]);
                }
                emit_obj(ms, Ghost(w))
            },
            ProtocolWrapper::PeerConnected(c) => {
                let ghost cm = c@;
                let mut ms: Vec<(String, JsonValue)> = Vec::new();
                ms.push(("method".to_owned(), JsonValue::Str("peerConnected".to_owned())));
                ms.push(("id".to_owned(), JsonValue::Str(c.id)));
                proof {
                    lemma_jv_member_models_index(ms@);
                    assert(jv_member_models(ms@) =~= seq![
                        ("method"@, JsonModel::Str("peerConnected"@)),
                        ("id"@, JsonModel::Str(cm)),
                    ]);
                }
                emit_obj(ms, Ghost(w))
            },
            ProtocolWrapper::SendMessage(m) => {
                let ghost mm = m@;
                let mut ms: Vec<(String, JsonValue)> = Vec::new();
                ms.push(("method".to_owned(), JsonValue::Str("send".to_owned())));
                ms.push(("_id".to_owned(), JsonValue::Str(m.msg_id)));
                ms.push(("toAddress".to_owned(), JsonValue::Str(m.to_address)));
                ms.push(("data".to_owned(), m.data));
                proof {
                    lemma_jv_member_models_index(ms@);
                    assert(jv_member_models(ms@) =~= seq![
                        ("method"@, JsonModel::Str("send"@)),
                        ("_id"@, JsonModel::Str(mm.msg_id)),
                        ("toAddress"@, JsonModel::Str(mm.to_address)),
                        ("data"@, mm.data),
                    ]);
                }
                emit_obj(ms, Ghost(w))
            },
            ProtocolWrapper::HandleSend(m) => {
                let ghost mm = m@;
                let mut ms: Vec<(String, JsonValue)> = Vec::new();
                ms.push(("method".to_owned(), JsonValue::Str("handleSend".to_owned())));
                ms.push(("_id".to_owned(), JsonValue::Str(m.msg_id)));
                ms.push(("toAddress".to_owned(), JsonValue::Str(m.to_address)));
                ms.push(("fromAddress".to_owned(), JsonValue::Str(m.from_address)));
                ms.push(("data".to_owned(), m.data));
                proof {
                    lemma_jv_member_models_index(ms@);
                    assert(jv_member_models(ms@) =~= seq![
                        ("method"@, JsonModel::Str("handleSend"@)),
                        ("_id"@, JsonModel::Str(mm.msg_id)),
                        ("toAddress"@, JsonModel::Str(mm.to_address)),
                        ("fromAddress"@, JsonModel::Str(mm.from_address)),
                        ("data"@, mm.data),
                    ]);
                }
                emit_obj(ms, Ghost(w))
            },
        }
    }
}

/// Emit the built member list as a `Json` frame; the members must model
/// the command's object.
fn emit_obj(ms: Vec<(String, JsonValue)>, w: Ghost<WrapperModel>) -> (r: Protocol)
    requires
        !(w@ is RawProtocol),
        wrapper_obj(w@) == JsonModel::Obj(jv_member_models(ms@)),
    ensures
        r@ == wrapper_to_protocol(w@),
{
    let obj = JsonValue::Obj(ms);
    let text = emit_value(&obj);
    Protocol::Json(JsonString(text))
}

// ---------------------------------------------------------------------
// Executable conversion: frame to command
// ---------------------------------------------------------------------

/// The index of the first member with the given key, if any.
pub fn find_key(ms: &Vec<(String, JsonValue)>, key: &str) -> (r: Option<usize>)
    ensures
        match r {
            Some(i) => {
                &&& i < ms@.len()
                &&& ms@[i as int].0@ == key@
                &&& lookup(jv_member_models(ms@), key@) == Some(jv_model(ms@[i as int].1))
            },
            None => lookup(jv_member_models(ms@), key@) is None,
        },
{
    let ghost msm = jv_member_models(ms@);
    proof {
        lemma_jv_member_models_index(ms@);
    }
    let n: usize = ms.len();
    proof {
        assert(msm.subrange(0, n as int) =~= msm);
    }
    let mut i: usize = 0;
    while i < n
        invariant
            i <= n,
            n == ms@.len(),
            msm == jv_member_models(ms@),
            msm.len() == n,
            forall|k: int| 0 <= k < n ==> msm[k] == ((#[trigger] ms@[k]).0@, jv_model(ms@[k].1)),
            lookup(msm, key@) == lookup(msm.subrange(i as int, n as int), key@),
        decreases n - i,
    {
        if crate::json::str_eq(ms[i].0.as_str(), key) {
            proof {
                let sub = msm.subrange(i as int, n as int);
                assert(sub[0] == msm[i as int]);
                assert(lookup(sub, key@) == Some(msm[i as int].1));
            }
            return Some(i);
        }
        proof {
            let sub = msm.subrange(i as int, n as int);
            assert(sub[0] == msm[i as int]);
            assert(sub[0].0 != key@);
            assert(sub.drop_first() =~= msm.subrange(i + 1, n as int));
        }
        i = i + 1;
    }
    proof {
        assert(msm.subrange(n as int, n as int) =~= Seq::<(Seq<char>, JsonModel)>::empty());
    }
    None
}

/// The string member under `key`, or the default where it is absent or
/// not a string.
fn get_str_or(ms: &Vec<(String, JsonValue)>, key: &str, default: &str) -> (r: String)
    ensures
        r@ == str_or(lookup(jv_member_models(ms@), key@), default@),
{
    match find_key(ms, key) {
        Some(i) => match &ms[i].1 {
            JsonValue::Str(s) => s.clone(),
            _ => default.to_owned(),
        },
        None => default.to_owned(),
    }
}

/// The string member under `key`, if present and a string.
pub fn get_str(ms: &Vec<(String, JsonValue)>, key: &str) -> (r: Option<String>)
    ensures
        match r {
            Some(s) => lookup(jv_member_models(ms@), key@) == Some(JsonModel::Str(s@)),
            None => !(lookup(jv_member_models(ms@), key@) matches Some(JsonModel::Str(_))),
        },
{
    match find_key(ms, key) {
        Some(i) => match &ms[i].1 {
            JsonValue::Str(s) => Some(s.clone()),
            _ => None,
        },
        None => None,
    }
}

/// The strings under the `bindings` member: absent or non-array means
/// none, and a non-string entry reads as `undefined`.
fn get_bindings(ms: &Vec<(String, JsonValue)>) -> (r: Vec<String>)
    ensures
        strings_view(r@) == arr_strs(lookup(jv_member_models(ms@), "bindings"@)),
{
    match find_key(ms, "bindings") {
        Some(i) => match &ms[i].1 {
            JsonValue::Arr(items) => {
                let ghost im = jv_models(items@);
                proof {
                    lemma_jv_models_index(items@);
                }
                let n: usize = items.len();
                let mut out: Vec<String> = Vec::new();
                let mut k: usize = 0;
                while k < n
                    invariant
                        k <= n,
                        n == items@.len(),
                        im == jv_models(items@),
                        im.len() == n,
                        forall|q: int| 0 <= q < n ==> im[q] == jv_model(#[trigger] items@[q]),
                        out@.len() == k,
                        forall|q: int| 0 <= q < k ==> (#[trigger] out@[q])@
                            == str_or_undefined(im[q]),
                    decreases n - k,
                {
                    match &items[k] {
                        JsonValue::Str(s) => out.push(s.clone()),
                        _ => out.push("undefined".to_owned()),
                    }
                    k = k + 1;
                }
                proof {
                    assert(strings_view(out@) =~= arr_strs(
                        lookup(jv_member_models(ms@), "bindings"@),
                    ));
                }
                out
            },
            _ => {
                let out: Vec<String> = Vec::new();
                proof {
                    assert(strings_view(out@) =~= Seq::<Seq<char>>::empty());
                }
                out
            },
        },
        None => {
            let out: Vec<String> = Vec::new();
            proof {
                assert(strings_view(out@) =~= Seq::<Seq<char>>::empty());
            }
            out
        },
    }
}

/// Take the `data` member out of the object, or `Null` if absent.
fn take_data(ms: Vec<(String, JsonValue)>) -> (r: JsonValue)
    ensures
        jv_model(r) == match lookup(jv_member_models(ms@), "data"@) {
            Some(d) => d,
            None => JsonModel::Null,
        },
{
    let mut ms = ms;
    match find_key(&ms, "data") {
        Some(i) => {
            let member = ms.remove(i);
            member.1
        },
        None => JsonValue::Null,
    }
}

impl ProtocolWrapper {
    /// What a frame decodes to.  Only `Json` frames carry commands;
    /// everything else, and every JSON text that is no control frame at
    /// all, passes through as `RawProtocol`; a recognized but malformed
    /// control frame is a decode error.
    pub fn from_protocol(p: Protocol) -> (r: NetResult<ProtocolWrapper>)
        ensures
            match r {
                Ok(w) => wrapper_from_protocol(p@) == Ok::<WrapperModel, Seq<char>>(w@),
                Err(e) => {
                    &&& e matches NetError::DecodeError(msg)
                        && wrapper_from_protocol(p@) == Err::<WrapperModel, Seq<char>>(msg@)
                },
            },
    {
        match p {
            Protocol::Json(j) => {
                let parsed = parse_text_exec(j.0.as_str());
                match parsed {
                    Some(v) => match v {
                        JsonValue::Obj(ms) => interp_exec(ms, j),
                        _ => Ok(ProtocolWrapper::RawProtocol(Protocol::Json(j))),
                    },
                    None => Ok(ProtocolWrapper::RawProtocol(Protocol::Json(j))),
                }
            },
            other => Ok(ProtocolWrapper::RawProtocol(other)),
        }
    }
}

/// The decode error of a recognized but malformed control frame.
fn malformed_err(m: &String) -> (r: NetError)
    ensures
        (r matches NetError::DecodeError(msg) && msg@ == malformed_msg(m@)),
{
    let mut msg = "malformed ".to_owned();
    msg.append(m.as_str());
    msg.append(" frame");
    NetError::DecodeError(msg)
}

/// Interpret a parsed JSON object; `j` is the whole text, kept for the
/// raw fallback.
fn interp_exec(ms: Vec<(String, JsonValue)>, j: JsonString) -> (r: NetResult<ProtocolWrapper>)
    ensures
        match r {
            Ok(w) => interp_obj(jv_member_models(ms@), j@) == Ok::<WrapperModel, Seq<char>>(w@),
            Err(e) => {
                &&& e matches NetError::DecodeError(msg)
                    && interp_obj(jv_member_models(ms@), j@) == Err::<WrapperModel, Seq<char>>(
                        msg@,
                    )
            },
        },
{
    let method = get_str(&ms, "method");
    match method {
        Some(m) => {
            if crate::json::str_eq(m.as_str(), "requestState") {
                Ok(ProtocolWrapper::RequestState)
            } else if crate::json::str_eq(m.as_str(), "state") {
                let state = get_str_or(&ms, "state", "undefined");
                let id = get_str_or(&ms, "id", "undefined");
                let bindings = get_bindings(&ms);
                Ok(ProtocolWrapper::State(StateData { state, id, bindings }))
            } else if crate::json::str_eq(m.as_str(), "requestDefaultConfig") {
                Ok(ProtocolWrapper::RequestDefaultConfig)
            } else if crate::json::str_eq(m.as_str(), "defaultConfig") {
                match get_str(&ms, "config") {
                    Some(config) => Ok(ProtocolWrapper::DefaultConfig(ConfigData { config })),
                    None => Err(malformed_err(&m)),
                }
            } else if crate::json::str_eq(m.as_str(), "setConfig") {
                match get_str(&ms, "config") {
                    Some(config) => Ok(ProtocolWrapper::SetConfig(ConfigData { config })),
                    None => Err(malformed_err(&m)),
                }
            } else if crate::json::str_eq(m.as_str(), "connect") {
                match get_str(&ms, "address") {
                    Some(address) => Ok(ProtocolWrapper::Connect(ConnectData { address })),
                    None => Err(malformed_err(&m)),
                }
            } else if crate::json::str_eq(m.as_str(), "peerConnected") {
                match get_str(&ms, "id") {
                    Some(id) => Ok(ProtocolWrapper::PeerConnected(PeerConnectData { id })),
                    None => Err(malformed_err(&m)),
                }
            } else if crate::json::str_eq(m.as_str(), "send") {
                let mi = get_str(&ms, "_id");
                let ta = get_str(&ms, "toAddress");
                match (mi, ta) {
                    (Some(msg_id), Some(to_address)) => {
                        let data = take_data(ms);
                        Ok(ProtocolWrapper::SendMessage(SendData { msg_id, to_address, data }))
                    },
                    _ => Err(malformed_err(&m)),
                }
            } else if crate::json::str_eq(m.as_str(), "handleSend") {
                let mi = get_str(&ms, "_id");
                let ta = get_str(&ms, "toAddress");
                let fa = get_str(&ms, "fromAddress");
                match (mi, ta, fa) {
                    (Some(msg_id), Some(to_address), Some(from_address)) => {
                        let data = take_data(ms);
                        Ok(ProtocolWrapper::HandleSend(HandleSendData {
                            msg_id,
                            to_address,
                            from_address,
                            data,
                        }))
                    },
                    _ => Err(malformed_err(&m)),
                }
            } else {
                Ok(ProtocolWrapper::RawProtocol(Protocol::Json(j)))
            }
        },
        None => Ok(ProtocolWrapper::RawProtocol(Protocol::Json(j))),
    }
}

} // verus!
