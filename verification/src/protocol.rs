//! The wire protocol data model: a tagged sum over binary, opaque-JSON,
//! ping and pong frames, plus the synthetic local `Ready` signal.
//!
//! Timestamps travel as whole milliseconds since the epoch.  Exactly one
//! variant of [`Protocol`] is active at a time; the `Ready` variant is
//! never transmitted — the net worker injects it locally once the
//! handshake completes, and the wire codec in [`crate::wire`] refuses it.

use vstd::prelude::*;

verus! {

/// An opaque JSON text carried as a frame payload.
#[derive(Debug, Clone, PartialEq)]
pub struct JsonString(pub String);

impl View for JsonString {
    type V = Seq<char>;

    open spec fn view(&self) -> Seq<char> {
        self.0@
    }
}

/// An opaque binary envelope: a name tag and a payload.
#[derive(Debug, Clone, PartialEq)]
pub struct NamedBinaryData {
    pub name: Vec<u8>,
    pub data: Vec<u8>,
}

/// The mathematical model of a [`NamedBinaryData`].
pub struct NamedBinaryModel {
    pub name: Seq<u8>,
    pub data: Seq<u8>,
}

impl View for NamedBinaryData {
    type V = NamedBinaryModel;

    open spec fn view(&self) -> NamedBinaryModel {
        NamedBinaryModel { name: self.name@, data: self.data@ }
    }
}

/// A liveness probe carrying its send time in ms since the epoch.
#[derive(Debug, Clone, Copy, PartialEq, Eq, Structural)]
pub struct PingData {
    pub sent: u64,
}

/// The echo of a ping: the probe's send time and the local receive time.
#[derive(Debug, Clone, Copy, PartialEq, Eq, Structural)]
pub struct PongData {
    pub orig: u64,
    pub recv: u64,
}

/// One frame of the wire protocol.
#[derive(Debug, Clone, PartialEq)]
pub enum Protocol {
    NamedBinary(NamedBinaryData),
    Json(JsonString),
    Ping(PingData),
    Pong(PongData),
    /// Synthetic local signal: the handshake is complete.  Never on the wire.
    Ready,
}

/// The mathematical model of a [`Protocol`] frame.
pub enum ProtocolModel {
    NamedBinary(NamedBinaryModel),
    Json(Seq<char>),
    Ping(u64),
    Pong(u64, u64),
    Ready,
}

impl View for Protocol {
    type V = ProtocolModel;

    open spec fn view(&self) -> ProtocolModel {
        match self {
            Protocol::NamedBinary(nb) => ProtocolModel::NamedBinary(nb@),
            Protocol::Json(j) => ProtocolModel::Json(j@),
            Protocol::Ping(p) => ProtocolModel::Ping(p.sent),
            Protocol::Pong(p) => ProtocolModel::Pong(p.orig, p.recv),
            Protocol::Ready => ProtocolModel::Ready,
        }
    }
}

impl Protocol {
    /// Wrap a JSON text, given as a string slice, into a `Json` frame.
    pub fn from_json_str(s: &str) -> (r: Protocol)
        ensures
            r@ == ProtocolModel::Json(s@),
    {
        Protocol::Json(JsonString(s.to_owned()))
    }

    /// Wrap an owned JSON text into a `Json` frame.
    pub fn from_json_string(s: String) -> (r: Protocol)
        ensures
            r@ == ProtocolModel::Json(s@),
    {
        Protocol::Json(JsonString(s))
    }

    /// An equal frame, built field by field.
    pub fn duplicate(&self) -> (r: Protocol)
        ensures
            r@ == self@,
    {
        match self {
            Protocol::NamedBinary(nb) => {
                let mut name: Vec<u8> = Vec::new();
                let mut i: usize = 0;
                let n: usize = nb.name.len();
                while i < n
                    invariant
                        i <= n,
                        n == nb.name@.len(),
                        name@ == nb.name@.subrange(0, i as int),
                    decreases n - i,
                {
                    name.push(nb.name[i]);
                    i = i + 1;
                    assert(name@ =~= nb.name@.subrange(0, i as int));
                }
                assert(name@ =~= nb.name@);
                let mut data: Vec<u8> = Vec::new();
                let m: usize = nb.data.len();
                let mut k: usize = 0;
                while k < m
                    invariant
                        k <= m,
                        m == nb.data@.len(),
                        data@ == nb.data@.subrange(0, k as int),
                    decreases m - k,
                {
                    data.push(nb.data[k]);
                    k = k + 1;
                    assert(data@ =~= nb.data@.subrange(0, k as int));
                }
                assert(data@ =~= nb.data@);
                Protocol::NamedBinary(NamedBinaryData { name, data })
            },
            Protocol::Json(j) => Protocol::Json(JsonString(j.0.clone())),
            Protocol::Ping(p) => Protocol::Ping(PingData { sent: p.sent }),
            Protocol::Pong(p) => Protocol::Pong(PongData { orig: p.orig, recv: p.recv }),
            Protocol::Ready => Protocol::Ready,
        }
    }

    pub fn is_named_binary(&self) -> (r: bool)
        ensures
            r == (self@ is NamedBinary),
    {
        match self {
            Protocol::NamedBinary(_) => true,
            _ => false,
        }
    }

    /// The binary payload; the frame must hold one.
    pub fn as_named_binary(&self) -> (r: &NamedBinaryData)
        requires
            self@ is NamedBinary,
        ensures
            self@ == ProtocolModel::NamedBinary(r@),
    {
        match self {
            Protocol::NamedBinary(nb) => nb,
            _ => vstd::pervasive::unreached(),
        }
    }

    pub fn is_json(&self) -> (r: bool)
        ensures
            r == (self@ is Json),
    {
        match self {
            Protocol::Json(_) => true,
            _ => false,
        }
    }

    /// The JSON payload; the frame must hold one.
    pub fn as_json(&self) -> (r: &JsonString)
        requires
            self@ is Json,
        ensures
            self@ == ProtocolModel::Json(r@),
    {
        match self {
            Protocol::Json(j) => j,
            _ => vstd::pervasive::unreached(),
        }
    }

    /// The JSON payload as an owned string; the frame must hold one.
    pub fn as_json_string(&self) -> (r: String)
        requires
            self@ is Json,
        ensures
            self@ == ProtocolModel::Json(r@),
    {
        match self {
            Protocol::Json(j) => j.0.clone(),
            _ => vstd::pervasive::unreached(),
        }
    }

    pub fn is_ping(&self) -> (r: bool)
        ensures
            r == (self@ is Ping),
    {
        match self {
            Protocol::Ping(_) => true,
            _ => false,
        }
    }

    /// The ping payload; the frame must hold one.
    pub fn as_ping(&self) -> (r: &PingData)
        requires
            self@ is Ping,
        ensures
            self@ == ProtocolModel::Ping(r.sent),
    {
        match self {
            Protocol::Ping(p) => p,
            _ => vstd::pervasive::unreached(),
        }
    }

    pub fn is_pong(&self) -> (r: bool)
        ensures
            r == (self@ is Pong),
    {
        match self {
            Protocol::Pong(_) => true,
            _ => false,
        }
    }

    /// The pong payload; the frame must hold one.
    pub fn as_pong(&self) -> (r: &PongData)
        requires
            self@ is Pong,
        ensures
            self@ == ProtocolModel::Pong(r.orig, r.recv),
    {
        match self {
            Protocol::Pong(p) => p,
            _ => vstd::pervasive::unreached(),
        }
    }
}

} // verus!
