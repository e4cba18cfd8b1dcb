//! The message-oriented datagram socket the IPC client runs on.
//!
//! The in-memory mock stands for the out-of-process daemon in tests and
//! demos: it records every multipart message sent through it, in order,
//! and serves injected inbound messages.  A fresh mock is silent;
//! `inject_pong` queues the canned pong a live server answers the
//! connect probes with, and `inject_message` queues an arbitrary
//! inbound message.

use vstd::prelude::*;

use crate::NetResult;
use crate::protocol::{PongData, Protocol, ProtocolModel};
use crate::wire::{build_envelope, envelope_frames, frames_view};

verus! {

broadcast use vstd::seq::group_seq_axioms;

/// The mathematical state of a socket: connection flag, pending inbound
/// messages, and the log of sent messages, oldest first.
pub struct SocketModel {
    pub connected: bool,
    pub inbox: Seq<Seq<Seq<u8>>>,
    pub sent: Seq<Seq<Seq<u8>>>,
}

/// The byte-level view of a queue of multipart messages.
pub open spec fn msgs_view(v: Seq<Vec<Vec<u8>>>) -> Seq<Seq<Seq<u8>>> {
    Seq::new(v.len(), |i: int| frames_view(v[i]@))
}

/// The canned pong message a mock serves: the greeting of the server.
pub open spec fn canned_pong() -> Seq<Seq<u8>> {
    envelope_frames(ProtocolModel::Pong(0, 0))
}

/// An in-memory socket: inbound messages are injected, outbound ones
/// are recorded.
#[derive(Debug)]
pub struct MockIpcSocket {
    connected: bool,
    inbox: Vec<Vec<Vec<u8>>>,
    sent: Vec<Vec<Vec<u8>>>,
}

impl View for MockIpcSocket {
    type V = SocketModel;

    closed spec fn view(&self) -> SocketModel {
        SocketModel {
            connected: self.connected,
            inbox: msgs_view(self.inbox@),
            sent: msgs_view(self.sent@),
        }
    }
}

impl MockIpcSocket {
    /// A fresh, silent mock: nothing pending and nothing sent.
    pub fn new() -> (r: MockIpcSocket)
        ensures
            !r@.connected,
            r@.inbox == Seq::<Seq<Seq<u8>>>::empty(),
            r@.sent == Seq::<Seq<Seq<u8>>>::empty(),
    {
        let r = MockIpcSocket { connected: false, inbox: Vec::new(), sent: Vec::new() };
        proof {
            assert(r@.inbox =~= Seq::<Seq<Seq<u8>>>::empty());
            assert(r@.sent =~= Seq::<Seq<Seq<u8>>>::empty());
        }
        r
    }

    /// Connect; the mock accepts any address.
    pub fn connect(&mut self, uri: &str) -> (r: NetResult<()>)
        ensures
            r is Ok,
            final(self)@ == (SocketModel { connected: true, ..old(self)@ }),
    {
        self.connected = true;
        Ok(())
    }

    /// Whether an inbound message is pending; the mock never waits.
    pub fn poll(&self, timeout_ms: u64) -> (r: NetResult<bool>)
        ensures
            r == Ok::<bool, crate::NetError>(self@.inbox.len() > 0),
    {
        Ok(self.inbox.len() > 0)
    }

    /// Take the oldest pending inbound message.  Call only after `poll`
    /// reported one.
    pub fn recv(&mut self) -> (r: NetResult<Vec<Vec<u8>>>)
        requires
            old(self)@.inbox.len() > 0,
        ensures
            match r {
                Ok(msg) => {
                    &&& frames_view(msg@) == old(self)@.inbox[0]
                    &&& final(self)@ == (SocketModel {
                        inbox: old(self)@.inbox.drop_first(),
                        ..old(self)@
                    })
                },
                Err(_) => false,
            },
    {
        let msg = self.inbox.remove(0);
        proof {
            assert(msgs_view(self.inbox@) =~= old(self)@.inbox.drop_first());
        }
        Ok(msg)
    }

    /// Send one multipart message: all frames or nothing, appended to
    /// the sent log in order.
    pub fn send(&mut self, frames: Vec<Vec<u8>>) -> (r: NetResult<()>)
        ensures
            r is Ok,
            final(self)@ == (SocketModel {
                sent: old(self)@.sent.push(frames_view(frames@)),
                ..old(self)@
            }),
    {
        let ghost fv = frames_view(frames@);
        self.sent.push(frames);
        proof {
            assert(msgs_view(self.sent@) =~= old(self)@.sent.push(fv));
        }
        Ok(())
    }

    /// Release the socket.
    pub fn close(self) -> (r: NetResult<()>)
        ensures
            r is Ok,
    {
        Ok(())
    }

    /// Queue another canned pong, as from a live server.
    pub fn inject_pong(&mut self)
        ensures
            final(self)@ == (SocketModel {
                inbox: old(self)@.inbox.push(canned_pong()),
                ..old(self)@
            }),
    {
        let pong = build_envelope(&Protocol::Pong(PongData { orig: 0, recv: 0 }));
        self.inbox.push(pong);
        proof {
            assert(msgs_view(self.inbox@) =~= old(self)@.inbox.push(canned_pong()));
        }
    }

    /// Queue an arbitrary inbound message, as from a live server.
    pub fn inject_message(&mut self, msg: Vec<Vec<u8>>)
        ensures
            final(self)@ == (SocketModel {
                inbox: old(self)@.inbox.push(frames_view(msg@)),
                ..old(self)@
            }),
    {
        let ghost fv = frames_view(msg@);
        self.inbox.push(msg);
        proof {
            assert(msgs_view(self.inbox@) =~= old(self)@.inbox.push(fv));
        }
    }

    /// The log of sent messages, oldest first.
    pub fn sent_log(&self) -> (r: &Vec<Vec<Vec<u8>>>)
        ensures
            msgs_view(r@) == self@.sent,
    {
        &self.sent
    }
}

/// The socket a client runs on.  The in-memory mock is the variant this
/// crate can host; a live local transport would stand beside it.
#[derive(Debug)]
pub enum IpcSocket {
    Mock(MockIpcSocket),
}

impl View for IpcSocket {
    type V = SocketModel;

    closed spec fn view(&self) -> SocketModel {
        match self {
            IpcSocket::Mock(m) => m@,
        }
    }
}

impl IpcSocket {
    /// A fresh in-memory socket primed with the server's greeting, as
    /// the worker factory uses: bring-up over it completes at the
    /// first poll.
    pub fn new_mock() -> (r: IpcSocket)
        ensures
            !r@.connected,
            r@.inbox == seq![canned_pong()],
            r@.sent == Seq::<Seq<Seq<u8>>>::empty(),
    {
        let mut m = MockIpcSocket::new();
        m.inject_pong();
        proof {
            assert(m@.inbox =~= seq![canned_pong()]);
        }
        IpcSocket::Mock(m)
    }

    /// Connect to the given address.
    pub fn connect(&mut self, uri: &str) -> (r: NetResult<()>)
        ensures
            r is Ok,
            final(self)@ == (SocketModel { connected: true, ..old(self)@ }),
    {
        match self {
            IpcSocket::Mock(m) => m.connect(uri),
        }
    }

    /// Whether an inbound message is pending.
    pub fn poll(&self, timeout_ms: u64) -> (r: NetResult<bool>)
        ensures
            r == Ok::<bool, crate::NetError>(self@.inbox.len() > 0),
    {
        match self {
            IpcSocket::Mock(m) => m.poll(timeout_ms),
        }
    }

    /// Take the oldest pending inbound message.
    pub fn recv(&mut self) -> (r: NetResult<Vec<Vec<u8>>>)
        requires
            old(self)@.inbox.len() > 0,
        ensures
            match r {
                Ok(msg) => {
                    &&& frames_view(msg@) == old(self)@.inbox[0]
                    &&& final(self)@ == (SocketModel {
                        inbox: old(self)@.inbox.drop_first(),
                        ..old(self)@
                    })
                },
                Err(_) => false,
            },
    {
        match self {
            IpcSocket::Mock(m) => m.recv(),
        }
    }

    /// Send one multipart message.
    pub fn send(&mut self, frames: Vec<Vec<u8>>) -> (r: NetResult<()>)
        ensures
            r is Ok,
            final(self)@ == (SocketModel {
                sent: old(self)@.sent.push(frames_view(frames@)),
                ..old(self)@
            }),
    {
        match self {
            IpcSocket::Mock(m) => m.send(frames),
        }
    }

    /// Release the socket.
    pub fn close(self) -> (r: NetResult<()>)
        ensures
            r is Ok,
    {
        match self {
            IpcSocket::Mock(m) => m.close(),
        }
    }

    /// The log of sent messages, oldest first.
    pub fn sent_log(&self) -> (r: &Vec<Vec<Vec<u8>>>)
        ensures
            msgs_view(r@) == self@.sent,
    {
        match self {
            IpcSocket::Mock(m) => m.sent_log(),
        }
    }

    /// Queue an arbitrary inbound message, as from a live server; only
    /// the mock can take one.
    pub fn inject_message(&mut self, msg: Vec<Vec<u8>>)
        ensures
            final(self)@ == (SocketModel {
                inbox: old(self)@.inbox.push(frames_view(msg@)),
                ..old(self)@
            }),
    {
        match self {
            IpcSocket::Mock(m) => m.inject_message(msg),
        }
    }
}

} // verus!
