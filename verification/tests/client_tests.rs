use holochain_net::NetError;
use holochain_net::ipc_client::IpcClient;
use holochain_net::net_connection::{NetConnectionRelay, next_idle_sleep_us};
use holochain_net::protocol::{NamedBinaryData, PingData, Protocol};
use holochain_net::socket::{IpcSocket, MockIpcSocket};
use holochain_net::wire::build_envelope;

fn connected_client() -> IpcClient {
    let mut m = MockIpcSocket::new();
    m.inject_pong();
    let mut s = IpcSocket::Mock(m);
    s.connect("ipc://test-socket.socket").unwrap();
    IpcClient::new(s, 0).unwrap()
}

#[test]
fn it_can_create() {
    // mock bring-up: with a pong injected the constructor returns at once
    let mut m = MockIpcSocket::new();
    m.inject_pong();
    let mut s = IpcSocket::Mock(m);
    s.connect("ipc://test-socket.socket").unwrap();
    IpcClient::new(s, 0).unwrap();
}

#[test]
fn bring_up_times_out_on_a_silent_server() {
    let mut s = IpcSocket::Mock(MockIpcSocket::new());
    s.connect("ipc://test-socket.socket").unwrap();
    match IpcClient::new(s, 0) {
        Err(e) => assert_eq!(NetError::ConnectInitTimeout, e),
        Ok(_) => panic!("bring-up over a silent server must fail"),
    }
}

#[test]
fn first_tick_delivers_the_greeting() {
    let mut c = connected_client();
    let t = c.tick(1).unwrap();
    assert!(t.did_work);
    let frame = t.frame.expect("the greeting pong should be delivered").unwrap();
    assert!(frame.is_pong());
}

#[test]
fn heartbeat_fires_after_half_a_second() {
    let mut c = connected_client();
    c.tick(1).unwrap(); // greeting
    assert_eq!(0, c.sent_log().len());

    let t = c.tick(600).unwrap();
    assert!(t.did_work);
    assert!(t.frame.is_none());
    // exactly one ping went out
    assert_eq!(1, c.sent_log().len());
    assert_eq!(build_envelope(&Protocol::Ping(PingData { sent: 600 })), c.sent_log()[0]);

    // and none again while the interval has not elapsed
    let t = c.tick(601).unwrap();
    assert!(!t.did_work);
    assert_eq!(1, c.sent_log().len());
}

#[test]
fn idle_connection_times_out() {
    let mut c = connected_client();
    c.tick(1).unwrap(); // greeting; the receive clock reads 1
    match c.tick(2700) {
        Err(e) => assert_eq!(NetError::IpcTimeout, e),
        Ok(_) => panic!("2699 ms of silence must time the connection out"),
    }
    assert_eq!("ipc connection timeout", NetError::IpcTimeout.message());
}

#[test]
fn inbound_ping_is_answered_with_a_pong() {
    let mut c = connected_client();
    c.tick(1).unwrap(); // greeting
    c.inject_message(build_envelope(&Protocol::Ping(PingData { sent: 42 })));
    let t = c.tick(100).unwrap();
    assert_eq!(Some(Ok(Protocol::Ping(PingData { sent: 42 }))), t.frame);
    assert_eq!(1, c.sent_log().len());
    let pong = holochain_net::protocol::PongData { orig: 42, recv: 100 };
    assert_eq!(build_envelope(&Protocol::Pong(pong)), c.sent_log()[0]);
}

#[test]
fn garbage_on_the_wire_is_a_decode_error_but_not_fatal() {
    let mut c = connected_client();
    c.tick(1).unwrap();
    c.inject_message(vec![vec![], vec![], b"ping".to_vec(), b"junk".to_vec()]);
    // the error is delivered to the owner; the connection goes on
    let t = c.tick(2).unwrap();
    match t.frame {
        Some(Err(e)) => assert_eq!("malformed ping payload", e.message()),
        other => panic!("expected a delivered decode error, got {:?}", other),
    }
    let t = c.tick(3).unwrap();
    assert!(!t.did_work);
}

#[test]
fn frames_reach_the_socket_in_submission_order() {
    let mut c = connected_client();
    let f1 = Protocol::from_json_str("{\"a\":1}");
    let f2 = Protocol::NamedBinary(NamedBinaryData { name: b"n".to_vec(), data: b"d".to_vec() });
    let f3 = Protocol::Ping(PingData { sent: 9 });
    c.receive(&f1, 1).unwrap();
    c.receive(&f2, 2).unwrap();
    c.receive(&f3, 3).unwrap();
    assert_eq!(3, c.sent_log().len());
    assert_eq!(build_envelope(&f1), c.sent_log()[0]);
    assert_eq!(build_envelope(&f2), c.sent_log()[1]);
    assert_eq!(build_envelope(&f3), c.sent_log()[2]);
}

#[test]
fn net_connection_it_can_defaults() {
    let mut con = NetConnectionRelay::new(connected_client());
    con.send(&Protocol::from_json_str("test"), 1).unwrap();
    con.tick(2).unwrap();
    con.destroy().unwrap();
}

#[test]
fn net_connection_it_can_tick() {
    let mut con = NetConnectionRelay::new(connected_client());
    let t = con.tick(1).unwrap();
    assert!(t.did_work); // the greeting pong comes through the relay
    assert!(t.frame.unwrap().unwrap().is_pong());
    con.destroy().unwrap();
}

#[test]
fn idle_sleep_doubles_up_to_the_cap_and_resets() {
    let mut us: u64 = 100;
    let mut seen: Vec<u64> = Vec::new();
    for _ in 0..10 {
        us = next_idle_sleep_us(false, us);
        seen.push(us);
        assert!((100..=10_000).contains(&us));
    }
    assert_eq!(vec![200, 400, 800, 1600, 3200, 6400, 10_000, 10_000, 10_000, 10_000], seen);
    assert_eq!(100, next_idle_sleep_us(true, us));
    assert_eq!(100, next_idle_sleep_us(true, 100));
}
