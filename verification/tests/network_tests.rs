use holochain_net::p2p_network::P2pNetwork;
use holochain_net::ipc_net_worker::IpcNetWorker;
use holochain_net::protocol::{JsonString, Protocol};
use holochain_net::protocol_wrapper::{ConfigData, ProtocolWrapper, StateData};
use holochain_net::wire::build_envelope;

fn mock_config() -> JsonString {
    JsonString(
        "{\"backend\":\"ipc\",\"config\":{\"socketType\":\"mock\",\"ipcUri\":\"ipc://test\"}}"
            .to_string(),
    )
}

fn state_frame(state: &str) -> Vec<Vec<u8>> {
    let w = ProtocolWrapper::State(StateData {
        state: state.to_string(),
        id: "server-id".to_string(),
        bindings: vec!["wss://bound".to_string()],
    });
    build_envelope(&w.into_protocol())
}

#[test]
fn it_should_fail_bad_backend_type() {
    let res = P2pNetwork::new(&JsonString("{\"backend\":\"bad\"}".to_string()), 0)
        .expect_err("should have thrown")
        .message();
    assert!(res.contains("backend: \"bad\""), "res: {}", res);
}

#[test]
fn missing_backend_reads_as_null() {
    let res = P2pNetwork::new(&JsonString("{}".to_string()), 0)
        .expect_err("should have thrown")
        .message();
    assert_eq!("unknown p2p_network backend: null", res);
}

#[test]
fn unexpected_socket_type_is_refused() {
    let cfg = JsonString(
        "{\"backend\":\"ipc\",\"config\":{\"socketType\":\"local\",\"ipcUri\":\"ipc://x\"}}"
            .to_string(),
    );
    let res = P2pNetwork::new(&cfg, 0).expect_err("only the mock transport can be hosted");
    assert_eq!("unexpected socketType", res.message());
}

#[test]
fn facade_comes_up_and_sends() {
    let mut net = P2pNetwork::new(&mock_config(), 0).unwrap();
    let f1 = Protocol::from_json_str("{\"hello\":1}");
    let f2 = Protocol::from_json_str("{\"hello\":2}");
    net.send(&f1, 1).unwrap();
    net.send(&f2, 2).unwrap();
    assert_eq!(2, net.sent_log().len());
    assert_eq!(build_envelope(&f1), net.sent_log()[0]);
    assert_eq!(build_envelope(&f2), net.sent_log()[1]);
    net.destroy().unwrap();
}

#[test]
fn handshake_drives_to_ready_with_one_ready_signal() {
    let mut net = P2pNetwork::new(&mock_config(), 0).unwrap();

    // first tick: the periodic state request goes out, the greeting
    // pong comes in
    let t = net.tick(501).unwrap();
    assert!(t.did_work);
    assert!(!t.ready);
    assert!(t.frame.unwrap().unwrap().is_pong());

    // the daemon needs a configuration
    net.inject_message(state_frame("need_config"));
    let t = net.tick(502).unwrap();
    assert!(!t.ready);
    assert!(t.frame.unwrap().unwrap().is_json());

    // it offers its default; the worker sets it
    net.inject_message(build_envelope(
        &ProtocolWrapper::DefaultConfig(ConfigData { config: "X".to_string() }).into_protocol(),
    ));
    let t = net.tick(503).unwrap();
    assert!(!t.ready);

    // it reports ready: the synthetic Ready signal fires, once
    net.inject_message(state_frame("ready"));
    let t = net.tick(504).unwrap();
    assert!(t.ready);

    // and never again
    net.inject_message(state_frame("ready"));
    let t = net.tick(505).unwrap();
    assert!(!t.ready);
    let t = net.tick(506).unwrap();
    assert!(!t.ready);

    // the outbound control sequence is exactly request-state,
    // request-default-config, set-config
    let expected: Vec<Vec<Vec<u8>>> = vec![
        build_envelope(&ProtocolWrapper::RequestState.into_protocol()),
        build_envelope(&ProtocolWrapper::RequestDefaultConfig.into_protocol()),
        build_envelope(
            &ProtocolWrapper::SetConfig(ConfigData { config: "X".to_string() }).into_protocol(),
        ),
    ];
    assert_eq!(&expected, net.sent_log());

    net.destroy().unwrap();
}

#[test]
fn worker_builds_from_its_config() {
    let cfg = JsonString("{\"socketType\":\"mock\",\"ipcUri\":\"ipc://test\"}".to_string());
    let w = IpcNetWorker::new(&cfg, 0).unwrap();
    w.destroy().unwrap();
}

#[test]
fn worker_refuses_a_config_without_uri() {
    let cfg = JsonString("{\"socketType\":\"mock\"}".to_string());
    assert!(IpcNetWorker::new(&cfg, 0).is_err());
}

#[test]
fn malformed_control_frame_is_delivered_as_an_error() {
    let cfg = JsonString("{\"socketType\":\"mock\",\"ipcUri\":\"ipc://test\"}".to_string());
    let mut w = IpcNetWorker::new(&cfg, 0).unwrap();
    w.tick(1).unwrap(); // greeting
    w.inject_message(build_envelope(&Protocol::from_json_str(
        "{\"method\":\"setConfig\",\"config\":7}",
    )));
    let t = w.tick(2).unwrap();
    match t.frame {
        Some(Err(e)) => assert_eq!("malformed setConfig frame", e.message()),
        other => panic!("expected a delivered decode error, got {:?}", other),
    }
    // the error was not fatal: the worker goes on ticking
    let t = w.tick(3).unwrap();
    assert!(!t.ready);
    w.destroy().unwrap();
}

#[test]
fn state_reports_update_the_worker_fields() {
    let cfg = JsonString("{\"socketType\":\"mock\",\"ipcUri\":\"ipc://test\"}".to_string());
    let mut w = IpcNetWorker::new(&cfg, 0).unwrap();
    w.tick(1).unwrap(); // greeting
    w.inject_message(state_frame("odd_state"));
    let t = w.tick(2).unwrap();
    assert!(!t.ready); // anything but "ready" leaves the latch alone
    w.inject_message(state_frame("ready"));
    let t = w.tick(3).unwrap();
    assert!(t.ready);
    w.destroy().unwrap();
}
