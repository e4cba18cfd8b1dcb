use holochain_net::json::{JsonValue, emit_value, parse_text_exec};
use holochain_net::protocol::Protocol;
use holochain_net::protocol_wrapper::{ConfigData, ConnectData, HandleSendData, PeerConnectData,
    ProtocolWrapper, SendData, StateData};

fn state_data() -> StateData {
    StateData {
        state: "test_state".to_string(),
        id: "test_id".to_string(),
        bindings: vec!["test_b1".to_string(), "test_b2".to_string()],
    }
}

#[test]
fn it_can_convert_request_state() {
    let p: Protocol = ProtocolWrapper::RequestState.into_protocol();
    assert_eq!("{\"method\":\"requestState\"}", &p.as_json_string());
    let w = ProtocolWrapper::from_protocol(p).unwrap();
    assert_eq!(ProtocolWrapper::RequestState, w);
}

#[test]
fn it_can_convert_state() {
    let p: Protocol = ProtocolWrapper::State(state_data()).into_protocol();
    let w = ProtocolWrapper::from_protocol(p).unwrap();
    assert_eq!(ProtocolWrapper::State(state_data()), w);
}

#[test]
fn it_can_convert_request_default_config() {
    let p: Protocol = ProtocolWrapper::RequestDefaultConfig.into_protocol();
    let w = ProtocolWrapper::from_protocol(p).unwrap();
    assert_eq!(ProtocolWrapper::RequestDefaultConfig, w);
}

#[test]
fn it_can_convert_default_config() {
    let orig = || ProtocolWrapper::DefaultConfig(ConfigData { config: "test_config".to_string() });
    let p: Protocol = orig().into_protocol();
    let w = ProtocolWrapper::from_protocol(p).unwrap();
    assert_eq!(orig(), w);
}

#[test]
fn it_can_convert_set_config() {
    let orig = || ProtocolWrapper::SetConfig(ConfigData { config: "test_config".to_string() });
    let p: Protocol = orig().into_protocol();
    let w = ProtocolWrapper::from_protocol(p).unwrap();
    assert_eq!(orig(), w);
}

#[test]
fn it_can_convert_connect_and_peer_connected() {
    let c = || ProtocolWrapper::Connect(ConnectData { address: "wss://peer".to_string() });
    let w = ProtocolWrapper::from_protocol(c().into_protocol()).unwrap();
    assert_eq!(c(), w);

    let pc = || ProtocolWrapper::PeerConnected(PeerConnectData { id: "peer-1".to_string() });
    let w = ProtocolWrapper::from_protocol(pc().into_protocol()).unwrap();
    assert_eq!(pc(), w);
}

#[test]
fn it_can_convert_send_message_with_data() {
    let orig = || ProtocolWrapper::SendMessage(SendData {
        msg_id: "unique-id".to_string(),
        to_address: "addr-1".to_string(),
        data: JsonValue::Obj(vec![
            ("n".to_string(), JsonValue::Num("42".to_string())),
            ("ok".to_string(), JsonValue::Bool(true)),
            ("t".to_string(), JsonValue::Arr(vec![JsonValue::Null,
                JsonValue::Str("x".to_string())])),
        ]),
    });
    let p: Protocol = orig().into_protocol();
    assert_eq!(
        "{\"method\":\"send\",\"_id\":\"unique-id\",\"toAddress\":\"addr-1\",\
         \"data\":{\"n\":42,\"ok\":true,\"t\":[null,\"x\"]}}",
        &p.as_json_string()
    );
    let w = ProtocolWrapper::from_protocol(p).unwrap();
    assert_eq!(orig(), w);
}

#[test]
fn it_can_convert_handle_send() {
    let orig = || ProtocolWrapper::HandleSend(HandleSendData {
        msg_id: "m-1".to_string(),
        to_address: "to".to_string(),
        from_address: "from".to_string(),
        data: JsonValue::Str("test data".to_string()),
    });
    let w = ProtocolWrapper::from_protocol(orig().into_protocol()).unwrap();
    assert_eq!(orig(), w);
}

#[test]
fn strings_with_escapes_round_trip() {
    let orig = || ProtocolWrapper::State(StateData {
        state: "with \"quotes\" and \\slashes\\".to_string(),
        id: "line\nbreak\ttab".to_string(),
        bindings: vec!["control \u{0001} char".to_string()],
    });
    let p: Protocol = orig().into_protocol();
    let w = ProtocolWrapper::from_protocol(p).unwrap();
    assert_eq!(orig(), w);
}

#[test]
fn unknown_method_decodes_to_raw() {
    let p = Protocol::from_json_str("{\"method\":\"fancyNewThing\",\"x\":1}");
    let w = ProtocolWrapper::from_protocol(p).unwrap();
    match w {
        ProtocolWrapper::RawProtocol(raw) => {
            assert_eq!("{\"method\":\"fancyNewThing\",\"x\":1}", raw.as_json_string());
        },
        other => panic!("expected a raw frame, got {:?}", other),
    }
}

#[test]
fn malformed_json_decodes_to_raw() {
    let p = Protocol::from_json_str("{not json at all");
    let w = ProtocolWrapper::from_protocol(p).unwrap();
    assert!(matches!(w, ProtocolWrapper::RawProtocol(_)));
}

#[test]
fn non_json_frames_decode_to_raw() {
    let p = Protocol::Ready;
    let w = ProtocolWrapper::from_protocol(p).unwrap();
    assert_eq!(ProtocolWrapper::RawProtocol(Protocol::Ready), w);
}

#[test]
fn state_with_missing_fields_reads_undefined() {
    let p = Protocol::from_json_str("{\"method\":\"state\"}");
    let w = ProtocolWrapper::from_protocol(p).unwrap();
    assert_eq!(
        ProtocolWrapper::State(StateData {
            state: "undefined".to_string(),
            id: "undefined".to_string(),
            bindings: vec![],
        }),
        w
    );
}

#[test]
fn state_with_mixed_bindings_reads_undefined_entries() {
    let p = Protocol::from_json_str(
        "{\"method\":\"state\",\"state\":\"s\",\"id\":\"i\",\"bindings\":[\"b\",7]}",
    );
    let w = ProtocolWrapper::from_protocol(p).unwrap();
    assert_eq!(
        ProtocolWrapper::State(StateData {
            state: "s".to_string(),
            id: "i".to_string(),
            bindings: vec!["b".to_string(), "undefined".to_string()],
        }),
        w
    );
}

#[test]
fn malformed_recognized_method_is_a_decode_error() {
    let p = Protocol::from_json_str("{\"method\":\"defaultConfig\",\"config\":7}");
    let e = ProtocolWrapper::from_protocol(p).expect_err("a recognized but malformed frame");
    assert_eq!("malformed defaultConfig frame", e.message());

    let p = Protocol::from_json_str("{\"method\":\"send\",\"toAddress\":\"a\"}");
    let e = ProtocolWrapper::from_protocol(p).expect_err("send without _id");
    assert_eq!("malformed send frame", e.message());

    let p = Protocol::from_json_str("{\"method\":\"connect\"}");
    let e = ProtocolWrapper::from_protocol(p).expect_err("connect without address");
    assert_eq!("malformed connect frame", e.message());
}

#[test]
fn standard_whitespace_is_accepted() {
    let p = Protocol::from_json_str(
        " {\n  \"method\": \"state\" ,\n  \"state\": \"s\",\n  \"id\": \"i\",\n  \"bindings\": [ \"b1\" , \"b2\" ]\n}\r\n",
    );
    let w = ProtocolWrapper::from_protocol(p).unwrap();
    assert_eq!(
        ProtocolWrapper::State(StateData {
            state: "s".to_string(),
            id: "i".to_string(),
            bindings: vec!["b1".to_string(), "b2".to_string()],
        }),
        w
    );

    let p = Protocol::from_json_str("{ \"method\" : \"requestState\" }");
    let w = ProtocolWrapper::from_protocol(p).unwrap();
    assert_eq!(ProtocolWrapper::RequestState, w);
}

#[test]
fn unicode_escapes_are_accepted() {
    // a plain BMP escape, an escape above \u00ff, and a surrogate pair
    let v = parse_text_exec("\"\\u0041 \\u2603 \\ud83d\\ude00\"").unwrap();
    assert_eq!(JsonValue::Str("A \u{2603} \u{1F600}".to_string()), v);

    // a lone surrogate names nothing
    assert!(parse_text_exec("\"\\ud83d\"").is_none());
    assert!(parse_text_exec("\"\\ude00\"").is_none());
}

#[test]
fn json_values_round_trip_through_their_text() {
    let v = JsonValue::Obj(vec![
        ("a".to_string(), JsonValue::Num("-1.5e3".to_string())),
        ("b".to_string(), JsonValue::Arr(vec![
            JsonValue::Bool(false),
            JsonValue::Null,
            JsonValue::Obj(vec![]),
            JsonValue::Arr(vec![]),
        ])),
        ("c".to_string(), JsonValue::Str("s".to_string())),
    ]);
    let text = emit_value(&v);
    assert_eq!("{\"a\":-1.5e3,\"b\":[false,null,{},[]],\"c\":\"s\"}", &text);
    let back = parse_text_exec(&text).unwrap();
    assert_eq!(v, back);
}

#[test]
fn parser_rejects_trailing_text() {
    assert!(parse_text_exec("{}x").is_none());
    assert!(parse_text_exec("").is_none());
    assert!(parse_text_exec("{\"a\":}").is_none());
}
