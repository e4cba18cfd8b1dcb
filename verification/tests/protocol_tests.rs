use holochain_net::protocol::{NamedBinaryData, PingData, PongData, Protocol};
use holochain_net::wire::{build_envelope, decode_envelope, decode_protocol, encode_protocol};

fn round_trip(p: &Protocol) -> Protocol {
    let wire = encode_protocol(p);
    decode_protocol(&wire.name, &wire.data).unwrap()
}

#[test]
fn it_can_convert_named_binary() {
    let nb_src = Protocol::NamedBinary(NamedBinaryData {
        name: b"test".to_vec(),
        data: b"hello".to_vec(),
    });

    let res = round_trip(&nb_src);

    assert!(res.is_named_binary());

    let res = res.as_named_binary();

    assert_eq!(b"test".to_vec(), res.name);
    assert_eq!(b"hello".to_vec(), res.data);
}

#[test]
fn it_can_convert_json() {
    let json_str = "{\"test\": \"hello\"}";
    let json = Protocol::from_json_str(json_str);

    let res = round_trip(&json);

    assert!(res.is_json());

    let res = res.as_json_string();

    assert_eq!(json_str, res);
}

#[test]
fn it_can_convert_ping() {
    let src = Protocol::Ping(PingData { sent: 42 });

    let res = round_trip(&src);

    assert!(res.is_ping());

    let res = res.as_ping();

    assert_eq!(42, res.sent);
}

#[test]
fn it_can_convert_pong() {
    let src = Protocol::Pong(PongData { orig: 42, recv: 88 });

    let res = round_trip(&src);

    assert!(res.is_pong());

    let res = res.as_pong();

    assert_eq!(42, res.orig);
    assert_eq!(88, res.recv);
}

#[test]
fn json_payload_is_the_raw_text_bytes() {
    let json = Protocol::from_json_str("{\"test\":\"hello\"}");
    let wire = encode_protocol(&json);
    assert_eq!(b"json".to_vec(), wire.name);
    assert_eq!(b"{\"test\":\"hello\"}".to_vec(), wire.data);
}

#[test]
fn json_round_trips_beyond_ascii() {
    let json = Protocol::from_json_str("{\"greeting\":\"gr\u{00fc}\u{00df} \u{4e16}\u{754c}\"}");
    let res = round_trip(&json);
    assert_eq!("{\"greeting\":\"gr\u{00fc}\u{00df} \u{4e16}\u{754c}\"}", res.as_json_string());
}

#[test]
fn named_binary_wire_bytes_are_exact() {
    let src = Protocol::NamedBinary(NamedBinaryData { name: b"ab".to_vec(), data: b"c".to_vec() });
    let wire = encode_protocol(&src);
    assert_eq!(b"namedBinary".to_vec(), wire.name);
    let expected: Vec<u8> = vec![
        0x82, // map of two entries
        0xa4, 0x6e, 0x61, 0x6d, 0x65, // "name"
        0xc4, 0x02, 0x61, 0x62, // bin "ab"
        0xa4, 0x64, 0x61, 0x74, 0x61, // "data"
        0xc4, 0x01, 0x63, // bin "c"
    ];
    assert_eq!(expected, wire.data);
}

#[test]
fn ping_wire_bytes_are_exact() {
    let src = Protocol::Ping(PingData { sent: 1 });
    let wire = encode_protocol(&src);
    assert_eq!(b"ping".to_vec(), wire.name);
    let expected: Vec<u8> = vec![
        0x81, // map of one entry
        0xa4, 0x73, 0x65, 0x6e, 0x74, // "sent"
        0xcf, 0, 0, 0, 0, 0, 0, 0, 1, // uint 64
    ];
    assert_eq!(expected, wire.data);
}

#[test]
fn unknown_tag_is_a_decode_error() {
    let r = decode_protocol(&b"mystery".to_vec(), &b"".to_vec());
    match r {
        Err(e) => assert_eq!("bad Protocol type", e.message()),
        Ok(_) => panic!("an unknown tag must not decode"),
    }
}

#[test]
fn bad_frame_count_is_a_decode_error() {
    let msg: Vec<Vec<u8>> = vec![vec![0x24, 0x24, 0x24, 0x24], vec![], b"ping".to_vec()];
    match decode_envelope(&msg) {
        Err(e) => assert_eq!("bad msg len", e.message()),
        Ok(_) => panic!("a three-frame message must not decode"),
    }
}

#[test]
fn malformed_ping_payload_is_a_decode_error() {
    let r = decode_protocol(&b"ping".to_vec(), &b"junk".to_vec());
    assert!(r.is_err());
}

#[test]
fn envelope_has_route_prefix_and_delimiter() {
    let env = build_envelope(&Protocol::Ping(PingData { sent: 7 }));
    assert_eq!(4, env.len());
    assert_eq!(vec![0x24, 0x24, 0x24, 0x24], env[0]);
    assert_eq!(Vec::<u8>::new(), env[1]);
    assert_eq!(b"ping".to_vec(), env[2]);
    let back = decode_envelope(&env).unwrap();
    assert_eq!(Protocol::Ping(PingData { sent: 7 }), back);
}
