use gateway_client::codec::{decode_partial_text, decode_text, encode_text};
use gateway_client::error::Error;
use gateway_client::events::{Message, Ready as ReadyEvent};
use gateway_client::payload::{
    Body, Hello, Identify, IdentifyProperties, Op, Payload, Resume, UpdVState,
};

fn round_trip(p: &Payload) {
    let frame = encode_text(p);
    let back = decode_text(&frame).expect("frame must decode");
    assert_eq!(&back, p);
}

#[test]
fn op_codes_follow_fixed_assignment() {
    let table: Vec<(u8, Op)> = vec![
        (0, Op::Dispatch),
        (1, Op::Heartbeat),
        (2, Op::Identify),
        (3, Op::PUpd),
        (4, Op::VSUpd),
        (6, Op::Resume),
        (7, Op::Reconnect),
        (8, Op::ReqGuildMembers),
        (9, Op::InvSession),
        (10, Op::Hello),
        (11, Op::HbACK),
    ];
    for (code, op) in table {
        assert_eq!(Op::from_code(code), op);
        assert_eq!(op.to_code(), code);
    }
    assert_eq!(Op::from_code(5), Op::Unknown);
    assert_eq!(Op::from_code(12), Op::Unknown);
    assert_eq!(Op::from_code(255), Op::Unknown);
}

#[test]
fn encode_hello_exact_frame() {
    let p = Payload::new(
        Body::Hello(Hello { heartbeat_interval: 41250 }),
        None,
        None,
        Op::Hello,
    );
    assert_eq!(
        encode_text(&p),
        "{\"op\":10,\"t\":null,\"s\":null,\"d\":{\"heartbeat_interval\":41250}}"
    );
}

#[test]
fn round_trip_hello() {
    round_trip(&Payload::new(
        Body::Hello(Hello { heartbeat_interval: 41250 }),
        None,
        None,
        Op::Hello,
    ));
}

#[test]
fn round_trip_heartbeat() {
    round_trip(&Payload::new(Body::Heartbeat(None), None, None, Op::Heartbeat));
    round_trip(&Payload::new(Body::Heartbeat(Some(312)), None, None, Op::Heartbeat));
}

#[test]
fn round_trip_identify() {
    round_trip(&Payload::new(
        Body::Identify(Identify {
            token: "tok-123".to_string(),
            properties: IdentifyProperties {
                os: "linux".to_string(),
                browser: "".to_string(),
                device: "".to_string(),
            },
            intents: 512,
        }),
        None,
        None,
        Op::Identify,
    ));
}

#[test]
fn round_trip_identify_with_escapes() {
    round_trip(&Payload::new(
        Body::Identify(Identify {
            token: "a\"b\\c\"\"".to_string(),
            properties: IdentifyProperties {
                os: "\\".to_string(),
                browser: "\"".to_string(),
                device: "pl\u{00e4}in unicode \u{2603}".to_string(),
            },
            intents: 0,
        }),
        None,
        None,
        Op::Identify,
    ));
}

#[test]
fn round_trip_resume() {
    round_trip(&Payload::new(
        Body::Resume(Resume {
            token: "tok".to_string(),
            session_id: "abc".to_string(),
            seq: 7,
        }),
        None,
        None,
        Op::Resume,
    ));
}

#[test]
fn round_trip_voice_state() {
    round_trip(&Payload::new(
        Body::UpdVState(UpdVState {
            guild_id: "g1".to_string(),
            channel_id: Some("c1".to_string()),
            self_mute: true,
            self_deaf: false,
        }),
        None,
        None,
        Op::VSUpd,
    ));
    round_trip(&Payload::new(
        Body::UpdVState(UpdVState {
            guild_id: "g1".to_string(),
            channel_id: None,
            self_mute: false,
            self_deaf: true,
        }),
        None,
        None,
        Op::VSUpd,
    ));
}

#[test]
fn round_trip_invalid_session() {
    round_trip(&Payload::new(Body::InvSession(true), None, None, Op::InvSession));
    round_trip(&Payload::new(Body::InvSession(false), None, None, Op::InvSession));
}

#[test]
fn round_trip_heartbeat_ack() {
    round_trip(&Payload::new(Body::HbACK(None), None, None, Op::HbACK));
    round_trip(&Payload::new(Body::HbACK(Some(true)), None, None, Op::HbACK));
}

#[test]
fn round_trip_empty_bodies() {
    round_trip(&Payload::new(Body::Empty, None, None, Op::Reconnect));
    round_trip(&Payload::new(Body::Empty, None, None, Op::PUpd));
    round_trip(&Payload::new(Body::Empty, None, None, Op::ReqGuildMembers));
}

#[test]
fn round_trip_ready_dispatch() {
    round_trip(&Payload::new(
        Body::Ready(ReadyEvent { session_id: "abc".to_string() }),
        Some(1),
        Some("READY".to_string()),
        Op::Dispatch,
    ));
}

#[test]
fn round_trip_message_dispatch() {
    round_trip(&Payload::new(
        Body::Message(Message { channel_id: "chan".to_string() }),
        Some(42),
        Some("MESSAGE_CREATE".to_string()),
        Op::Dispatch,
    ));
}

#[test]
fn partial_decode_agrees_with_full_decode() {
    let frames = vec![
        Payload::new(Body::Hello(Hello { heartbeat_interval: 1 }), None, None, Op::Hello),
        Payload::new(Body::Heartbeat(Some(9)), None, None, Op::Heartbeat),
        Payload::new(
            Body::Ready(ReadyEvent { session_id: "s".to_string() }),
            Some(1),
            Some("READY".to_string()),
            Op::Dispatch,
        ),
        Payload::new(Body::HbACK(None), None, None, Op::HbACK),
    ];
    for p in frames {
        let frame = encode_text(&p);
        let partial = decode_partial_text(&frame).expect("partial decode");
        let full = decode_text(&frame).expect("full decode");
        assert_eq!(partial.op, full.op);
    }
}

#[test]
fn partial_decode_huge_code_is_unknown() {
    let r = decode_partial_text(
        "{\"op\":99999999999999999999999999,\"t\":null,\"s\":null,\"d\":null}",
    )
    .unwrap();
    assert_eq!(r.op, Op::Unknown);
    let r2 = decode_partial_text("{\"op\":300,\"t\":null,\"s\":null,\"d\":null}").unwrap();
    assert_eq!(r2.op, Op::Unknown);
}

#[test]
fn decode_tolerates_whitespace_and_member_order() {
    let p = decode_text(
        " { \"t\" : \"READY\" , \"s\" : 1 , \"d\" : { \"session_id\" : \"abc\" } , \"op\" : 0 } ",
    )
    .expect("decode");
    assert_eq!(p.op, Op::Dispatch);
    assert_eq!(p.s, Some(1));
    match p.d {
        Body::Ready(r) => assert_eq!(r.session_id, "abc"),
        other => panic!("wrong body: {:?}", other),
    }
}

#[test]
fn decode_tolerates_unknown_members() {
    // Unknown members inside the body — nested objects, arrays, strings with
    // escapes, numbers — are skipped; the envelope fields still decode.
    let p = decode_text(
        "{\"op\":0,\"t\":\"READY\",\"s\":7,\"d\":{\"user\":{\"id\":\"1\",\"name\":\"a\\nb\"},\"guilds\":[{},{\"x\":[1,2]}],\"v\":9,\"session_id\":\"abc\",\"flag\":true}}",
    )
    .expect("decode");
    assert_eq!(p.op, Op::Dispatch);
    assert_eq!(p.s, Some(7));
    match p.d {
        Body::Ready(r) => assert_eq!(r.session_id, "abc"),
        other => panic!("wrong body: {:?}", other),
    }
    // Unknown members at the top level are tolerated too.
    let q = decode_text(
        "{\"op\":10,\"extra\":null,\"t\":null,\"s\":null,\"d\":{\"heartbeat_interval\":5,\"more\":\"x\"}}",
    )
    .expect("decode");
    match q.d {
        Body::Hello(h) => assert_eq!(h.heartbeat_interval, 5),
        other => panic!("wrong body: {:?}", other),
    }
}

#[test]
fn partial_decode_finds_op_anywhere() {
    let r = decode_partial_text("{\"t\":null,\"s\":null,\"d\":null,\"op\":11}").unwrap();
    assert_eq!(r.op, Op::HbACK);
}

#[test]
fn absent_optional_members_decode_as_none() {
    let p = decode_text("{\"op\":11,\"d\":null}").expect("decode");
    assert_eq!(p.op, Op::HbACK);
    assert_eq!(p.s, None);
    assert_eq!(p.t, None);
}

#[test]
fn malformed_frames_are_rejected() {
    let bad = [
        "",
        "{}",
        "{\"op\":}",
        "not json at all",
        "{\"op\":10,\"t\":null,\"s\":null,\"d\":null}",
        "{\"op\":5,\"t\":null,\"s\":null,\"d\":null}",
        "{\"op\":10,\"t\":null,\"s\":3,\"d\":{\"heartbeat_interval\":1}}",
        "{\"op\":1,\"t\":\"READY\",\"s\":null,\"d\":null}",
        "{\"op\":10,\"t\":null,\"s\":null,\"d\":{\"heartbeat_interval\":1}}trailing",
        "{\"op\":10,\"t\":null,\"s\":null,\"d\":{\"heartbeat_interval\":99999999999999999999}}",
    ];
    for frame in bad {
        assert_eq!(decode_text(frame), Err(Error::MalformedFrame), "frame: {}", frame);
    }
}

#[test]
fn decode_recovers_fields_from_raw_text() {
    let p = decode_text("{\"op\":0,\"t\":\"READY\",\"s\":1,\"d\":{\"session_id\":\"abc\"}}")
        .expect("decode");
    assert_eq!(p.op, Op::Dispatch);
    assert_eq!(p.s, Some(1));
    assert_eq!(p.t.as_deref(), Some("READY"));
    match p.d {
        Body::Ready(r) => assert_eq!(r.session_id, "abc"),
        other => panic!("wrong body: {:?}", other),
    }
}

#[test]
fn decode_unescapes_strings() {
    let p = decode_text(
        "{\"op\":6,\"t\":null,\"s\":null,\"d\":{\"token\":\"a\\\"b\\\\c\",\"session_id\":\"s\",\"seq\":3}}",
    )
    .expect("decode");
    match p.d {
        Body::Resume(r) => {
            assert_eq!(r.token, "a\"b\\c");
            assert_eq!(r.session_id, "s");
            assert_eq!(r.seq, 3);
        }
        other => panic!("wrong body: {:?}", other),
    }
}

#[test]
fn error_recoverability_follows_taxonomy() {
    assert!(Error::TransportError.recoverable());
    assert!(Error::MalformedFrame.recoverable());
    assert!(Error::LivenessTimeout.recoverable());
    assert!(Error::ProtocolViolation.recoverable());
    assert!(!Error::ConfigurationError.recoverable());
}
