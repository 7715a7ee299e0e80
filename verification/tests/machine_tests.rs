use gateway_client::bus::{
    reader_policy, writer_policy, CloseGuard, OutboundQueue, ReadDecision, ReadOutcome,
    WriteDecision, WriteOutcome,
};
use gateway_client::error::Error;
use gateway_client::gateway::{
    Client, ConnState, GatewayAction, GatewayEvent, GatewayEventHandler,
};
use gateway_client::heartbeat::{HbAction, HbEvent, HbState, Monitor};
use gateway_client::payload::{Body, Hello, Op, Payload};
use gateway_client::router::wait_for;

struct NullHandler;

impl GatewayEventHandler for NullHandler {}

fn fresh_client() -> Client<NullHandler> {
    Client::try_new(
        NullHandler,
        "tok".to_string(),
        "wss://gateway.example/?v=9&encoding=json".to_string(),
    )
    .expect("client")
}

#[test]
fn outbound_queue_is_fifo() {
    let mut q = OutboundQueue::new();
    q.send("A".to_string());
    q.send("B".to_string());
    q.send("C".to_string());
    assert_eq!(q.pop_next(), Some("A".to_string()));
    assert_eq!(q.pop_next(), Some("B".to_string()));
    assert_eq!(q.pop_next(), Some("C".to_string()));
    assert_eq!(q.pop_next(), None);
}

#[test]
fn outbound_queue_drains_in_submission_order() {
    let mut q = OutboundQueue::new();
    q.send("identify".to_string());
    q.send("heartbeat".to_string());
    let out = q.drain();
    assert_eq!(out, vec!["identify".to_string(), "heartbeat".to_string()]);
    assert_eq!(q.len(), 0);
}

#[test]
fn close_guard_acts_exactly_once() {
    let mut g = CloseGuard::new();
    assert!(g.close());
    assert!(!g.close());
    assert!(!g.close());
}

#[test]
fn writer_policy_treats_a_failed_write_as_fatal() {
    assert_eq!(writer_policy(WriteOutcome::Sent), WriteDecision::KeepWriting);
    assert_eq!(writer_policy(WriteOutcome::WriteFailed), WriteDecision::ConnectionLost);
}

#[test]
fn reader_policy_swallows_capacity_and_surfaces_losses() {
    assert_eq!(
        reader_policy(ReadOutcome::Frame("x".to_string())),
        ReadDecision::Publish("x".to_string())
    );
    assert_eq!(reader_policy(ReadOutcome::CapacityExceeded), ReadDecision::KeepReading);
    assert_eq!(reader_policy(ReadOutcome::TransportFailure), ReadDecision::ConnectionLost);
}

fn frame(op: Op) -> Payload {
    match op {
        Op::Hello => Payload::new(Body::Hello(Hello { heartbeat_interval: 1 }), None, None, op),
        Op::HbACK => Payload::new(Body::HbACK(None), None, None, op),
        Op::Heartbeat => Payload::new(Body::Heartbeat(None), None, None, op),
        _ => Payload::new(Body::Empty, None, None, op),
    }
}

#[test]
fn router_returns_only_the_wanted_opcode() {
    let frames = vec![
        frame(Op::Heartbeat),
        frame(Op::Hello),
        frame(Op::HbACK),
        frame(Op::Hello),
    ];
    let i = wait_for(Op::HbACK, &frames).expect("a match");
    assert_eq!(i, 2);
    assert_eq!(frames[i].op, Op::HbACK);
    let j = wait_for(Op::Hello, &frames).expect("a match");
    assert_eq!(j, 1);
    assert_eq!(wait_for(Op::Resume, &frames), None);
}

#[test]
fn monitor_sends_one_heartbeat_per_interval_while_acked() {
    let mut m = Monitor::new(41250, None);
    for _ in 0..5 {
        assert_eq!(m.step(HbEvent::Tick), HbAction::SendHeartbeat(None));
        assert_eq!(m.state, HbState::AwaitingAck);
        assert_eq!(m.step(HbEvent::AckReceived), HbAction::Nothing);
        assert_eq!(m.state, HbState::Armed);
    }
}

#[test]
fn monitor_signals_failure_exactly_once_and_stops() {
    let mut m = Monitor::new(41250, Some(7));
    assert_eq!(m.step(HbEvent::Tick), HbAction::SendHeartbeat(Some(7)));
    assert_eq!(m.step(HbEvent::Tick), HbAction::SignalFailure);
    assert_eq!(m.state, HbState::Stopped);
    assert_eq!(m.step(HbEvent::Tick), HbAction::Nothing);
    assert_eq!(m.step(HbEvent::AckReceived), HbAction::Nothing);
    assert_eq!(m.state, HbState::Stopped);
}

#[test]
fn monitor_carries_latest_sequence_snapshot() {
    let mut m = Monitor::new(1000, None);
    m.set_last_seq(Some(12));
    assert_eq!(m.step(HbEvent::Tick), HbAction::SendHeartbeat(Some(12)));
}

#[test]
fn handshake_reaches_steady_and_stores_identity() {
    let mut c = fresh_client();
    assert_eq!(c.step(GatewayEvent::StartRequested), GatewayAction::OpenBus);
    assert_eq!(c.state, ConnState::Connecting);
    assert_eq!(c.step(GatewayEvent::ConnectOk), GatewayAction::WaitHello);
    assert_eq!(c.state, ConnState::AwaitingHello);
    assert_eq!(
        c.step(GatewayEvent::HelloReceived(41250)),
        GatewayAction::StartHeartbeatAndIdentify(41250)
    );
    assert_eq!(c.state, ConnState::Identifying);
    assert_eq!(c.session.heartbeat_interval, Some(41250));
    assert_eq!(c.step(GatewayEvent::IdentifySent), GatewayAction::WaitReady);
    assert_eq!(c.state, ConnState::AwaitingReady);
    assert_eq!(
        c.step(GatewayEvent::ReadyReceived("abc".to_string(), Some(1))),
        GatewayAction::Nothing
    );
    assert_eq!(c.state, ConnState::Steady);
    assert_eq!(c.session.session_id.as_deref(), Some("abc"));
    assert_eq!(c.session.seq_num, Some(1));
}

#[test]
fn liveness_timeout_reenters_connecting() {
    let mut c = fresh_client();
    c.step(GatewayEvent::StartRequested);
    c.step(GatewayEvent::ConnectOk);
    c.step(GatewayEvent::HelloReceived(41250));
    c.step(GatewayEvent::IdentifySent);
    c.step(GatewayEvent::ReadyReceived("abc".to_string(), Some(1)));
    assert_eq!(c.state, ConnState::Steady);
    assert_eq!(c.step(GatewayEvent::LivenessTimeout), GatewayAction::Teardown);
    assert_eq!(c.state, ConnState::Connecting);
    assert_eq!(c.session.session_id.as_deref(), Some("abc"));
    assert_eq!(c.session.seq_num, Some(1));
}

#[test]
fn hello_after_stored_session_resumes_not_identifies() {
    let mut c = fresh_client();
    c.step(GatewayEvent::StartRequested);
    c.step(GatewayEvent::ConnectOk);
    c.step(GatewayEvent::HelloReceived(41250));
    c.step(GatewayEvent::IdentifySent);
    c.step(GatewayEvent::ReadyReceived("s1".to_string(), Some(5)));
    c.step(GatewayEvent::ConnectionLost);
    assert_eq!(c.state, ConnState::Connecting);
    c.step(GatewayEvent::ConnectOk);
    assert_eq!(
        c.step(GatewayEvent::HelloReceived(30000)),
        GatewayAction::StartHeartbeatAndResume(30000, "s1".to_string(), 5)
    );
    assert_eq!(c.state, ConnState::Resuming);
}

#[test]
fn invalid_session_clears_identity_and_forces_identify() {
    let mut c = fresh_client();
    c.step(GatewayEvent::StartRequested);
    c.step(GatewayEvent::ConnectOk);
    c.step(GatewayEvent::HelloReceived(41250));
    c.step(GatewayEvent::IdentifySent);
    c.step(GatewayEvent::ReadyReceived("s1".to_string(), Some(5)));
    assert_eq!(c.step(GatewayEvent::InvalidSession(false)), GatewayAction::Teardown);
    assert_eq!(c.state, ConnState::Connecting);
    assert_eq!(c.session.session_id, None);
    assert_eq!(c.session.seq_num, None);
    c.step(GatewayEvent::ConnectOk);
    assert_eq!(
        c.step(GatewayEvent::HelloReceived(41250)),
        GatewayAction::StartHeartbeatAndIdentify(41250)
    );
    assert_eq!(c.state, ConnState::Identifying);
}

#[test]
fn invalid_session_during_resume_reidentifies_in_place() {
    let mut c = fresh_client();
    c.step(GatewayEvent::StartRequested);
    c.step(GatewayEvent::ConnectOk);
    c.step(GatewayEvent::HelloReceived(41250));
    c.step(GatewayEvent::IdentifySent);
    c.step(GatewayEvent::ReadyReceived("s1".to_string(), Some(5)));
    c.step(GatewayEvent::ConnectionLost);
    c.step(GatewayEvent::ConnectOk);
    c.step(GatewayEvent::HelloReceived(41250));
    assert_eq!(c.state, ConnState::Resuming);
    assert_eq!(c.step(GatewayEvent::InvalidSession(false)), GatewayAction::SendIdentify);
    assert_eq!(c.state, ConnState::Identifying);
    assert_eq!(c.session.session_id, None);
    assert_eq!(c.session.seq_num, None);
}

#[test]
fn stored_sequence_never_decreases() {
    let mut c = fresh_client();
    c.step(GatewayEvent::StartRequested);
    c.step(GatewayEvent::ConnectOk);
    c.step(GatewayEvent::HelloReceived(41250));
    c.step(GatewayEvent::IdentifySent);
    c.step(GatewayEvent::ReadyReceived("s1".to_string(), None));
    for s in [Some(5), Some(7), Some(6)] {
        assert_eq!(c.step(GatewayEvent::DispatchReceived(s)), GatewayAction::DispatchToHandler);
    }
    assert_eq!(c.session.seq_num, Some(7));
    c.step(GatewayEvent::DispatchReceived(None));
    assert_eq!(c.session.seq_num, Some(7));
}

#[test]
fn shutdown_is_the_only_path_out() {
    let mut c = fresh_client();
    c.step(GatewayEvent::StartRequested);
    c.step(GatewayEvent::ConnectOk);
    assert_eq!(c.step(GatewayEvent::ShutdownRequested), GatewayAction::TeardownAndStop);
    assert_eq!(c.state, ConnState::Closing);
    assert_eq!(c.step(GatewayEvent::ConnectionLost), GatewayAction::Nothing);
    assert_eq!(c.state, ConnState::Closing);
    assert_eq!(c.step(GatewayEvent::CloseComplete), GatewayAction::Nothing);
    assert_eq!(c.state, ConnState::Disconnected);
}

#[test]
fn empty_credentials_are_a_configuration_error() {
    let r = Client::try_new(NullHandler, "".to_string(), "wss://gw".to_string());
    assert!(matches!(r, Err(Error::ConfigurationError)));
    let r2 = Client::try_new(NullHandler, "tok".to_string(), "".to_string());
    assert!(matches!(r2, Err(Error::ConfigurationError)));
}

#[test]
fn connect_failure_retries_without_losing_session() {
    let mut c = fresh_client();
    c.step(GatewayEvent::StartRequested);
    assert_eq!(c.step(GatewayEvent::ConnectFailed), GatewayAction::OpenBus);
    assert_eq!(c.state, ConnState::Connecting);
}

#[test]
fn reconnect_request_is_treated_as_resumable() {
    let mut c = fresh_client();
    c.step(GatewayEvent::StartRequested);
    c.step(GatewayEvent::ConnectOk);
    c.step(GatewayEvent::HelloReceived(41250));
    c.step(GatewayEvent::IdentifySent);
    c.step(GatewayEvent::ReadyReceived("s1".to_string(), Some(2)));
    assert_eq!(c.step(GatewayEvent::ReconnectRequested), GatewayAction::Teardown);
    assert_eq!(c.state, ConnState::Connecting);
    c.step(GatewayEvent::ConnectOk);
    assert_eq!(
        c.step(GatewayEvent::HelloReceived(41250)),
        GatewayAction::StartHeartbeatAndResume(41250, "s1".to_string(), 2)
    );
}

#[test]
fn fifo_under_concurrent_producers() {
    let rt = tokio::runtime::Builder::new_multi_thread()
        .worker_threads(2)
        .enable_all()
        .build()
        .unwrap();
    rt.block_on(async {
        let q = std::sync::Arc::new(tokio::sync::Mutex::new(OutboundQueue::new()));
        let mut handles = Vec::new();
        for p in 0..4u32 {
            let q = q.clone();
            handles.push(tokio::spawn(async move {
                for i in 0..50u32 {
                    q.lock().await.send(format!("{}:{}", p, i));
                }
            }));
        }
        for h in handles {
            h.await.unwrap();
        }
        let out = q.lock().await.drain();
        assert_eq!(out.len(), 200);
        for p in 0..4u32 {
            let seen: Vec<u32> = out
                .iter()
                .filter_map(|s| {
                    let mut it = s.split(':');
                    let who: u32 = it.next().unwrap().parse().unwrap();
                    let i: u32 = it.next().unwrap().parse().unwrap();
                    if who == p {
                        Some(i)
                    } else {
                        None
                    }
                })
                .collect();
            assert_eq!(seen, (0..50u32).collect::<Vec<u32>>());
        }
    });
}

use gateway_client::codec::{decode_partial_text, decode_text, encode_text};

/// What a mock server would send, as real text frames, driven through the
/// codec and the state machine: Hello, then the session-confirming dispatch.
#[test]
fn end_to_end_handshake_over_frames() {
    let mut c = fresh_client();
    c.step(GatewayEvent::StartRequested);
    c.step(GatewayEvent::ConnectOk);

    // Server: Hello with a 41250 ms heartbeat interval.
    let hello_frame = "{\"op\":10,\"t\":null,\"s\":null,\"d\":{\"heartbeat_interval\":41250}}";
    let hello = decode_text(hello_frame).expect("hello decodes");
    let interval = match hello.d {
        Body::Hello(h) => h.heartbeat_interval,
        other => panic!("wrong body: {:?}", other),
    };
    let action = c.step(GatewayEvent::HelloReceived(interval));
    assert_eq!(action, GatewayAction::StartHeartbeatAndIdentify(41250));

    // Client: the identify frame goes out; its opcode routes as Identify.
    let identify = Payload::new(
        Body::Identify(gateway_client::payload::Identify {
            token: "tok".to_string(),
            properties: gateway_client::payload::IdentifyProperties {
                os: String::new(),
                browser: String::new(),
                device: String::new(),
            },
            intents: 512,
        }),
        None,
        None,
        Op::Identify,
    );
    let out_frame = encode_text(&identify);
    assert_eq!(decode_partial_text(&out_frame).unwrap().op, Op::Identify);
    c.step(GatewayEvent::IdentifySent);

    // Server: Dispatch READY with s = 1 and session id "abc".
    let ready_frame = "{\"op\":0,\"t\":\"READY\",\"s\":1,\"d\":{\"session_id\":\"abc\"}}";
    let ready = decode_text(ready_frame).expect("ready decodes");
    assert_eq!(ready.op, Op::Dispatch);
    let sid = match ready.d {
        Body::Ready(r) => r.session_id,
        other => panic!("wrong body: {:?}", other),
    };
    c.step(GatewayEvent::ReadyReceived(sid, ready.s));

    assert_eq!(c.state, ConnState::Steady);
    assert_eq!(c.session.session_id.as_deref(), Some("abc"));
    assert_eq!(c.session.seq_num, Some(1));
}

/// What happens when the mock server never acknowledges a heartbeat: after
/// one full interval the monitor signals, and the session manager observes a
/// liveness timeout and re-enters the connecting state.
#[test]
fn end_to_end_missed_ack_reconnects() {
    let mut c = fresh_client();
    c.step(GatewayEvent::StartRequested);
    c.step(GatewayEvent::ConnectOk);
    c.step(GatewayEvent::HelloReceived(41250));
    c.step(GatewayEvent::IdentifySent);
    c.step(GatewayEvent::ReadyReceived("abc".to_string(), Some(1)));

    let mut monitor = Monitor::new(41250, c.session.seq_num);
    // First tick: the heartbeat goes out as a real frame.
    let action = monitor.step(HbEvent::Tick);
    let seq = match action {
        HbAction::SendHeartbeat(seq) => seq,
        other => panic!("wrong action: {:?}", other),
    };
    let hb = Payload::new(Body::Heartbeat(seq), None, None, Op::Heartbeat);
    let hb_frame = encode_text(&hb);
    assert_eq!(decode_partial_text(&hb_frame).unwrap().op, Op::Heartbeat);

    // No ack arrives; the next tick is the liveness failure, exactly once.
    assert_eq!(monitor.step(HbEvent::Tick), HbAction::SignalFailure);
    assert_eq!(monitor.state, HbState::Stopped);

    assert_eq!(c.step(GatewayEvent::LivenessTimeout), GatewayAction::Teardown);
    assert_eq!(c.state, ConnState::Connecting);
}
