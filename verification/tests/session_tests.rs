use connector::cache::{interpret_flag_reply, online_users_hash_key, CacheError};
use connector::dispatch::{
    dispatch_lookup, dispatch_send_result, dispatch_status_code, DispatchError,
    DispatchMessageRequest, DispatchOutcome,
};
use connector::message::ServiceMessage;
use connector::model::DispatchedMessage;
use connector::router::{handle_serv_message, handle_websock_message, FrameFlow, WsFrame};
use connector::codec::ReqMessage;
use connector::model::{LoginUserRsp, RegisterUserRsp};
use connector::router::{route_request, service_message_of_reply, UpstreamReply};
use connector::session::{
    handshake_ping_payload, handshake_proceeds, server_token, session_cleanup_step,
    session_online_step, OutboundSender, RecvEvent, SessionDirectory, OUTBOUND_QUEUE_CAPACITY,
};
use connector::upstream::Service;

fn sender() -> OutboundSender {
    let (tx, _rx) = crossfire::mpsc::bounded_async::<ServiceMessage>(OUTBOUND_QUEUE_CAPACITY);
    OutboundSender { tx }
}

fn push_request(target: &str) -> DispatchMessageRequest {
    DispatchMessageRequest {
        target_user_id: target.to_string(),
        message_id: "m1".to_string(),
        user_id: "u2".to_string(),
        channel_id: "c1".to_string(),
        content: "hi".to_string(),
        created_at: 123,
    }
}

#[test]
fn handshake_payload_is_fixed() {
    assert_eq!(handshake_ping_payload(), vec![1u8, 2, 3]);
}

#[test]
fn handshake_needs_some_frame() {
    assert!(handshake_proceeds(&RecvEvent::Frame(WsFrame::Close)));
    assert!(!handshake_proceeds(&RecvEvent::SocketError("broken".to_string())));
    assert!(!handshake_proceeds(&RecvEvent::Closed));
}

#[test]
fn server_token_form() {
    assert_eq!(server_token("connector", "n1"), "connector:n1");
    assert_eq!(online_users_hash_key(), "user:connector");
}

#[test]
fn flag_replies() {
    assert_eq!(interpret_flag_reply(0), Ok(false));
    assert_eq!(interpret_flag_reply(1), Ok(true));
    assert_eq!(interpret_flag_reply(2), Err(CacheError::UnexpectedResponse));
    assert_eq!(interpret_flag_reply(-1), Err(CacheError::UnexpectedResponse));
}

#[test]
fn directory_first_writer_wins() {
    let mut dir = SessionDirectory::new();
    assert!(dir.claim("u1", sender()));
    assert!(!dir.claim("u1", sender()));
    assert!(dir.lookup("u1").is_some());
    assert!(dir.lookup("u2").is_none());
}

#[test]
fn online_step_needs_fresh_cache_claim() {
    let mut dir = SessionDirectory::new();
    assert!(!session_online_step(&mut dir, "u1", sender(), Ok(false)));
    assert!(dir.lookup("u1").is_none());
    assert!(!session_online_step(
        &mut dir,
        "u1",
        sender(),
        Err(CacheError::Connection("down".to_string()))
    ));
    assert!(dir.lookup("u1").is_none());
    assert!(session_online_step(&mut dir, "u1", sender(), Ok(true)));
    assert!(dir.lookup("u1").is_some());
}

#[test]
fn second_connection_aborts_cleanly_and_first_survives() {
    let mut dir = SessionDirectory::new();
    assert!(session_online_step(&mut dir, "u1", sender(), Ok(true)));
    // the second session sees the cache claim refused
    assert!(!session_online_step(&mut dir, "u1", sender(), Ok(false)));
    // even a racing claim that won the cache cannot displace the entry
    assert!(!session_online_step(&mut dir, "u1", sender(), Ok(true)));
    assert!(dir.lookup("u1").is_some());
}

#[test]
fn cleanup_removes_the_entry_once() {
    let mut dir = SessionDirectory::new();
    assert!(session_online_step(&mut dir, "u1", sender(), Ok(true)));
    assert!(session_cleanup_step(&mut dir, "u1"));
    assert!(dir.lookup("u1").is_none());
    assert!(!session_cleanup_step(&mut dir, "u1"));
}

#[test]
fn dispatch_to_offline_user_is_not_found() {
    let dir = SessionDirectory::new();
    match dispatch_lookup(&dir, push_request("u9")) {
        DispatchOutcome::NotFound => {}
        DispatchOutcome::Deliver(_, _) => panic!("offline user must not be found"),
    }
    assert_eq!(dispatch_status_code(&DispatchError::TargetOffline), 5);
}

#[test]
fn dispatch_to_online_user_builds_the_push_frame() {
    let mut dir = SessionDirectory::new();
    assert!(dir.claim("u1", sender()));
    let msg = match dispatch_lookup(&dir, push_request("u1")) {
        DispatchOutcome::Deliver(_, m) => m,
        DispatchOutcome::NotFound => panic!("online user must be found"),
    };
    assert_eq!(
        msg,
        ServiceMessage::DispatchMessage(DispatchedMessage {
            message_id: "m1".to_string(),
            channel_id: "c1".to_string(),
            user_id: "u2".to_string(),
            content: "hi".to_string(),
            timestamp: 123,
        })
    );
    match handle_serv_message(msg).expect("every message maps to a frame") {
        WsFrame::Text(t) => assert_eq!(
            t,
            "{\"type\":\"dispatch_message\",\"data\":{\"message_id\":\"m1\",\"channel_id\":\"c1\",\"user_id\":\"u2\",\"content\":\"hi\",\"timestamp\":123}}"
        ),
        other => panic!("expected a text frame, got {:?}", other),
    }
}

#[test]
fn closed_queue_maps_to_internal() {
    assert!(matches!(dispatch_send_result(true), Ok(p) if p.successful));
    assert_eq!(dispatch_send_result(false), Err(DispatchError::QueueClosed));
    assert_eq!(dispatch_status_code(&DispatchError::QueueClosed), 13);
}

#[test]
fn frame_classification() {
    assert!(matches!(
        handle_websock_message(WsFrame::Ping(vec![9])),
        FrameFlow::Reply(ServiceMessage::Pong)
    ));
    assert!(matches!(handle_websock_message(WsFrame::Pong(vec![])), FrameFlow::Ignore));
    assert!(matches!(handle_websock_message(WsFrame::Close), FrameFlow::CloseClean));
    assert!(matches!(
        handle_websock_message(WsFrame::Binary(vec![1, 2])),
        FrameFlow::Fail(_)
    ));
    assert!(matches!(
        handle_websock_message(WsFrame::Text("nonsense".to_string())),
        FrameFlow::Fail(_)
    ));
    let good = "{\"type\":\"login_user\",\"data\":{\"username\":\"alice\",\"password\":\"p\"}}";
    assert!(matches!(
        handle_websock_message(WsFrame::Text(good.to_string())),
        FrameFlow::Request(_)
    ));
}

#[test]
fn register_then_login_flow() {
    // the user's first frame: a registration request
    let flow = handle_websock_message(WsFrame::Text(
        "{\"type\":\"register_user\",\"data\":{\"username\":\"alice\",\"password\":\"p\"}}"
            .to_string(),
    ));
    let request = match flow {
        FrameFlow::Request(r) => r,
        other => panic!("expected a request, got {:?}", other),
    };
    let (service, key) = route_request(&request);
    assert_eq!(service, Service::UserService);
    assert_eq!(key, "alice");
    assert!(matches!(request, ReqMessage::RegisterUser(_)));

    // the upstream answered; the session receives the typed response frame
    let msg = service_message_of_reply(UpstreamReply::RegisterUser(RegisterUserRsp {
        user_id: "u1".to_string(),
    }));
    match handle_serv_message(msg).unwrap() {
        WsFrame::Text(t) => {
            assert_eq!(t, "{\"type\":\"register_user\",\"data\":{\"user_id\":\"u1\"}}")
        }
        other => panic!("expected a text frame, got {:?}", other),
    }

    // then a login, answered with a non-empty token
    let flow = handle_websock_message(WsFrame::Text(
        "{\"type\":\"login_user\",\"data\":{\"username\":\"alice\",\"password\":\"p\"}}"
            .to_string(),
    ));
    let request = match flow {
        FrameFlow::Request(r) => r,
        other => panic!("expected a request, got {:?}", other),
    };
    let (service, key) = route_request(&request);
    assert_eq!(service, Service::UserService);
    assert_eq!(key, "alice");

    let msg = service_message_of_reply(UpstreamReply::LoginUser(LoginUserRsp {
        token: "t0k3n".to_string(),
    }));
    match handle_serv_message(msg).unwrap() {
        WsFrame::Text(t) => {
            assert_eq!(t, "{\"type\":\"login_user\",\"data\":{\"token\":\"t0k3n\"}}");
            assert!(t.contains("t0k3n"));
        }
        other => panic!("expected a text frame, got {:?}", other),
    }
}

#[test]
fn pong_message_becomes_pong_frame() {
    match handle_serv_message(ServiceMessage::Pong).unwrap() {
        WsFrame::Pong(b) => assert!(b.is_empty()),
        other => panic!("expected a pong frame, got {:?}", other),
    }
}
