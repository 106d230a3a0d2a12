use ws_rpc::dispatch::{decode_failure_reply, fresh_request_id, handle_message, issue_request,
    prepare_send, DispatchAction};
use ws_rpc::errors::DecodeError;
use ws_rpc::messages::{WsError, WsErrorId, WsMessage, WsNotification, WsNotificationMethod,
    WsRequest, WsRequestMethod, WsResponse, WsResponseResult};
use ws_rpc::session::AppContext;

fn attached() -> AppContext {
    let mut ctx = AppContext::new();
    ctx.arm_shutdown();
    ctx.accept_peer(Some("127.0.0.1:5000".to_string())).unwrap();
    ctx
}

fn req(id: &str, method: WsRequestMethod) -> WsMessage {
    WsMessage::Request(WsRequest::new(id.to_string(), method))
}

#[test]
fn ping_draws_pong_under_same_id() {
    let mut ctx = attached();
    let a = handle_message(&mut ctx, req("p7", WsRequestMethod::Ping), "f".to_string());
    match a {
        DispatchAction::Reply { message: WsMessage::Response(r) } => {
            assert_eq!(r.id, "p7");
            let WsResponseResult::Text(x) = r.result;
            assert_eq!(x, "pong");
        }
        other => panic!("unexpected action: {:?}", other),
    }
    assert_eq!(ctx.pending_count(), 0);
}

#[test]
fn echo_draws_its_text_back() {
    let mut ctx = attached();
    let a = handle_message(
        &mut ctx,
        req("e1", WsRequestMethod::Echo("mirror me".to_string())),
        "f".to_string(),
    );
    match a {
        DispatchAction::Reply { message: WsMessage::Response(r) } => {
            assert_eq!(r.id, "e1");
            let WsResponseResult::Text(x) = r.result;
            assert_eq!(x, "mirror me");
        }
        other => panic!("unexpected action: {:?}", other),
    }
}

#[test]
fn shutdown_draws_one_ok_then_fires_once() {
    let mut ctx = attached();
    let a = handle_message(&mut ctx, req("s1", WsRequestMethod::Shutdown), "f".to_string());
    match a {
        DispatchAction::ReplyThenShutdown { message: WsMessage::Response(r), fire } => {
            assert_eq!(r.id, "s1");
            let WsResponseResult::Text(x) = r.result;
            assert_eq!(x, "ok");
            assert!(fire);
        }
        other => panic!("unexpected action: {:?}", other),
    }
    let b = handle_message(&mut ctx, req("s2", WsRequestMethod::Shutdown), "f".to_string());
    match b {
        DispatchAction::ReplyThenShutdown { message: WsMessage::Response(r), fire } => {
            assert_eq!(r.id, "s2");
            assert!(!fire);
        }
        other => panic!("unexpected action: {:?}", other),
    }
}

#[test]
fn ask_me_originates_one_echo_request_with_fresh_id() {
    let mut ctx = attached();
    let fresh = fresh_request_id(&ctx).unwrap();
    assert_eq!(fresh.chars().count(), 36);
    let a = handle_message(
        &mut ctx,
        WsNotification::new(WsNotificationMethod::AskMe("tell me".to_string())),
        fresh.clone(),
    );
    match a {
        DispatchAction::IssueRequest { request } => {
            assert_eq!(request.id, fresh);
            match request.method {
                WsRequestMethod::Echo(p) => assert_eq!(p, "tell me"),
                other => panic!("unexpected method: {:?}", other),
            }
        }
        other => panic!("unexpected action: {:?}", other),
    }
    assert_eq!(ctx.pending_count(), 1);
    assert!(ctx.has_pending(&fresh));
}

#[test]
fn ask_me_without_peer_fails_fast() {
    let mut ctx = AppContext::new();
    let a = handle_message(
        &mut ctx,
        WsNotification::new(WsNotificationMethod::AskMe("t".to_string())),
        "fresh-id".to_string(),
    );
    assert!(matches!(a, DispatchAction::NoPeer));
    assert_eq!(ctx.pending_count(), 0);
}

#[test]
fn matching_response_resolves_and_clears_slot() {
    let mut ctx = attached();
    ctx.register_pending("corr-1".to_string()).unwrap();
    let msg = WsMessage::Response(WsResponse::text_response(
        "corr-1".to_string(),
        "answer".to_string(),
    ));
    let a = handle_message(&mut ctx, msg, "f".to_string());
    match a {
        DispatchAction::Resolve { id, answer: Ok(r) } => {
            assert_eq!(id, "corr-1");
            assert_eq!(r.id, "corr-1");
            let WsResponseResult::Text(x) = r.result;
            assert_eq!(x, "answer");
        }
        other => panic!("unexpected action: {:?}", other),
    }
    assert!(!ctx.has_pending(&"corr-1".to_string()));
    assert_eq!(ctx.pending_count(), 0);
}

#[test]
fn unmatched_response_is_dropped() {
    let mut ctx = attached();
    let msg = WsMessage::Response(WsResponse::text_response("no-such".to_string(), "x".to_string()));
    let a = handle_message(&mut ctx, msg, "f".to_string());
    assert!(matches!(a, DispatchAction::Ignore));
    assert_eq!(ctx.pending_count(), 0);
}

#[test]
fn matching_error_resolves_with_failure() {
    let mut ctx = attached();
    ctx.register_pending("corr-2".to_string()).unwrap();
    let msg = WsError::new(
        "corr-2".to_string(),
        WsErrorId::IncorrectInput,
        "peer said no".to_string(),
    );
    let a = handle_message(&mut ctx, msg, "f".to_string());
    match a {
        DispatchAction::Resolve { id, answer: Err(e) } => {
            assert_eq!(id, "corr-2");
            assert_eq!(e.id.as_deref(), Some("corr-2"));
            assert_eq!(e.message, "peer said no");
        }
        other => panic!("unexpected action: {:?}", other),
    }
    assert!(!ctx.has_pending(&"corr-2".to_string()));
}

#[test]
fn unsolicited_error_is_dropped() {
    let mut ctx = attached();
    ctx.register_pending("corr-3".to_string()).unwrap();
    let msg = WsError::new_no_id(WsErrorId::IncorrectInput, "report".to_string());
    let a = handle_message(&mut ctx, msg, "f".to_string());
    assert!(matches!(a, DispatchAction::Ignore));
    assert_eq!(ctx.pending_count(), 1);
}

#[test]
fn prepare_send_fails_without_peer() {
    let ctx = AppContext::new();
    let msg = req("x", WsRequestMethod::Ping);
    assert!(prepare_send(&ctx, &msg).is_err());
}

#[test]
fn prepare_send_encodes_for_attached_peer() {
    let ctx_attached = attached();
    let msg = req("x", WsRequestMethod::Ping);
    let t = prepare_send(&ctx_attached, &msg).unwrap();
    assert_eq!(t, "{\"type\":\"req\",\"id\":\"x\",\"method\":\"ping\"}");
}

#[test]
fn fresh_id_is_never_pending() {
    let mut ctx = attached();
    for _ in 0..8 {
        let id = fresh_request_id(&ctx).unwrap();
        assert!(!ctx.has_pending(&id));
        assert_eq!(id.chars().count(), 36);
        ctx.register_pending(id).unwrap();
    }
    assert_eq!(ctx.pending_count(), 8);
}

#[test]
fn issue_request_without_peer_fails_and_registers_nothing() {
    let mut ctx = AppContext::new();
    let r = issue_request(&mut ctx, WsRequest::new("q1".to_string(), WsRequestMethod::Ping));
    assert!(r.is_err());
    assert_eq!(ctx.pending_count(), 0);
    assert!(!ctx.has_pending(&"q1".to_string()));
}

#[test]
fn issue_request_registers_then_yields_frame() {
    let mut ctx = attached();
    let r = issue_request(
        &mut ctx,
        WsRequest::new("q2".to_string(), WsRequestMethod::Echo("ask".to_string())),
    );
    assert_eq!(
        r.unwrap(),
        "{\"type\":\"req\",\"id\":\"q2\",\"method\":\"echo\",\"params\":\"ask\"}"
    );
    assert!(ctx.has_pending(&"q2".to_string()));
    assert_eq!(ctx.pending_count(), 1);
    assert!(ctx.remove_pending(&"q2".to_string()));
    assert_eq!(ctx.pending_count(), 0);
}

#[test]
fn decode_failure_draws_unsolicited_error() {
    let reply = decode_failure_reply(&DecodeError {});
    match reply {
        WsMessage::Error(e) => {
            assert!(e.id.is_none());
            assert!(matches!(e.eid, WsErrorId::IncorrectInput));
            assert_eq!(e.message, "incorrect input: not a recognized message");
        }
        other => panic!("unexpected reply: {:?}", other),
    }
}

#[test]
fn disconnected_error_message() {
    let e = ws_rpc::errors::ClientDisconnectedError {};
    assert_eq!(e.message(), "Client disconnected");
}
