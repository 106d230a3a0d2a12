use ws_rpc::codec::{decode, encode};
use ws_rpc::messages::{WsError, WsErrorId, WsMessage, WsNotification, WsNotificationMethod,
    WsRequest, WsRequestMethod, WsResponse, WsResponseResult};

fn req(id: &str, method: WsRequestMethod) -> WsMessage {
    WsMessage::Request(WsRequest::new(id.to_string(), method))
}

#[test]
fn encode_ping_request_exact() {
    let t = encode(&req("a1", WsRequestMethod::Ping));
    assert_eq!(t, "{\"type\":\"req\",\"id\":\"a1\",\"method\":\"ping\"}");
}

#[test]
fn encode_echo_request_exact() {
    let t = encode(&req("a2", WsRequestMethod::Echo("hi".to_string())));
    assert_eq!(t, "{\"type\":\"req\",\"id\":\"a2\",\"method\":\"echo\",\"params\":\"hi\"}");
}

#[test]
fn encode_shutdown_request_exact() {
    let t = encode(&req("a3", WsRequestMethod::Shutdown));
    assert_eq!(t, "{\"type\":\"req\",\"id\":\"a3\",\"method\":\"shutdown\"}");
}

#[test]
fn encode_notification_exact() {
    let t = encode(&WsNotification::new(WsNotificationMethod::AskMe("q".to_string())));
    assert_eq!(t, "{\"type\":\"not\",\"method\":\"askMe\",\"params\":\"q\"}");
}

#[test]
fn encode_response_exact() {
    let t = encode(&WsMessage::Response(WsResponse::text_response(
        "r1".to_string(),
        "out".to_string(),
    )));
    assert_eq!(t, "{\"type\":\"res\",\"id\":\"r1\",\"result\":\"out\"}");
}

#[test]
fn encode_error_with_id_exact() {
    let t = encode(&WsError::new(
        "e1".to_string(),
        WsErrorId::IncorrectInput,
        "bad".to_string(),
    ));
    assert_eq!(
        t,
        "{\"type\":\"err\",\"id\":\"e1\",\"eid\":\"incorrectInput\",\"message\":\"bad\"}"
    );
}

#[test]
fn encode_error_without_id_exact() {
    let t = encode(&WsError::new_no_id(WsErrorId::IncorrectInput, "bad".to_string()));
    assert_eq!(t, "{\"type\":\"err\",\"eid\":\"incorrectInput\",\"message\":\"bad\"}");
}

#[test]
fn encode_escapes_payload() {
    let t = encode(&WsMessage::Response(WsResponse::text_response(
        "i".to_string(),
        "a\"b\\c\nd\re\tf".to_string(),
    )));
    assert_eq!(
        t,
        "{\"type\":\"res\",\"id\":\"i\",\"result\":\"a\\\"b\\\\c\\nd\\re\\tf\"}"
    );
}

#[test]
fn round_trip_ping() {
    let t = encode(&req("a1", WsRequestMethod::Ping));
    match decode(&t) {
        Ok(WsMessage::Request(r)) => {
            assert_eq!(r.id, "a1");
            assert!(matches!(r.method, WsRequestMethod::Ping));
        }
        other => panic!("unexpected decode outcome: {:?}", other),
    }
}

#[test]
fn round_trip_echo_with_escapes() {
    let text = "line1\nline2 \"quoted\" back\\slash\ttab\rret";
    let t = encode(&req("id-9", WsRequestMethod::Echo(text.to_string())));
    match decode(&t) {
        Ok(WsMessage::Request(r)) => {
            assert_eq!(r.id, "id-9");
            match r.method {
                WsRequestMethod::Echo(p) => assert_eq!(p, text),
                other => panic!("unexpected method: {:?}", other),
            }
        }
        other => panic!("unexpected decode outcome: {:?}", other),
    }
}

#[test]
fn round_trip_shutdown() {
    let t = encode(&req("s", WsRequestMethod::Shutdown));
    match decode(&t) {
        Ok(WsMessage::Request(r)) => {
            assert_eq!(r.id, "s");
            assert!(matches!(r.method, WsRequestMethod::Shutdown));
        }
        other => panic!("unexpected decode outcome: {:?}", other),
    }
}

#[test]
fn round_trip_notification() {
    let t = encode(&WsNotification::new(WsNotificationMethod::AskMe("what?\"".to_string())));
    match decode(&t) {
        Ok(WsMessage::Notification(n)) => {
            let WsNotificationMethod::AskMe(p) = n.method;
            assert_eq!(p, "what?\"");
        }
        other => panic!("unexpected decode outcome: {:?}", other),
    }
}

#[test]
fn round_trip_response() {
    let t = encode(&WsMessage::Response(WsResponse::pong_response("p1".to_string())));
    match decode(&t) {
        Ok(WsMessage::Response(r)) => {
            assert_eq!(r.id, "p1");
            let WsResponseResult::Text(x) = r.result;
            assert_eq!(x, "pong");
        }
        other => panic!("unexpected decode outcome: {:?}", other),
    }
}

#[test]
fn round_trip_error_with_and_without_id() {
    let t1 = encode(&WsError::new_string(
        "e".to_string(),
        WsErrorId::IncorrectInput,
        "m\\1".to_string(),
    ));
    match decode(&t1) {
        Ok(WsMessage::Error(e)) => {
            assert_eq!(e.id.as_deref(), Some("e"));
            assert!(matches!(e.eid, WsErrorId::IncorrectInput));
            assert_eq!(e.message, "m\\1");
        }
        other => panic!("unexpected decode outcome: {:?}", other),
    }
    let t2 = encode(&WsError::new_no_id_string(WsErrorId::IncorrectInput, "m2".to_string()));
    match decode(&t2) {
        Ok(WsMessage::Error(e)) => {
            assert!(e.id.is_none());
            assert_eq!(e.message, "m2");
        }
        other => panic!("unexpected decode outcome: {:?}", other),
    }
}

#[test]
fn decode_exact_wire_frames() {
    match decode("{\"type\":\"req\",\"id\":\"x\",\"method\":\"echo\",\"params\":\"hello\"}") {
        Ok(WsMessage::Request(r)) => {
            assert_eq!(r.id, "x");
            match r.method {
                WsRequestMethod::Echo(p) => assert_eq!(p, "hello"),
                other => panic!("unexpected method: {:?}", other),
            }
        }
        other => panic!("unexpected decode outcome: {:?}", other),
    }
    match decode("{\"type\":\"res\",\"id\":\"7\",\"result\":\"ok\"}") {
        Ok(WsMessage::Response(r)) => {
            assert_eq!(r.id, "7");
            let WsResponseResult::Text(x) = r.result;
            assert_eq!(x, "ok");
        }
        other => panic!("unexpected decode outcome: {:?}", other),
    }
}

#[test]
fn decode_rejects_unknown_method() {
    assert!(decode("{\"type\":\"req\",\"id\":\"a\",\"method\":\"nope\"}").is_err());
    assert!(decode("{\"type\":\"not\",\"method\":\"tellMe\",\"params\":\"x\"}").is_err());
}

#[test]
fn decode_rejects_unknown_kind() {
    assert!(decode("{\"type\":\"zap\",\"id\":\"a\",\"method\":\"ping\"}").is_err());
}

#[test]
fn decode_rejects_extra_field() {
    assert!(decode("{\"type\":\"req\",\"id\":\"a\",\"method\":\"ping\",\"x\":\"1\"}").is_err());
    assert!(decode("{\"type\":\"res\",\"id\":\"a\",\"result\":\"r\",\"more\":\"z\"}").is_err());
}

#[test]
fn decode_rejects_missing_field_or_malformed() {
    assert!(decode("").is_err());
    assert!(decode("not structured at all").is_err());
    assert!(decode("{\"type\":\"req\",\"method\":\"ping\"}").is_err());
    assert!(decode("{\"type\":\"req\",\"id\":\"a\",\"method\":\"ping\"").is_err());
    assert!(decode("{\"type\":\"req\",\"id\":\"a\"}").is_err());
}

#[test]
fn decode_rejects_bad_escape_and_bare_control() {
    assert!(decode("{\"type\":\"res\",\"id\":\"a\\q\",\"result\":\"r\"}").is_err());
    assert!(decode("{\"type\":\"res\",\"id\":\"a\nb\",\"result\":\"r\"}").is_err());
}

#[test]
fn decode_rejects_trailing_text() {
    assert!(decode("{\"type\":\"req\",\"id\":\"a\",\"method\":\"ping\"}garbage").is_err());
}
