use codex_dashboard::app_server::AppServer;
use codex_dashboard::json::{Json, JsonNumber};
use codex_dashboard::models::RpcEnvelope;
use codex_dashboard::rpc::{notification_message, response_message, route, AppServerError, Incoming};

fn text(s: &str) -> Json {
    Json::String(s.to_owned())
}

fn obj(members: Vec<(&str, Json)>) -> Json {
    Json::Object(members.into_iter().map(|(k, v)| (k.to_owned(), v)).collect())
}

#[test]
fn requests_get_increasing_ids_and_the_jsonrpc_shape() {
    let mut server = AppServer::new();
    let (a, message) = server.next_request("thread/list", Json::Null);
    let (b, _) = server.next_request("thread/list", Json::Null);
    assert_eq!(a, 1);
    assert_eq!(b, 2);
    assert_eq!(
        message,
        obj(vec![
            ("jsonrpc", text("2.0")),
            ("id", Json::Number(JsonNumber::PosInt(1))),
            ("method", text("thread/list")),
            ("params", Json::Null),
        ])
    );
    server.next_id = u64::MAX;
    let (c, _) = server.next_request("x", Json::Null);
    assert_eq!(c, u64::MAX);
    assert_eq!(server.next_id, 0);
}

#[test]
fn responses_and_notifications_have_their_shape() {
    let ok = response_message(text("r1"), Ok(text("done")));
    assert_eq!(ok, obj(vec![("jsonrpc", text("2.0")), ("id", text("r1")), ("result", text("done"))]));
    let err = response_message(text("r1"), Err(Json::Null));
    assert_eq!(err, obj(vec![("jsonrpc", text("2.0")), ("id", text("r1")), ("error", Json::Null)]));
    let n = notification_message("initialized", obj(vec![]));
    assert_eq!(n, obj(vec![("jsonrpc", text("2.0")), ("method", text("initialized")), ("params", obj(vec![]))]));
}

#[test]
fn incoming_messages_are_routed() {
    let request = route(RpcEnvelope { id: Some(text("a")), method: Some("m".to_owned()), params: None, result: None, error: None });
    assert!(matches!(request, Incoming::ServerRequest { ref method, params: Json::Null, .. } if method == "m"));
    let note = route(RpcEnvelope { id: None, method: Some("n".to_owned()), params: Some(text("p")), result: None, error: None });
    assert!(matches!(note, Incoming::Notification { ref params, .. } if *params == text("p")));
    let answer = route(RpcEnvelope { id: Some(Json::Number(JsonNumber::PosInt(7))), method: None, params: None, result: None, error: None });
    assert!(matches!(answer, Incoming::Response { request_id: 7, result: Ok(Json::Null) }));
    let failed = route(RpcEnvelope { id: Some(Json::Number(JsonNumber::PosInt(8))), method: None, params: None, result: Some(text("x")), error: Some("{\"code\":1}".to_owned()) });
    match failed {
        Incoming::Response { request_id: 8, result: Err(e) } => assert_eq!(e.message(), "Codex App Server returned an error: {\"code\":1}"),
        other => panic!("unexpected {other:?}"),
    }
    let stray = route(RpcEnvelope { id: Some(text("s")), method: None, params: None, result: None, error: None });
    assert!(matches!(stray, Incoming::Unrouted));
}

#[test]
fn error_messages_and_disconnect_details() {
    assert_eq!(AppServerError::Io("boom".to_owned()).message(), "Codex App Server could not be started: boom");
    assert_eq!(AppServerError::disconnected().message(), "Codex App Server disconnected");
    assert_eq!(AppServerError::disconnected_with_details("  \n").message(), "Codex App Server disconnected");
    assert_eq!(
        AppServerError::disconnected_with_details("  stderr: oops \n").message(),
        "Codex App Server disconnected: stderr: oops"
    );
    assert!(AppServerError::disconnected().is_disconnected());
    assert!(!AppServerError::rpc("x").is_disconnected());
}

#[test]
fn diagnostics_keep_the_latest_twelve_lines() {
    let mut server = AppServer::new();
    assert_eq!(server.record_diagnostic("stderr", "   "), None);
    for i in 0..14 {
        let entry = server.record_diagnostic("stderr", &format!(" line {i} "));
        assert_eq!(entry, Some(format!("stderr: line {i}")));
    }
    assert_eq!(server.diagnostics.len(), 12);
    assert_eq!(server.diagnostics[0], "stderr: line 2");
    let details = server.diagnostic_details();
    assert!(details.starts_with("stderr: line 2; stderr: line 3; "));
    assert!(details.ends_with("stderr: line 13"));
    assert_eq!(
        server.disconnected_error().message(),
        format!("Codex App Server disconnected: {details}")
    );
    assert_eq!(server.write_error(false, "denied").message(), "Codex App Server could not be started: denied");
    assert!(server.write_error(true, "pipe").is_disconnected());
    let g = server.begin_connection();
    assert_eq!(g, 1);
    assert!(server.is_current_connection(1));
    assert!(server.diagnostics.is_empty());
    assert_eq!(server.diagnostic_details(), "");
    server.snapshot.connected = true;
    let e = server.mark_disconnected();
    assert!(!server.snapshot.connected);
    assert_eq!(e.message(), "Codex App Server disconnected");
}

#[test]
fn many_requests_get_distinct_ids() {
    let mut server = AppServer::new();
    let mut seen = Vec::new();
    for _ in 0..50 {
        let (id, _) = server.next_request("x", Json::Null);
        assert!(!seen.contains(&id));
        if let Some(last) = seen.last() {
            assert!(id > *last);
        }
        seen.push(id);
    }
    server.next_id = u64::MAX - 1;
    let (a, _) = server.next_request("x", Json::Null);
    let (b, _) = server.next_request("x", Json::Null);
    let (c, _) = server.next_request("x", Json::Null);
    assert_eq!((a, b, c), (u64::MAX - 1, u64::MAX, 0));
}

#[test]
fn an_earlier_connection_is_stale_once_another_begins() {
    let mut server = AppServer::new();
    let first = server.begin_connection();
    assert!(server.is_current_connection(first));
    server.next_request("x", Json::Null);
    assert!(server.is_current_connection(first));
    let second = server.begin_connection();
    assert!(!server.is_current_connection(first));
    assert!(server.is_current_connection(second));
}
