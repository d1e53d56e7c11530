use codex_dashboard::app_server::AppServer;
use codex_dashboard::approvals::ServerRequestOutcome;
use codex_dashboard::json::{Json, JsonNumber};

fn text(s: &str) -> Json {
    Json::String(s.to_owned())
}

fn obj(members: Vec<(&str, Json)>) -> Json {
    Json::Object(members.into_iter().map(|(k, v)| (k.to_owned(), v)).collect())
}

#[test]
fn refreshes_for_state_changing_notifications() {
    assert!(AppServer::notification_requires_refresh("thread/started"));
    assert!(AppServer::notification_requires_refresh("turn/completed"));
    assert!(AppServer::notification_requires_refresh("account/updated"));
    assert!(!AppServer::notification_requires_refresh("item/started"));
}

#[test]
fn a_resolved_request_drops_its_approval() {
    let mut server = AppServer::new();
    let params = obj(vec![("threadId", text("t"))]);
    let id = Json::Number(JsonNumber::PosInt(5));
    match server.accept_server_request("item/fileChange/requestApproval", id.clone(), &params) {
        ServerRequestOutcome::Approval(a) => assert_eq!(a.kind, "fileChange"),
        other => panic!("unexpected {other:?}"),
    }
    let other = server.apply_notification("serverRequest/resolved", &obj(vec![("requestId", Json::Number(JsonNumber::PosInt(6)))]));
    assert_eq!(other.resolved_request, Some(Json::Number(JsonNumber::PosInt(6))));
    assert_eq!(server.snapshot.approvals.len(), 1);
    let effect = server.apply_notification("serverRequest/resolved", &obj(vec![("requestId", id)]));
    assert!(!effect.refresh);
    assert!(server.snapshot.approvals.is_empty());
    let effect = server.apply_notification("thread/archived", &Json::Null);
    assert!(effect.refresh);
    assert_eq!(effect.resolved_request, None);
}
