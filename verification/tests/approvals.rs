use codex_dashboard::app_server::AppServer;
use codex_dashboard::approvals::{available_decisions, ServerRequestOutcome};
use codex_dashboard::json::{Json, JsonNumber};

fn text(s: &str) -> Json {
    Json::String(s.to_owned())
}

fn obj(members: Vec<(&str, Json)>) -> Json {
    Json::Object(members.into_iter().map(|(k, v)| (k.to_owned(), v)).collect())
}

#[test]
fn command_approval_is_taken_in() {
    let mut server = AppServer::new();
    let params = obj(vec![
        ("threadId", text("t1")),
        ("turnId", text("u1")),
        ("startedAtMs", Json::Number(JsonNumber::PosInt(42))),
        ("command", text("ls")),
    ]);
    let outcome = server.accept_server_request("item/commandExecution/requestApproval", text("r1"), &params);
    match outcome {
        ServerRequestOutcome::Approval(a) => {
            assert_eq!(a.kind, "command");
            assert_eq!(a.thread_id, "t1");
            assert_eq!(a.turn_id, "u1");
            assert_eq!(a.item_id, "");
            assert_eq!(a.started_at, 42);
            assert_eq!(a.command.as_deref(), Some("ls"));
            assert_eq!(a.cwd, None);
            assert_eq!(a.available_decisions, vec!["accept", "acceptForSession", "decline"]);
        }
        other => panic!("unexpected {other:?}"),
    }
    server.accept_server_request("item/commandExecution/requestApproval", text("r1"), &params);
    assert_eq!(server.snapshot.approvals.len(), 1);
}

#[test]
fn unsupported_server_requests_are_refused() {
    let mut server = AppServer::new();
    let outcome = server.accept_server_request("item/tool/call", Json::Number(JsonNumber::PosInt(3)), &Json::Null);
    match outcome {
        ServerRequestOutcome::Rejected(answer) => assert_eq!(
            answer,
            obj(vec![
                ("jsonrpc", text("2.0")),
                ("id", Json::Number(JsonNumber::PosInt(3))),
                (
                    "error",
                    obj(vec![
                        ("code", Json::Number(JsonNumber::NegInt(-32601))),
                        ("message", text("Unsupported server request: item/tool/call")),
                    ])
                ),
            ])
        ),
        other => panic!("unexpected {other:?}"),
    }
    assert!(server.snapshot.approvals.is_empty());
}

#[test]
fn offered_decisions_are_the_strings_given_or_the_defaults() {
    let given = obj(vec![("availableDecisions", Json::Array(vec![text("accept"), Json::Null, text("decline")]))]);
    assert_eq!(available_decisions(&given), vec!["accept", "decline"]);
    let empty = obj(vec![("availableDecisions", Json::Array(vec![Json::Null]))]);
    assert_eq!(available_decisions(&empty), vec!["accept", "acceptForSession", "decline"]);
}

#[test]
fn answering_an_approval_takes_it_off_and_a_failed_answer_puts_it_back() {
    let mut server = AppServer::new();
    let params = obj(vec![("threadId", text("t1"))]);
    server.accept_server_request("item/fileChange/requestApproval", text("a"), &params);
    server.accept_server_request("item/fileChange/requestApproval", text("b"), &params);

    let refused = server.begin_resolve_approval(&text("a"), "maybe").unwrap_err();
    assert_eq!(refused.message(), "Codex App Server returned an error: Unsupported approval decision");
    assert_eq!(server.snapshot.approvals.len(), 2);

    let missing = server.begin_resolve_approval(&text("zz"), "accept").unwrap_err();
    assert_eq!(missing.message(), "Codex App Server returned an error: Approval request is no longer pending");

    let (approval, answer) = server.begin_resolve_approval(&text("a"), "decline").unwrap();
    assert_eq!(approval.request_id, text("a"));
    assert_eq!(
        answer,
        obj(vec![("jsonrpc", text("2.0")), ("id", text("a")), ("result", obj(vec![("decision", text("decline"))]))])
    );
    assert_eq!(server.snapshot.approvals.len(), 1);
    server.restore_approval(approval);
    assert_eq!(server.snapshot.approvals.len(), 2);
    assert_eq!(server.snapshot.approvals[1].request_id, text("a"));

    server.archive_session("t1");
    assert!(server.snapshot.approvals.is_empty());
}

#[test]
fn an_approval_is_found_by_an_equal_id_whatever_its_member_order() {
    let mut server = AppServer::new();
    let params = obj(vec![("threadId", text("t1"))]);
    let id = obj(vec![("n", Json::Number(JsonNumber::PosInt(7))), ("s", text("x"))]);
    let same_id = obj(vec![("s", text("x")), ("n", Json::Number(JsonNumber::PosInt(7)))]);
    server.accept_server_request("item/fileChange/requestApproval", id, &params);
    server.accept_server_request("item/fileChange/requestApproval", same_id.clone(), &params);
    assert_eq!(server.snapshot.approvals.len(), 1);
    let (approval, _) = server.begin_resolve_approval(&same_id, "accept").unwrap();
    assert_eq!(approval.request_id, same_id);
    assert!(server.snapshot.approvals.is_empty());
}
