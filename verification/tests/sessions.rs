use codex_dashboard::app_server::AppServer;
use codex_dashboard::json::{Json, JsonNumber};
use codex_dashboard::models::{Message, Session, TokenUsage};
use codex_dashboard::rpc::AppServerError;
use codex_dashboard::sessions::{
    is_unmaterialized_thread_error, requires_thread_resume, sort_by_recency, title_from_prompt,
};

fn text(s: &str) -> Json {
    Json::String(s.to_owned())
}

fn obj(members: Vec<(&str, Json)>) -> Json {
    Json::Object(members.into_iter().map(|(k, v)| (k.to_owned(), v)).collect())
}

fn num(n: u64) -> Json {
    Json::Number(JsonNumber::PosInt(n))
}

fn session(id: &str, updated_at: i64) -> Session {
    Session {
        id: id.to_owned(),
        title: format!("title {id}"),
        cwd: "/workspace".to_owned(),
        status: "idle".to_owned(),
        updated_at,
        model: "Codex".to_owned(),
        active_turn_id: None,
        messages: Vec::new(),
        token_usage: Default::default(),
        history_loaded: false,
    }
}

fn thread(id: &str, updated_at: u64) -> Json {
    obj(vec![("id", text(id)), ("preview", text("hello")), ("updatedAt", num(updated_at))])
}

#[test]
fn recognizes_unmaterialized_thread_history_errors() {
    let error = AppServerError::Rpc(
        r#"{"code":-32600,"message":"thread abc is not materialized yet; thread/turns/list is unavailable before first user message"}"#.to_owned(),
    );
    assert!(is_unmaterialized_thread_error(&error));
    assert!(!is_unmaterialized_thread_error(&AppServerError::Rpc(
        r#"{"code":-32600,"message":"another request failed"}"#.to_owned(),
    )));
}

#[test]
fn skips_resume_for_a_pending_unmaterialized_thread() {
    let pending_threads = vec!["pending".to_owned()];
    assert!(!requires_thread_resume(&pending_threads, "pending"));
    assert!(requires_thread_resume(&pending_threads, "existing"));
}

#[test]
fn preserves_pending_threads_until_they_are_materialized() {
    let pending = Session {
        id: "pending".to_owned(),
        title: "New session".to_owned(),
        cwd: "/workspace".to_owned(),
        status: "idle".to_owned(),
        updated_at: 2,
        model: "Codex".to_owned(),
        active_turn_id: None,
        messages: Vec::new(),
        token_usage: Default::default(),
        history_loaded: true,
    };
    let mut pending_threads = vec![pending.id.clone()];
    let mut sessions = Vec::new();

    AppServer::preserve_pending_sessions(
        std::slice::from_ref(&pending),
        &mut sessions,
        &mut pending_threads,
    );
    assert_eq!(sessions[0].id, "pending");
    assert!(pending_threads.iter().any(|t| t == "pending"));

    AppServer::preserve_pending_sessions(
        std::slice::from_ref(&pending),
        &mut sessions,
        &mut pending_threads,
    );
    assert!(!pending_threads.iter().any(|t| t == "pending"));
}

#[test]
fn a_timeout_or_other_error_is_not_an_unmaterialized_thread() {
    let disconnected = AppServerError::Disconnected(": is not materialized yet thread/turns/list".to_owned());
    assert!(!is_unmaterialized_thread_error(&disconnected));
    let half = AppServerError::Rpc("thread x is not materialized yet".to_owned());
    assert!(!is_unmaterialized_thread_error(&half));
}

#[test]
fn sorting_puts_newest_first_and_keeps_ties_in_order() {
    let sessions = vec![session("a", 1), session("b", 3), session("c", 1), session("d", 3), session("e", 2)];
    let sorted = sort_by_recency(&sessions);
    let ids: Vec<&str> = sorted.iter().map(|s| s.id.as_str()).collect();
    assert_eq!(ids, vec!["b", "d", "e", "a", "c"]);
}

#[test]
fn title_comes_from_the_first_nonblank_line_cut_to_80_chars() {
    assert_eq!(title_from_prompt("\n  \r\n  Fix the build  \nmore"), "Fix the build");
    assert_eq!(title_from_prompt("   \n\t"), "New session");
    assert_eq!(title_from_prompt(""), "New session");
    let long = "é".repeat(100);
    assert_eq!(title_from_prompt(&long).chars().count(), 80);
}

#[test]
fn listing_keeps_loaded_history_and_pending_threads_and_sorts() {
    let mut server = AppServer::new();
    let mut loaded = session("t1", 5000);
    loaded.history_loaded = true;
    loaded.messages.push(Message {
        id: "m1".to_owned(),
        role: "user".to_owned(),
        text: "hi".to_owned(),
        created_at: 7,
        streaming: None,
    });
    loaded.token_usage = TokenUsage { input: 1, output: 2, cached: 3 };
    let pending = session("p1", 9_000_000);
    server.snapshot.sessions = vec![loaded, pending];
    server.pending_threads = vec!["p1".to_owned(), "t2".to_owned()];

    let threads = vec![thread("t1", 4), thread("t2", 6)];
    let snapshot = server.install_sessions(&threads);
    let ids: Vec<&str> = snapshot.sessions.iter().map(|s| s.id.as_str()).collect();
    assert_eq!(ids, vec!["p1", "t2", "t1"]);
    let t1 = snapshot.sessions.iter().find(|s| s.id == "t1").unwrap();
    assert_eq!(t1.updated_at, 4000);
    assert!(t1.history_loaded);
    assert_eq!(t1.messages.len(), 1);
    assert_eq!(t1.token_usage, TokenUsage { input: 1, output: 2, cached: 3 });
    assert!(snapshot.connected);
    assert_eq!(server.pending_threads, vec!["p1".to_owned()]);
}

#[test]
fn archived_listing_is_sorted_newest_first() {
    let mut server = AppServer::new();
    let archived = server.install_archived_sessions(&vec![thread("a", 1), thread("b", 2)]);
    let ids: Vec<&str> = archived.iter().map(|s| s.id.as_str()).collect();
    assert_eq!(ids, vec!["b", "a"]);
    assert_eq!(server.snapshot.archived_sessions.len(), 2);
}

#[test]
fn a_started_thread_goes_first_and_waits_when_it_has_no_prompt() {
    let mut server = AppServer::new();
    server.snapshot.sessions = vec![session("old", 1), session("t9", 1)];
    let response = obj(vec![
        ("thread", obj(vec![("id", text("t9")), ("preview", text("")), ("updatedAt", num(3))])),
        ("model", text("gpt-5")),
    ]);
    let s = server.add_started_session("t9", &response, "  ").unwrap();
    assert_eq!(s.title, "New session");
    assert_eq!(s.model, "gpt-5");
    assert!(s.history_loaded);
    assert_eq!(s.status, "idle");
    assert_eq!(server.pending_threads, vec!["t9".to_owned()]);
    let ids: Vec<&str> = server.snapshot.sessions.iter().map(|s| s.id.as_str()).collect();
    assert_eq!(ids, vec!["t9", "old"]);

    let response = obj(vec![("thread", obj(vec![("id", text("t10"))]))]);
    let s = server.add_started_session("t10", &response, "Write tests\nplease").unwrap();
    assert_eq!(s.title, "Write tests");
    assert_eq!(s.status, "working");
    assert_eq!(s.model, "Codex");
    assert!(!s.history_loaded);
    assert_eq!(server.pending_threads, vec!["t9".to_owned()]);

    let missing = obj(vec![("model", text("x"))]);
    let error = server.add_started_session("t11", &missing, "hi").unwrap_err();
    assert_eq!(error.message(), "Codex App Server returned an error: thread/start returned no thread");
}

#[test]
fn renaming_archiving_and_restoring_sessions() {
    let mut server = AppServer::new();
    server.snapshot.sessions = vec![session("a", 1), session("b", 2)];
    server.pending_threads = vec!["b".to_owned()];
    let renamed = server.rename_session("b", "Better").unwrap();
    assert_eq!(renamed.title, "Better");
    assert_eq!(server.snapshot.sessions[1].title, "Better");
    let error = server.rename_session("zzz", "x").unwrap_err();
    assert_eq!(error.message(), "Codex App Server returned an error: Session zzz was not found");

    let mut b_loaded = server.snapshot.sessions[1].clone();
    b_loaded.history_loaded = true;
    b_loaded.model = "kept-model".to_owned();
    server.snapshot.sessions[1] = b_loaded;
    server.archive_session("b");
    assert!(server.pending_threads.is_empty());
    assert_eq!(server.snapshot.sessions.len(), 1);
    assert_eq!(server.snapshot.archived_sessions[0].id, "b");

    let response = obj(vec![("thread", obj(vec![("id", text("b")), ("name", text("Back")), ("updatedAt", num(9))]))]);
    let restored = server.restore_session("b", &response).unwrap();
    assert_eq!(restored.title, "Back");
    assert_eq!(restored.model, "kept-model");
    assert!(restored.history_loaded);
    assert!(server.snapshot.archived_sessions.is_empty());
    assert_eq!(server.snapshot.sessions[0].id, "b");
    let error = server.restore_session("b", &obj(vec![])).unwrap_err();
    assert_eq!(error.message(), "Codex App Server returned an error: thread/unarchive returned no thread");
}

#[test]
fn finding_sessions_for_their_history() {
    let mut server = AppServer::new();
    server.snapshot.sessions = vec![session("a", 1)];
    server.snapshot.archived_sessions = vec![session("z", 1)];
    assert_eq!(server.session_for_history("a").unwrap().id, "a");
    assert_eq!(server.session_for_history("z").unwrap().id, "z");
    assert!(server.listed_session("z").is_err());
    assert!(server.session_for_history("q").is_err());
}
