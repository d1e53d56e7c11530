use codex_dashboard::json::{Json, JsonNumber};
use codex_dashboard::login::check_login_url;
use codex_dashboard::requests::{
    answer_or_null, history_page, initialize_params, login_url_of, thread_list_params,
    thread_start_params, turn_start_params, Pager,
};
use codex_dashboard::rpc::AppServerError;

fn text(s: &str) -> Json {
    Json::String(s.to_owned())
}

fn obj(members: Vec<(&str, Json)>) -> Json {
    Json::Object(members.into_iter().map(|(k, v)| (k.to_owned(), v)).collect())
}

fn num(n: u64) -> Json {
    Json::Number(JsonNumber::PosInt(n))
}

#[test]
fn request_parameters_have_their_shape() {
    assert_eq!(
        thread_start_params("/w", Some("")),
        obj(vec![("cwd", text("/w")), ("threadSource", text("codex-dashboard"))])
    );
    assert_eq!(
        thread_start_params("/w", Some("gpt")),
        obj(vec![("cwd", text("/w")), ("threadSource", text("codex-dashboard")), ("model", text("gpt"))])
    );
    assert_eq!(
        turn_start_params("t", "hi"),
        obj(vec![
            ("threadId", text("t")),
            (
                "input",
                Json::Array(vec![obj(vec![
                    ("type", text("text")),
                    ("text", text("hi")),
                    ("text_elements", Json::Array(vec![])),
                ])])
            ),
        ])
    );
    assert_eq!(
        thread_list_params(&Some("c2".to_owned()), true),
        obj(vec![
            ("cursor", text("c2")),
            ("limit", num(100)),
            ("sortKey", text("updated_at")),
            ("sortDirection", text("desc")),
            ("archived", Json::Bool(true)),
        ])
    );
    assert_eq!(thread_list_params(&None, false).get("cursor"), Some(&Json::Null));
    let init = initialize_params("0.1.0");
    assert_eq!(init.get("clientInfo").and_then(|c| c.get("version")), Some(&text("0.1.0")));
}

#[test]
fn pages_are_read_until_no_cursor_or_ten_pages() {
    let mut pager = Pager::new();
    assert!(pager.wants_more());
    pager.accept_page(&obj(vec![("data", Json::Array(vec![num(1), num(2)])), ("nextCursor", text("c"))]));
    assert!(pager.wants_more());
    assert_eq!(pager.cursor.as_deref(), Some("c"));
    pager.accept_page(&obj(vec![("data", Json::Array(vec![num(3)]))]));
    assert!(!pager.wants_more());
    assert_eq!(pager.items, vec![num(1), num(2), num(3)]);

    let mut endless = Pager::new();
    let page = obj(vec![("data", Json::Array(vec![num(0)])), ("nextCursor", text("again"))]);
    let mut read = 0;
    while endless.wants_more() {
        endless.accept_page(&page);
        read += 1;
    }
    assert_eq!(read, 10);
    assert_eq!(endless.items.len(), 10);
}

#[test]
fn unmaterialized_history_reads_as_empty() {
    let error = AppServerError::Rpc("thread t is not materialized yet; thread/turns/list unavailable".to_owned());
    assert_eq!(history_page(Err(error)).unwrap(), obj(vec![("data", Json::Array(vec![]))]));
    assert!(history_page(Err(AppServerError::disconnected())).is_err());
    assert_eq!(history_page(Ok(num(1))).unwrap(), num(1));
    assert_eq!(answer_or_null(Err(AppServerError::disconnected())), Json::Null);
}

#[test]
fn login_url_prefers_auth_url() {
    assert_eq!(login_url_of(&obj(vec![("authUrl", text("https://a")), ("url", text("https://b"))])), Some("https://a".to_owned()));
    assert_eq!(login_url_of(&obj(vec![("url", text("https://b"))])), Some("https://b".to_owned()));
    assert_eq!(login_url_of(&obj(vec![("authUrl", num(1)), ("url", text("https://b"))])), None);
}

#[test]
fn login_urls_must_be_http_or_https() {
    assert!(check_login_url("https://auth.example.com/x").is_ok());
    assert!(check_login_url("HTTP://auth.example.com").is_ok());
    let e = check_login_url("file:///etc/passwd").unwrap_err();
    assert_eq!(e.message(), "Codex App Server returned an error: Login URL must use http or https");
    let e = check_login_url("not a url").unwrap_err();
    assert_eq!(e.message(), "Codex App Server returned an error: relative URL without a base");
}

