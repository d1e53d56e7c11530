use codex_dashboard::json::{json_eq, Json, JsonNumber};
use codex_dashboard::models::{
    parse_account, parse_models, parse_sessions, reset_fits, sessions_fit, shown_status_of,
};

fn text(s: &str) -> Json {
    Json::String(s.to_owned())
}

fn obj(members: Vec<(&str, Json)>) -> Json {
    Json::Object(members.into_iter().map(|(k, v)| (k.to_owned(), v)).collect())
}

fn num(n: u64) -> Json {
    Json::Number(JsonNumber::PosInt(n))
}

#[test]
fn json_lookups_follow_members_and_types() {
    let v = obj(vec![("a", num(1)), ("b", text("x")), ("c", Json::Array(vec![Json::Null]))]);
    assert_eq!(v.get("a").and_then(|x| x.as_i64()), Some(1));
    assert_eq!(v.get("b").and_then(|x| x.as_str()), Some("x"));
    assert_eq!(v.get("b").and_then(|x| x.as_i64()), None);
    assert!(v.get("zz").is_none());
    assert!(Json::Array(vec![]).get("a").is_none());
    assert_eq!(Json::Number(JsonNumber::PosInt(u64::MAX)).as_i64(), None);
    assert_eq!(Json::Number(JsonNumber::NegInt(-4)).as_i64(), Some(-4));
    assert_eq!(Json::Number(JsonNumber::NegInt(-4)).as_u64(), None);
    assert_eq!(Json::Number(JsonNumber::Float(0x3ff0000000000000)).as_i64(), None);
    assert!(json_eq(&v, &v.clone()));
    assert!(!json_eq(&v, &obj(vec![("a", num(1))])));
    assert!(!json_eq(&num(1), &text("1")));
}

#[test]
fn sessions_are_parsed_with_defaults_and_mapped_status() {
    let value = obj(vec![(
        "data",
        Json::Array(vec![
            obj(vec![
                ("id", text("t1")),
                ("name", text("")),
                ("preview", text("Preview text")),
                ("status", obj(vec![("type", text("active"))])),
                ("cwd", text("/w")),
                ("updatedAt", num(12)),
                ("model", text("gpt")),
            ]),
            obj(vec![("status", text("systemError"))]),
            obj(vec![("name", text("Named")), ("status", text("waiting"))]),
            obj(vec![("status", obj(vec![("type", num(3))]))]),
            obj(vec![("status", text("running"))]),
        ]),
    )]);
    assert!(sessions_fit(&value));
    let sessions = parse_sessions(&value);
    assert_eq!(sessions.len(), 5);
    assert_eq!(sessions[0].id, "t1");
    assert_eq!(sessions[0].title, "Preview text");
    assert_eq!(sessions[0].status, "working");
    assert_eq!(sessions[0].cwd, "/w");
    assert_eq!(sessions[0].updated_at, 12000);
    assert_eq!(sessions[0].model, "gpt");
    assert_eq!(sessions[1].id, "");
    assert_eq!(sessions[1].title, "Untitled session");
    assert_eq!(sessions[1].status, "error");
    assert_eq!(sessions[1].model, "Codex");
    assert_eq!(sessions[1].updated_at, 0);
    assert_eq!(sessions[2].title, "Named");
    assert_eq!(sessions[2].status, "waiting");
    assert_eq!(sessions[3].status, "idle");
    assert_eq!(sessions[4].status, "working");
    assert!(parse_sessions(&obj(vec![("data", text("no"))])).is_empty());
    assert!(parse_sessions(&Json::Null).is_empty());
}

#[test]
fn status_names_map_to_four_states() {
    assert_eq!(shown_status_of("active"), "working");
    assert_eq!(shown_status_of("running"), "working");
    assert_eq!(shown_status_of("waiting"), "waiting");
    assert_eq!(shown_status_of("error"), "error");
    assert_eq!(shown_status_of("systemError"), "error");
    assert_eq!(shown_status_of("notLoaded"), "idle");
}

#[test]
fn timestamps_out_of_range_are_detected() {
    let big = obj(vec![("data", Json::Array(vec![obj(vec![("updatedAt", num(9_300_000_000_000_000))])]))]);
    assert!(!sessions_fit(&big));
    let rate = obj(vec![("rateLimits", obj(vec![("primary", obj(vec![("resetsAt", num(9_300_000_000_000_000))]))]))]);
    assert!(!reset_fits(&rate));
}

#[test]
fn account_is_read_from_both_answers() {
    let account = obj(vec![(
        "account",
        obj(vec![("email", text("a@b.c")), ("planType", text("plus"))]),
    )]);
    let rates = obj(vec![(
        "rateLimits",
        obj(vec![(
            "primary",
            obj(vec![("usedPercent", Json::Number(JsonNumber::Float(0x4049000000000000))), ("resetsAt", num(100))]),
        )]),
    )]);
    assert!(reset_fits(&rates));
    let a = parse_account(&account, &rates);
    assert!(a.connected);
    assert_eq!(a.email.as_deref(), Some("a@b.c"));
    assert_eq!(a.plan.as_deref(), Some("plus"));
    assert_eq!(a.used_percent, Some(JsonNumber::Float(0x4049000000000000)));
    assert_eq!(a.resets_at, Some(100_000));

    let none = parse_account(&obj(vec![("account", Json::Null)]), &Json::Null);
    assert!(!none.connected);
    assert_eq!(none.email, None);
    assert_eq!(none.resets_at, None);
    assert_eq!(none.used_percent, None);
}

#[test]
fn models_without_an_id_are_skipped() {
    let response = obj(vec![(
        "data",
        Json::Array(vec![
            obj(vec![("model", text("m1")), ("displayName", text("Model One")), ("isDefault", Json::Bool(true))]),
            obj(vec![("displayName", text("nameless"))]),
            obj(vec![("model", text("m2")), ("description", text("second"))]),
        ]),
    )]);
    let models = parse_models(&response);
    assert_eq!(models.len(), 2);
    assert_eq!(models[0].id, "m1");
    assert_eq!(models[0].display_name, "Model One");
    assert!(models[0].is_default);
    assert_eq!(models[0].description, "");
    assert_eq!(models[1].display_name, "m2");
    assert_eq!(models[1].description, "second");
    assert!(!models[1].is_default);
}

#[test]
fn zero_and_negative_zero_are_equal_numbers() {
    let zero = Json::Number(JsonNumber::Float(0));
    let negative_zero = Json::Number(JsonNumber::Float(0x8000_0000_0000_0000));
    let one = Json::Number(JsonNumber::Float(1.0f64.to_bits()));
    assert!(json_eq(&zero, &negative_zero));
    assert!(json_eq(&negative_zero, &zero));
    assert!(!json_eq(&zero, &one));
    assert_eq!(negative_zero.as_number(), Some(JsonNumber::Float(0x8000_0000_0000_0000)));
    assert_eq!(JsonNumber::Float(0x8000_0000_0000_0000).normalized(), JsonNumber::Float(0));
}

#[test]
fn objects_are_equal_whatever_the_order_of_their_members() {
    let ab = obj(vec![("a", num(1)), ("b", text("x"))]);
    let ba = obj(vec![("b", text("x")), ("a", num(1))]);
    assert!(json_eq(&ab, &ba));
    assert!(json_eq(&ba, &ab));
    let nested_ab = Json::Array(vec![ab]);
    let nested_ba = Json::Array(vec![ba]);
    assert!(json_eq(&nested_ab, &nested_ba));
    let a_only = obj(vec![("a", num(1))]);
    let ab2 = obj(vec![("a", num(1)), ("b", text("y"))]);
    assert!(!json_eq(&a_only, &obj(vec![("b", text("x")), ("a", num(1))])));
    assert!(!json_eq(&obj(vec![("b", text("x")), ("a", num(1))]), &a_only));
    assert!(!json_eq(&ab2, &obj(vec![("b", text("x")), ("a", num(1))])));
}
