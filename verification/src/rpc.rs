//! The JSON-RPC exchange with the Codex App Server: the errors a request can
//! end in, the messages the dashboard writes, and how a message that arrives
//! is routed.
use crate::json::{object, Json, JsonNumber, JsonView};
use crate::models::RpcEnvelope;
use crate::text::{trim, trimmed};
use vstd::prelude::*;

verus! {

/// How a request to the App Server can fail.
#[derive(Debug)]
pub enum AppServerError {
    /// The server could not be started or written to; the text of the I/O error.
    Io(String),
    /// The server answered with an error, or its answer lacked what was asked for.
    Rpc(String),
    /// The server is gone; the text is empty or `": "` and what it last reported.
    Disconnected(String),
}

impl AppServerError {
    /// The text that the variant carries.
    pub open spec fn text(self) -> Seq<char> {
        match self {
            AppServerError::Io(t) => t@,
            AppServerError::Rpc(t) => t@,
            AppServerError::Disconnected(t) => t@,
        }
    }

    /// The message shown to the user.
    pub open spec fn spec_message(self) -> Seq<char> {
        match self {
            AppServerError::Io(t) => "Codex App Server could not be started: "@ + t@,
            AppServerError::Rpc(t) => "Codex App Server returned an error: "@ + t@,
            AppServerError::Disconnected(t) => "Codex App Server disconnected"@ + t@,
        }
    }

    /// The message shown to the user.
    pub fn message(&self) -> (r: String)
        ensures
            r@ == self.spec_message(),
    {
        match self {
            AppServerError::Io(t) => {
                let mut m = "Codex App Server could not be started: ".to_owned();
                m.append(t.as_str());
                m
            },
            AppServerError::Rpc(t) => {
                let mut m = "Codex App Server returned an error: ".to_owned();
                m.append(t.as_str());
                m
            },
            AppServerError::Disconnected(t) => {
                let mut m = "Codex App Server disconnected".to_owned();
                m.append(t.as_str());
                m
            },
        }
    }

    /// An error reported by the server, with the text `text`.
    pub fn rpc(text: &str) -> (r: AppServerError)
        ensures
            r is Rpc,
            r.text() == text@,
    {
        AppServerError::Rpc(text.to_owned())
    }

    /// The server is gone, with nothing more known.
    pub fn disconnected() -> (r: AppServerError)
        ensures
            r is Disconnected,
            r.text() == Seq::<char>::empty(),
    {
        AppServerError::Disconnected(String::new())
    }

    /// The server is gone; `details` is what it last reported, and is kept when
    /// it holds more than whitespace.
    pub fn disconnected_with_details(details: &str) -> (r: AppServerError)
        ensures
            r is Disconnected,
            r.text() == disconnected_text(details@),
    {
        let details = trim(details);
        if details.unicode_len() == 0 {
            AppServerError::disconnected()
        } else {
            let mut t = ": ".to_owned();
            t.append(details);
            AppServerError::Disconnected(t)
        }
    }

    /// Whether the server is gone, after which a request is worth repeating
    /// on a new connection.
    pub fn is_disconnected(&self) -> (r: bool)
        ensures
            r == self is Disconnected,
    {
        match self {
            AppServerError::Disconnected(_) => true,
            _ => false,
        }
    }
}

/// The text of the error for a server that is gone after reporting `details`.
pub open spec fn disconnected_text(details: Seq<char>) -> Seq<char> {
    let t = trimmed(details);
    if t.len() == 0 {
        Seq::empty()
    } else {
        ": "@ + t
    }
}

impl Clone for AppServerError {
    fn clone(&self) -> (r: Self)
        ensures
            r == *self,
    {
        match self {
            AppServerError::Io(t) => AppServerError::Io(t.clone()),
            AppServerError::Rpc(t) => AppServerError::Rpc(t.clone()),
            AppServerError::Disconnected(t) => AppServerError::Disconnected(t.clone()),
        }
    }
}

/// The members `"jsonrpc": "2.0"` and `"id": id` with which each message
/// that carries an id begins.
pub open spec fn rpc_head(id: JsonView) -> Seq<(Seq<char>, JsonView)> {
    seq![("jsonrpc"@, JsonView::String("2.0"@)), ("id"@, id)]
}

/// The request `method` with the id `id` and the parameters `params`.
pub open spec fn request_view(id: u64, method: Seq<char>, params: JsonView) -> JsonView {
    JsonView::Object(
        rpc_head(JsonView::Number(JsonNumber::PosInt(id))) + seq![
            ("method"@, JsonView::String(method)),
            ("params"@, params),
        ],
    )
}

/// The answer to the server's request `id`: its result, or its error.
pub open spec fn response_view(id: JsonView, response: Result<JsonView, JsonView>) -> JsonView {
    match response {
        Ok(result) => JsonView::Object(rpc_head(id) + seq![("result"@, result)]),
        Err(error) => JsonView::Object(rpc_head(id) + seq![("error"@, error)]),
    }
}

/// The notification `method` with the parameters `params`.
pub open spec fn notification_view(method: Seq<char>, params: JsonView) -> JsonView {
    JsonView::Object(
        seq![
            ("jsonrpc"@, JsonView::String("2.0"@)),
            ("method"@, JsonView::String(method)),
            ("params"@, params),
        ],
    )
}

/// The request `method` with the id `id` and the parameters `params`.
pub fn request_message(id: u64, method: &str, params: Json) -> (r: Json)
    ensures
        r@ == request_view(id, method@, params@),
{
    let ghost p = params@;
    let mut m: Vec<(String, Json)> = Vec::new();
    m.push(("jsonrpc".to_owned(), Json::string("2.0")));
    m.push(("id".to_owned(), Json::Number(JsonNumber::PosInt(id))));
    m.push(("method".to_owned(), Json::string(method)));
    m.push(("params".to_owned(), params));
    let r = object(m);
    assert(r@->Object_0 =~= request_view(id, method@, p)->Object_0);
    r
}

/// The views of a result or an error.
pub open spec fn result_view(r: &Result<Json, Json>) -> Result<JsonView, JsonView> {
    match r {
        Ok(v) => Ok(v@),
        Err(e) => Err(e@),
    }
}

/// The answer to the server's request `id`.
pub fn response_message(id: Json, response: Result<Json, Json>) -> (r: Json)
    ensures
        r@ == response_view(id@, result_view(&response)),
{
    let ghost i = id@;
    let ghost resp = result_view(&response);
    let mut m: Vec<(String, Json)> = Vec::new();
    m.push(("jsonrpc".to_owned(), Json::string("2.0")));
    m.push(("id".to_owned(), id));
    match response {
        Ok(result) => m.push(("result".to_owned(), result)),
        Err(error) => m.push(("error".to_owned(), error)),
    }
    let r = object(m);
    assert(r@->Object_0 =~= response_view(i, resp)->Object_0);
    r
}

/// The notification `method` with the parameters `params`.
pub fn notification_message(method: &str, params: Json) -> (r: Json)
    ensures
        r@ == notification_view(method@, params@),
{
    let ghost p = params@;
    let mut m: Vec<(String, Json)> = Vec::new();
    m.push(("jsonrpc".to_owned(), Json::string("2.0")));
    m.push(("method".to_owned(), Json::string(method)));
    m.push(("params".to_owned(), params));
    let r = object(m);
    assert(r@->Object_0 =~= notification_view(method@, p)->Object_0);
    r
}

/// Where a message that arrives from the server goes.
#[derive(Debug)]
pub enum Incoming {
    /// The server asks the dashboard something and waits for the answer.
    ServerRequest { method: String, id: Json, params: Json },
    /// The server tells the dashboard something.
    Notification { method: String, params: Json },
    /// The answer to the dashboard's request `id`.
    Response { request_id: u64, result: Result<Json, AppServerError> },
    /// A message that none of the above describes; nothing is done with it.
    Unrouted,
}

/// `o`, or `null` where it is absent.
pub open spec fn or_null(o: Option<Json>) -> JsonView {
    match o {
        Some(v) => v@,
        None => JsonView::Null,
    }
}

/// Where `e` goes: a message with a method is a request of the server when
/// it carries an id and a notification when it does not; a message without a
/// method whose id is a non-negative integer answers the request of that id,
/// with its error if it has one and else with its result (`null` if absent).
pub open spec fn routed(e: RpcEnvelope, r: Incoming) -> bool {
    match e.method {
        Some(m) => match e.id {
            Some(id) => r matches Incoming::ServerRequest { method, id: rid, params } && method@
                == m@ && rid@ == id@ && params@ == or_null(e.params),
            None => r matches Incoming::Notification { method, params } && method@ == m@
                && params@ == or_null(e.params),
        },
        None => match e.id {
            Some(id) if id@.as_u64() is Some => r matches Incoming::Response { request_id: n, result }
                && Some(n) == id@.as_u64() && match e.error {
                Some(text) => result matches Err(err) && err is Rpc && err.text() == text@,
                None => result matches Ok(v) && v@ == or_null(e.result),
            },
            _ => r is Unrouted,
        },
    }
}

fn unwrap_or_null(o: Option<Json>) -> (r: Json)
    ensures
        r@ == or_null(o),
{
    match o {
        Some(v) => v,
        None => Json::Null,
    }
}

/// Where the message `envelope` goes.
pub fn route(envelope: RpcEnvelope) -> (r: Incoming)
    ensures
        routed(envelope, r),
{
    let RpcEnvelope { id, method, params, result, error } = envelope;
    match method {
        Some(method) => match id {
            Some(id) => Incoming::ServerRequest { method, id, params: unwrap_or_null(params) },
            None => Incoming::Notification { method, params: unwrap_or_null(params) },
        },
        None => {
            let n = match &id {
                Some(v) => v.as_u64(),
                None => None,
            };
            match n {
                Some(n) => {
                    let result = match error {
                        Some(text) => Err(AppServerError::Rpc(text)),
                        None => Ok(unwrap_or_null(result)),
                    };
                    Incoming::Response { request_id: n, result }
                },
                None => Incoming::Unrouted,
            }
        },
    }
}

} // verus!
