//! The parameters of the requests that the dashboard sends, the paging of
//! list requests, and what is read back from a few answers.
use crate::dup::Duplicate;
use crate::json::{array_of, object, opt_str, views, Json, JsonNumber, JsonView};
use crate::models::data_of;
use crate::rpc::AppServerError;
use crate::sessions::{is_unmaterialized_thread_error, unmaterialized_thread_error};
use vstd::prelude::*;

verus! {

/// How many pages a list request reads at most.
pub const MAX_PAGES: usize = 10;

/// A string value.
pub open spec fn jstr(s: Seq<char>) -> JsonView {
    JsonView::String(s)
}

/// An integer value that is zero or more.
pub open spec fn jnat(n: u64) -> JsonView {
    JsonView::Number(JsonNumber::PosInt(n))
}

/// A cursor, or `null` for the first page.
pub open spec fn cursor_value(cursor: Option<Seq<char>>) -> JsonView {
    match cursor {
        Some(c) => jstr(c),
        None => JsonView::Null,
    }
}

/// The user input `text` of a turn.
pub open spec fn text_input(text: Seq<char>) -> JsonView {
    JsonView::Array(
        seq![
            JsonView::Object(
                seq![
                    ("type"@, jstr("text"@)),
                    ("text"@, jstr(text)),
                    ("text_elements"@, JsonView::Array(Seq::empty())),
                ],
            ),
        ],
    )
}

/// The parameters of `thread/start` in `cwd`, with `model` where one is named.
pub open spec fn thread_start_request(cwd: Seq<char>, model: Option<Seq<char>>) -> JsonView {
    let base = seq![("cwd"@, jstr(cwd)), ("threadSource"@, jstr("codex-dashboard"@))];
    match model {
        Some(m) if m.len() > 0 => JsonView::Object(base.push(("model"@, jstr(m)))),
        _ => JsonView::Object(base),
    }
}

/// The parameters of `turn/start` that send `text` to the thread `thread_id`.
pub open spec fn turn_start_request(thread_id: Seq<char>, text: Seq<char>) -> JsonView {
    JsonView::Object(seq![("threadId"@, jstr(thread_id)), ("input"@, text_input(text))])
}

/// The parameters of a request about the thread `thread_id` alone.
pub open spec fn thread_request(thread_id: Seq<char>) -> JsonView {
    JsonView::Object(seq![("threadId"@, jstr(thread_id))])
}

/// The parameters of `thread/name/set`.
pub open spec fn rename_request(thread_id: Seq<char>, name: Seq<char>) -> JsonView {
    JsonView::Object(seq![("threadId"@, jstr(thread_id)), ("name"@, jstr(name))])
}

/// The parameters of `turn/interrupt`.
pub open spec fn interrupt_request(thread_id: Seq<char>, turn_id: Seq<char>) -> JsonView {
    JsonView::Object(seq![("threadId"@, jstr(thread_id)), ("turnId"@, jstr(turn_id))])
}

/// The parameters of `thread/list` for the page at `cursor`; the archive
/// is asked for with `archived`.
pub open spec fn thread_list_request(cursor: Option<Seq<char>>, archived: bool) -> JsonView {
    let base = seq![
        ("cursor"@, cursor_value(cursor)),
        ("limit"@, jnat(100)),
        ("sortKey"@, jstr("updated_at"@)),
        ("sortDirection"@, jstr("desc"@)),
    ];
    if archived {
        JsonView::Object(base.push(("archived"@, JsonView::Bool(true))))
    } else {
        JsonView::Object(base)
    }
}

/// The parameters of `thread/turns/list` for the page at `cursor` of the
/// whole history of `thread_id`, oldest first.
pub open spec fn history_page_request(thread_id: Seq<char>, cursor: Option<Seq<char>>) -> JsonView {
    JsonView::Object(
        seq![
            ("threadId"@, jstr(thread_id)),
            ("cursor"@, cursor_value(cursor)),
            ("limit"@, jnat(100)),
            ("sortDirection"@, jstr("asc"@)),
            ("itemsView"@, jstr("full"@)),
        ],
    )
}

/// The parameters of `thread/turns/list` for the 20 latest turns of `thread_id`.
pub open spec fn recent_turns_request(thread_id: Seq<char>) -> JsonView {
    JsonView::Object(
        seq![
            ("threadId"@, jstr(thread_id)),
            ("limit"@, jnat(20)),
            ("sortDirection"@, jstr("desc"@)),
            ("itemsView"@, jstr("full"@)),
        ],
    )
}

/// The parameters of `model/list`.
pub open spec fn model_list_request() -> JsonView {
    JsonView::Object(seq![("limit"@, jnat(100)), ("includeHidden"@, JsonView::Bool(false))])
}

/// The parameters of `account/read`.
pub open spec fn account_read_request(refresh_token: bool) -> JsonView {
    JsonView::Object(seq![("refreshToken"@, JsonView::Bool(refresh_token))])
}

/// The parameters of `account/login/start` for a ChatGPT login.
pub open spec fn login_start_request() -> JsonView {
    JsonView::Object(
        seq![
            ("type"@, jstr("chatgpt"@)),
            ("useHostedLoginSuccessPage"@, JsonView::Bool(true)),
            ("appBrand"@, jstr("codex"@)),
        ],
    )
}

/// The parameters of `initialize`, naming the dashboard at version `version`.
pub open spec fn initialize_request(version: Seq<char>) -> JsonView {
    JsonView::Object(
        seq![
            (
                "clientInfo"@,
                JsonView::Object(
                    seq![
                        ("name"@, jstr("codex-dashboard"@)),
                        ("title"@, jstr("Codex Dashboard"@)),
                        ("version"@, jstr(version)),
                    ],
                ),
            ),
            (
                "capabilities"@,
                JsonView::Object(seq![("experimentalApi"@, JsonView::Bool(true))]),
            ),
        ],
    )
}

/// The answer that stands for a page without items.
pub open spec fn empty_page() -> JsonView {
    JsonView::Object(seq![("data"@, JsonView::Array(Seq::empty()))])
}

/// The cursor of the page after `response`, if there is one.
pub open spec fn next_cursor(response: JsonView) -> Option<Seq<char>> {
    opt_str(response.get("nextCursor"@))
}

/// The login URL in the `account/login/start` answer `response`: its
/// `authUrl`, or its `url` where there is no `authUrl` member.
pub open spec fn login_url(response: JsonView) -> Option<Seq<char>> {
    match response.get("authUrl"@) {
        Some(v) => v.as_str(),
        None => opt_str(response.get("url"@)),
    }
}

/// An array without items.
pub fn empty_array() -> (r: Json)
    ensures
        r@ == JsonView::Array(Seq::empty()),
{
    let r = crate::json::array(Vec::new());
    assert(r@->Array_0 =~= Seq::<JsonView>::empty());
    r
}

fn member(key: &str, value: Json) -> (r: (String, Json))
    ensures
        r.0@ == key@,
        r.1@ == value@,
{
    (key.to_owned(), value)
}

fn cursor_json(cursor: &Option<String>) -> (r: Json)
    ensures
        r@ == cursor_value(cursor.deep_view()),
{
    match cursor {
        Some(c) => Json::string(c.as_str()),
        None => Json::Null,
    }
}

/// The user input `text` of a turn.
pub fn text_input_json(text: &str) -> (r: Json)
    ensures
        r@ == text_input(text@),
{
    let mut m: Vec<(String, Json)> = Vec::new();
    m.push(member("type", Json::string("text")));
    m.push(member("text", Json::string(text)));
    m.push(member("text_elements", empty_array()));
    let item = object(m);
    assert(item@->Object_0 =~= text_input(text@)->Array_0[0]->Object_0);
    let mut items: Vec<Json> = Vec::new();
    items.push(item);
    let r = crate::json::array(items);
    assert(r@->Array_0 =~= text_input(text@)->Array_0);
    r
}

/// The parameters of `thread/start`.
pub fn thread_start_params(cwd: &str, model: Option<&str>) -> (r: Json)
    ensures
        r@ == thread_start_request(
            cwd@,
            match model {
                Some(m) => Some(m@),
                None => None,
            },
        ),
{
    let mut m: Vec<(String, Json)> = Vec::new();
    m.push(member("cwd", Json::string(cwd)));
    m.push(member("threadSource", Json::string("codex-dashboard")));
    match model {
        Some(name) if name.unicode_len() > 0 => {
            m.push(member("model", Json::string(name)));
        },
        _ => {},
    }
    let r = object(m);
    assert(r@->Object_0 =~= thread_start_request(
        cwd@,
        match model {
            Some(m) => Some(m@),
            None => None,
        },
    )->Object_0);
    r
}

/// The parameters of `turn/start`.
pub fn turn_start_params(thread_id: &str, text: &str) -> (r: Json)
    ensures
        r@ == turn_start_request(thread_id@, text@),
{
    let mut m: Vec<(String, Json)> = Vec::new();
    m.push(member("threadId", Json::string(thread_id)));
    m.push(member("input", text_input_json(text)));
    let r = object(m);
    assert(r@->Object_0 =~= turn_start_request(thread_id@, text@)->Object_0);
    r
}

/// The parameters of a request about the thread `thread_id` alone.
pub fn thread_params(thread_id: &str) -> (r: Json)
    ensures
        r@ == thread_request(thread_id@),
{
    let mut m: Vec<(String, Json)> = Vec::new();
    m.push(member("threadId", Json::string(thread_id)));
    let r = object(m);
    assert(r@->Object_0 =~= thread_request(thread_id@)->Object_0);
    r
}

/// The parameters of `thread/name/set`.
pub fn rename_params(thread_id: &str, name: &str) -> (r: Json)
    ensures
        r@ == rename_request(thread_id@, name@),
{
    let mut m: Vec<(String, Json)> = Vec::new();
    m.push(member("threadId", Json::string(thread_id)));
    m.push(member("name", Json::string(name)));
    let r = object(m);
    assert(r@->Object_0 =~= rename_request(thread_id@, name@)->Object_0);
    r
}

/// The parameters of `turn/interrupt`.
pub fn interrupt_params(thread_id: &str, turn_id: &str) -> (r: Json)
    ensures
        r@ == interrupt_request(thread_id@, turn_id@),
{
    let mut m: Vec<(String, Json)> = Vec::new();
    m.push(member("threadId", Json::string(thread_id)));
    m.push(member("turnId", Json::string(turn_id)));
    let r = object(m);
    assert(r@->Object_0 =~= interrupt_request(thread_id@, turn_id@)->Object_0);
    r
}

/// The parameters of `thread/list`.
pub fn thread_list_params(cursor: &Option<String>, archived: bool) -> (r: Json)
    ensures
        r@ == thread_list_request(cursor.deep_view(), archived),
{
    let mut m: Vec<(String, Json)> = Vec::new();
    m.push(member("cursor", cursor_json(cursor)));
    m.push(member("limit", Json::Number(JsonNumber::PosInt(100))));
    m.push(member("sortKey", Json::string("updated_at")));
    m.push(member("sortDirection", Json::string("desc")));
    if archived {
        m.push(member("archived", Json::Bool(true)));
    }
    let r = object(m);
    assert(r@->Object_0 =~= thread_list_request(cursor.deep_view(), archived)->Object_0);
    r
}

/// The parameters of `thread/turns/list` for a page of the whole history.
pub fn history_page_params(thread_id: &str, cursor: &Option<String>) -> (r: Json)
    ensures
        r@ == history_page_request(thread_id@, cursor.deep_view()),
{
    let mut m: Vec<(String, Json)> = Vec::new();
    m.push(member("threadId", Json::string(thread_id)));
    m.push(member("cursor", cursor_json(cursor)));
    m.push(member("limit", Json::Number(JsonNumber::PosInt(100))));
    m.push(member("sortDirection", Json::string("asc")));
    m.push(member("itemsView", Json::string("full")));
    let r = object(m);
    assert(r@->Object_0 =~= history_page_request(thread_id@, cursor.deep_view())->Object_0);
    r
}

/// The parameters of `thread/turns/list` for the latest turns.
pub fn recent_turns_params(thread_id: &str) -> (r: Json)
    ensures
        r@ == recent_turns_request(thread_id@),
{
    let mut m: Vec<(String, Json)> = Vec::new();
    m.push(member("threadId", Json::string(thread_id)));
    m.push(member("limit", Json::Number(JsonNumber::PosInt(20))));
    m.push(member("sortDirection", Json::string("desc")));
    m.push(member("itemsView", Json::string("full")));
    let r = object(m);
    assert(r@->Object_0 =~= recent_turns_request(thread_id@)->Object_0);
    r
}

/// The parameters of `model/list`.
pub fn model_list_params() -> (r: Json)
    ensures
        r@ == model_list_request(),
{
    let mut m: Vec<(String, Json)> = Vec::new();
    m.push(member("limit", Json::Number(JsonNumber::PosInt(100))));
    m.push(member("includeHidden", Json::Bool(false)));
    let r = object(m);
    assert(r@->Object_0 =~= model_list_request()->Object_0);
    r
}

/// The parameters of `account/read`.
pub fn account_read_params(refresh_token: bool) -> (r: Json)
    ensures
        r@ == account_read_request(refresh_token),
{
    let mut m: Vec<(String, Json)> = Vec::new();
    m.push(member("refreshToken", Json::Bool(refresh_token)));
    let r = object(m);
    assert(r@->Object_0 =~= account_read_request(refresh_token)->Object_0);
    r
}

/// An object without members: the parameters of `account/rateLimits/read`
/// and of the `initialized` notification.
pub fn no_params() -> (r: Json)
    ensures
        r@ == JsonView::Object(Seq::empty()),
{
    let r = object(Vec::new());
    assert(r@->Object_0 =~= Seq::<(Seq<char>, JsonView)>::empty());
    r
}

/// The parameters of `account/login/start`.
pub fn login_start_params() -> (r: Json)
    ensures
        r@ == login_start_request(),
{
    let mut m: Vec<(String, Json)> = Vec::new();
    m.push(member("type", Json::string("chatgpt")));
    m.push(member("useHostedLoginSuccessPage", Json::Bool(true)));
    m.push(member("appBrand", Json::string("codex")));
    let r = object(m);
    assert(r@->Object_0 =~= login_start_request()->Object_0);
    r
}

/// The parameters of `initialize`.
pub fn initialize_params(version: &str) -> (r: Json)
    ensures
        r@ == initialize_request(version@),
{
    let mut client: Vec<(String, Json)> = Vec::new();
    client.push(member("name", Json::string("codex-dashboard")));
    client.push(member("title", Json::string("Codex Dashboard")));
    client.push(member("version", Json::string(version)));
    let client = object(client);
    let mut caps: Vec<(String, Json)> = Vec::new();
    caps.push(member("experimentalApi", Json::Bool(true)));
    let caps = object(caps);
    let ghost cv = client@;
    let ghost pv = caps@;
    assert(cv->Object_0 =~= initialize_request(version@)->Object_0[0].1->Object_0);
    assert(pv->Object_0 =~= initialize_request(version@)->Object_0[1].1->Object_0);
    let mut m: Vec<(String, Json)> = Vec::new();
    m.push(member("clientInfo", client));
    m.push(member("capabilities", caps));
    let r = object(m);
    assert(r@->Object_0 =~= initialize_request(version@)->Object_0);
    r
}

/// A page without items.
pub fn empty_page_json() -> (r: Json)
    ensures
        r@ == empty_page(),
{
    let mut m: Vec<(String, Json)> = Vec::new();
    m.push(member("data", empty_array()));
    let r = object(m);
    assert(r@->Object_0 =~= empty_page()->Object_0);
    r
}

/// The answer to a request for a page of a thread's history: a thread
/// that has had no message yet has a history without turns.
pub fn history_page(result: Result<Json, AppServerError>) -> (r: Result<Json, AppServerError>)
    ensures
        match result {
            Ok(v) => r matches Ok(w) && w@ == v@,
            Err(e) => if unmaterialized_thread_error(e) {
                r matches Ok(w) && w@ == empty_page()
            } else {
                r == Err::<Json, AppServerError>(e)
            },
        },
{
    match result {
        Ok(v) => Ok(v),
        Err(e) => if is_unmaterialized_thread_error(&e) {
            Ok(empty_page_json())
        } else {
            Err(e)
        },
    }
}

/// The login URL in the `account/login/start` answer `response`.
pub fn login_url_of(response: &Json) -> (r: Option<String>)
    ensures
        r.deep_view() == login_url(response@),
{
    match response.get("authUrl") {
        Some(v) => match v.as_str() {
            Some(s) => Some(s.to_owned()),
            None => None,
        },
        None => crate::json::owned_str_of(response.get("url")),
    }
}

/// The reading of a list that the server gives page by page: at most
/// `MAX_PAGES` pages are read, and reading stops at the first page that
/// names no next cursor.
pub struct Pager {
    /// The items of the pages read, in order.
    pub items: Vec<Json>,
    /// The cursor of the page to read next; none before the first page.
    pub cursor: Option<String>,
    /// How many pages were read.
    pub pages: usize,
    /// A page named no next cursor.
    pub finished: bool,
}

impl Pager {
    /// No more page is to be read.
    pub open spec fn done(&self) -> bool {
        self.finished || self.pages >= MAX_PAGES
    }

    /// Nothing read yet.
    pub fn new() -> (r: Pager)
        ensures
            r.items@.len() == 0,
            r.cursor is None,
            r.pages == 0,
            !r.finished,
    {
        Pager { items: Vec::new(), cursor: None, pages: 0, finished: false }
    }

    /// Whether another page is to be read.
    pub fn wants_more(&self) -> (r: bool)
        ensures
            r == !self.done(),
    {
        !self.finished && self.pages < MAX_PAGES
    }

    /// Takes in the page `response`: its items follow those read before.
    pub fn accept_page(&mut self, response: &Json)
        requires
            !old(self).done(),
        ensures
            views(final(self).items@) == views(old(self).items@) + data_of(response@),
            final(self).cursor.deep_view() == next_cursor(response@),
            final(self).pages == old(self).pages + 1,
            final(self).pages <= MAX_PAGES,
            final(self).finished == (next_cursor(response@) is None),
    {
        match array_of(response.get("data")) {
            Some(page) => {
                let ghost before = views(self.items@);
                let mut i: usize = 0;
                while i < page.len()
                    invariant
                        i <= page@.len(),
                        views(self.items@) == before + views(page@).take(i as int),
                        self.pages == old(self).pages,
                        self.finished == old(self).finished,
                        self.pages < MAX_PAGES,
                    decreases page@.len() - i,
                {
                    let item = page[i].duplicate();
                    let ghost b2 = views(self.items@);
                    self.items.push(item);
                    assert(views(self.items@) =~= b2.push(page@[i as int]@));
                    assert(views(page@).take(i + 1) =~= views(page@).take(i as int).push(
                        page@[i as int]@,
                    ));
                    assert(views(self.items@) =~= before + views(page@).take(i + 1));
                    i = i + 1;
                }
                assert(views(page@).take(page@.len() as int) =~= views(page@));
            },
            None => {
                assert(data_of(response@) =~= Seq::<JsonView>::empty());
                assert(views(self.items@) =~= views(self.items@) + data_of(response@));
            },
        }
        self.cursor = crate::json::owned_str_of(response.get("nextCursor"));
        self.pages = self.pages + 1;
        self.finished = self.cursor.is_none();
    }
}


/// The answer of a request, or `null` where the request failed.
pub fn answer_or_null(result: Result<Json, AppServerError>) -> (r: Json)
    ensures
        match result {
            Ok(v) => r@ == v@,
            Err(_) => r@ == JsonView::Null,
        },
{
    match result {
        Ok(v) => v,
        Err(_) => Json::Null,
    }
}

} // verus!
