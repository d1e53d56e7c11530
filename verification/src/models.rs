//! The data that the dashboard shows: sessions and their messages, the
//! account, the models on offer, pending approvals, and the snapshot that
//! holds them together; and the JSON-RPC envelope as it arrives.
use crate::dup::Duplicate;
use crate::json::{
    array_of, bool_of, i64_of, member_of, number_of, opt_array, opt_bool, opt_get, opt_i64,
    opt_number, opt_str, owned_str_of, str_of, str_or, string_or, views, Json,
    JsonNumber, JsonView,
};
use crate::text::str_eq;
use vstd::prelude::*;

verus! {

/// Tokens spent by a session.
#[derive(Clone, Copy, Debug, Default, PartialEq, Eq, Structural)]
pub struct TokenUsage {
    pub input: u64,
    pub output: u64,
    pub cached: u64,
}

impl DeepView for TokenUsage {
    type V = TokenUsage;

    open spec fn deep_view(&self) -> TokenUsage {
        *self
    }
}

impl Duplicate for TokenUsage {
    fn duplicate(&self) -> (r: Self) {
        *self
    }
}

impl TokenUsage {
    /// No tokens.
    pub fn zero() -> (r: TokenUsage)
        ensures
            r == (TokenUsage { input: 0, output: 0, cached: 0 }),
    {
        TokenUsage { input: 0, output: 0, cached: 0 }
    }
}

/// One message of a session.
#[derive(Debug)]
pub struct Message {
    pub id: String,
    pub role: String,
    pub text: String,
    pub created_at: i64,
    pub streaming: Option<bool>,
}

pub struct MessageView {
    pub id: Seq<char>,
    pub role: Seq<char>,
    pub text: Seq<char>,
    pub created_at: i64,
    pub streaming: Option<bool>,
}

impl DeepView for Message {
    type V = MessageView;

    open spec fn deep_view(&self) -> MessageView {
        MessageView {
            id: self.id@,
            role: self.role@,
            text: self.text@,
            created_at: self.created_at,
            streaming: self.streaming,
        }
    }
}

impl Clone for Message {
    fn clone(&self) -> (r: Self)
        ensures
            r.deep_view() == self.deep_view(),
    {
        self.duplicate()
    }
}

impl Duplicate for Message {
    fn duplicate(&self) -> (r: Self) {
        Message {
            id: self.id.duplicate(),
            role: self.role.duplicate(),
            text: self.text.duplicate(),
            created_at: self.created_at,
            streaming: self.streaming,
        }
    }
}

/// A conversation thread as the dashboard lists it.
#[derive(Debug)]
pub struct Session {
    pub id: String,
    pub title: String,
    pub cwd: String,
    pub status: String,
    pub updated_at: i64,
    pub model: String,
    pub active_turn_id: Option<String>,
    pub messages: Vec<Message>,
    pub token_usage: TokenUsage,
    pub history_loaded: bool,
}

pub struct SessionView {
    pub id: Seq<char>,
    pub title: Seq<char>,
    pub cwd: Seq<char>,
    pub status: Seq<char>,
    pub updated_at: i64,
    pub model: Seq<char>,
    pub active_turn_id: Option<Seq<char>>,
    pub messages: Seq<MessageView>,
    pub token_usage: TokenUsage,
    pub history_loaded: bool,
}

impl DeepView for Session {
    type V = SessionView;

    open spec fn deep_view(&self) -> SessionView {
        SessionView {
            id: self.id@,
            title: self.title@,
            cwd: self.cwd@,
            status: self.status@,
            updated_at: self.updated_at,
            model: self.model@,
            active_turn_id: self.active_turn_id.deep_view(),
            messages: self.messages.deep_view(),
            token_usage: self.token_usage,
            history_loaded: self.history_loaded,
        }
    }
}

impl Clone for Session {
    fn clone(&self) -> (r: Self)
        ensures
            r.deep_view() == self.deep_view(),
    {
        self.duplicate()
    }
}

impl Duplicate for Session {
    fn duplicate(&self) -> (r: Self) {
        Session {
            id: self.id.duplicate(),
            title: self.title.duplicate(),
            cwd: self.cwd.duplicate(),
            status: self.status.duplicate(),
            updated_at: self.updated_at,
            model: self.model.duplicate(),
            active_turn_id: self.active_turn_id.duplicate(),
            messages: self.messages.duplicate(),
            token_usage: self.token_usage,
            history_loaded: self.history_loaded,
        }
    }
}

/// The signed-in account and its rate limit.
///
/// `used_percent` is the number that the server reported, as it came; it is
/// read as a double where it is shown. Its view takes negative zero as zero,
/// as a comparison of doubles does.
#[derive(Debug, Default)]
pub struct Account {
    pub connected: bool,
    pub email: Option<String>,
    pub plan: Option<String>,
    pub used_percent: Option<JsonNumber>,
    pub resets_at: Option<i64>,
}

pub struct AccountView {
    pub connected: bool,
    pub email: Option<Seq<char>>,
    pub plan: Option<Seq<char>>,
    pub used_percent: Option<JsonNumber>,
    pub resets_at: Option<i64>,
}

impl DeepView for Account {
    type V = AccountView;

    open spec fn deep_view(&self) -> AccountView {
        AccountView {
            connected: self.connected,
            email: self.email.deep_view(),
            plan: self.plan.deep_view(),
            used_percent: match self.used_percent {
                Some(n) => Some(n.normal()),
                None => None,
            },
            resets_at: self.resets_at,
        }
    }
}

impl Clone for Account {
    fn clone(&self) -> (r: Self)
        ensures
            r.deep_view() == self.deep_view(),
    {
        self.duplicate()
    }
}

impl Duplicate for Account {
    fn duplicate(&self) -> (r: Self) {
        Account {
            connected: self.connected,
            email: self.email.duplicate(),
            plan: self.plan.duplicate(),
            used_percent: self.used_percent,
            resets_at: self.resets_at,
        }
    }
}

/// The account of nobody signed in.
pub open spec fn signed_out_view() -> AccountView {
    AccountView { connected: false, email: None, plan: None, used_percent: None, resets_at: None }
}

impl Account {
    /// The account of nobody signed in.
    pub fn signed_out() -> (r: Account)
        ensures
            r.deep_view() == signed_out_view(),
    {
        Account { connected: false, email: None, plan: None, used_percent: None, resets_at: None }
    }
}

/// A model that new sessions can use.
#[derive(Debug)]
pub struct CodexModel {
    pub id: String,
    pub display_name: String,
    pub description: String,
    pub is_default: bool,
}

pub struct CodexModelView {
    pub id: Seq<char>,
    pub display_name: Seq<char>,
    pub description: Seq<char>,
    pub is_default: bool,
}

impl DeepView for CodexModel {
    type V = CodexModelView;

    open spec fn deep_view(&self) -> CodexModelView {
        CodexModelView {
            id: self.id@,
            display_name: self.display_name@,
            description: self.description@,
            is_default: self.is_default,
        }
    }
}

/// A request of the server for the user's approval of a command or a file change.
#[derive(Debug)]
pub struct ApprovalRequest {
    pub request_id: Json,
    pub kind: String,
    pub thread_id: String,
    pub turn_id: String,
    pub item_id: String,
    pub started_at: i64,
    pub command: Option<String>,
    pub cwd: Option<String>,
    pub reason: Option<String>,
    pub grant_root: Option<String>,
    pub available_decisions: Vec<String>,
}

pub struct ApprovalView {
    pub request_id: JsonView,
    pub kind: Seq<char>,
    pub thread_id: Seq<char>,
    pub turn_id: Seq<char>,
    pub item_id: Seq<char>,
    pub started_at: i64,
    pub command: Option<Seq<char>>,
    pub cwd: Option<Seq<char>>,
    pub reason: Option<Seq<char>>,
    pub grant_root: Option<Seq<char>>,
    pub available_decisions: Seq<Seq<char>>,
}

impl DeepView for ApprovalRequest {
    type V = ApprovalView;

    open spec fn deep_view(&self) -> ApprovalView {
        ApprovalView {
            request_id: self.request_id@,
            kind: self.kind@,
            thread_id: self.thread_id@,
            turn_id: self.turn_id@,
            item_id: self.item_id@,
            started_at: self.started_at,
            command: self.command.deep_view(),
            cwd: self.cwd.deep_view(),
            reason: self.reason.deep_view(),
            grant_root: self.grant_root.deep_view(),
            available_decisions: self.available_decisions.deep_view(),
        }
    }
}

impl Clone for ApprovalRequest {
    fn clone(&self) -> (r: Self)
        ensures
            r.deep_view() == self.deep_view(),
    {
        self.duplicate()
    }
}

impl Duplicate for ApprovalRequest {
    fn duplicate(&self) -> (r: Self) {
        ApprovalRequest {
            request_id: self.request_id.duplicate(),
            kind: self.kind.duplicate(),
            thread_id: self.thread_id.duplicate(),
            turn_id: self.turn_id.duplicate(),
            item_id: self.item_id.duplicate(),
            started_at: self.started_at,
            command: self.command.duplicate(),
            cwd: self.cwd.duplicate(),
            reason: self.reason.duplicate(),
            grant_root: self.grant_root.duplicate(),
            available_decisions: self.available_decisions.duplicate(),
        }
    }
}

/// Everything the dashboard shows at one moment.
#[derive(Debug)]
pub struct DashboardSnapshot {
    pub sessions: Vec<Session>,
    pub archived_sessions: Vec<Session>,
    pub approvals: Vec<ApprovalRequest>,
    pub account: Account,
    pub connected: bool,
}

pub struct SnapshotView {
    pub sessions: Seq<SessionView>,
    pub archived_sessions: Seq<SessionView>,
    pub approvals: Seq<ApprovalView>,
    pub account: AccountView,
    pub connected: bool,
}

impl DeepView for DashboardSnapshot {
    type V = SnapshotView;

    open spec fn deep_view(&self) -> SnapshotView {
        SnapshotView {
            sessions: self.sessions.deep_view(),
            archived_sessions: self.archived_sessions.deep_view(),
            approvals: self.approvals.deep_view(),
            account: self.account.deep_view(),
            connected: self.connected,
        }
    }
}

impl Clone for DashboardSnapshot {
    fn clone(&self) -> (r: Self)
        ensures
            r.deep_view() == self.deep_view(),
    {
        self.duplicate()
    }
}

impl Duplicate for DashboardSnapshot {
    fn duplicate(&self) -> (r: Self) {
        DashboardSnapshot {
            sessions: self.sessions.duplicate(),
            archived_sessions: self.archived_sessions.duplicate(),
            approvals: self.approvals.duplicate(),
            account: self.account.duplicate(),
            connected: self.connected,
        }
    }
}

impl DashboardSnapshot {
    /// The snapshot before anything is known: no sessions, no approvals,
    /// nobody signed in, not connected.
    pub fn empty() -> (r: DashboardSnapshot)
        ensures
            r.deep_view().sessions.len() == 0,
            r.deep_view().archived_sessions.len() == 0,
            r.deep_view().approvals.len() == 0,
            r.deep_view().account == signed_out_view(),
            !r.connected,
    {
        let r = DashboardSnapshot {
            sessions: Vec::new(),
            archived_sessions: Vec::new(),
            approvals: Vec::new(),
            account: Account::signed_out(),
            connected: false,
        };
        r
    }
}

/// A JSON-RPC message as it arrives on the server's output. `error` holds the
/// `error` member as its JSON text.
#[derive(Debug)]
pub struct RpcEnvelope {
    pub id: Option<Json>,
    pub method: Option<String>,
    pub params: Option<Json>,
    pub result: Option<Json>,
    pub error: Option<String>,
}

} // verus!

verus! {

/// The raw status of a thread: `status.type`, or `status` itself where the
/// status has no `type`; `"idle"` where neither is a string.
pub open spec fn raw_status(thread: JsonView) -> Seq<char> {
    let status = thread.get("status"@);
    let raw = match opt_get(status, "type"@) {
        Some(t) => t.as_str(),
        None => opt_str(status),
    };
    str_or(raw, "idle"@)
}

/// The status the dashboard shows for a thread's raw status.
pub open spec fn shown_status(raw: Seq<char>) -> Seq<char> {
    if raw == "active"@ || raw == "running"@ {
        "working"@
    } else if raw == "waiting"@ {
        "waiting"@
    } else if raw == "systemError"@ || raw == "error"@ {
        "error"@
    } else {
        "idle"@
    }
}

/// The title of a thread: its name where that is a non-empty string, else its
/// preview, else `"Untitled session"`.
pub open spec fn thread_title(thread: JsonView) -> Seq<char> {
    match opt_str(thread.get("name"@)) {
        Some(n) if n.len() > 0 => n,
        _ => str_or(opt_str(thread.get("preview"@)), "Untitled session"@),
    }
}

/// The `updatedAt` of a thread in seconds; 0 where it is no integer in range.
pub open spec fn updated_at_seconds(thread: JsonView) -> i64 {
    match opt_i64(thread.get("updatedAt"@)) {
        Some(s) => s,
        None => 0,
    }
}

/// A count of seconds that can be given in milliseconds as an `i64`.
pub open spec fn millis_fit(seconds: i64) -> bool {
    i64::MIN <= seconds * 1000 <= i64::MAX
}

/// The session that the dashboard lists for `thread`.
pub open spec fn session_of(thread: JsonView) -> SessionView {
    SessionView {
        id: str_or(opt_str(thread.get("id"@)), Seq::empty()),
        title: thread_title(thread),
        cwd: str_or(opt_str(thread.get("cwd"@)), Seq::empty()),
        status: shown_status(raw_status(thread)),
        updated_at: (updated_at_seconds(thread) * 1000) as i64,
        model: str_or(opt_str(thread.get("model"@)), "Codex"@),
        active_turn_id: None,
        messages: Seq::empty(),
        token_usage: TokenUsage { input: 0, output: 0, cached: 0 },
        history_loaded: false,
    }
}

/// The items of the `data` array of `value`; none where there is no such array.
pub open spec fn data_of(value: JsonView) -> Seq<JsonView> {
    match opt_array(value.get("data"@)) {
        Some(a) => a,
        None => Seq::empty(),
    }
}

/// Every thread's `updatedAt` can be given in milliseconds.
pub open spec fn threads_in_range(threads: Seq<JsonView>) -> bool {
    forall|i: int| 0 <= i < threads.len() ==> millis_fit(#[trigger] updated_at_seconds(threads[i]))
}

/// The sessions listed for `threads`, in order.
pub open spec fn sessions_of(threads: Seq<JsonView>) -> Seq<SessionView> {
    threads.map_values(|t: JsonView| session_of(t))
}

/// The status the dashboard shows for the raw status `raw`.
pub fn shown_status_of(raw: &str) -> (r: &'static str)
    ensures
        r@ == shown_status(raw@),
{
    if str_eq(raw, "active") || str_eq(raw, "running") {
        "working"
    } else if str_eq(raw, "waiting") {
        "waiting"
    } else if str_eq(raw, "systemError") || str_eq(raw, "error") {
        "error"
    } else {
        "idle"
    }
}

/// The `updatedAt` of `thread` in seconds.
pub fn thread_updated_at_seconds(thread: &Json) -> (r: i64)
    ensures
        r == updated_at_seconds(thread@),
{
    match i64_of(thread.get("updatedAt")) {
        Some(s) => s,
        None => 0,
    }
}

/// The session that the dashboard lists for `thread`.
pub fn session_from_thread(thread: &Json) -> (r: Session)
    requires
        millis_fit(updated_at_seconds(thread@)),
    ensures
        r.deep_view() == session_of(thread@),
{
    let status = thread.get("status");
    let raw = match member_of(status, "type") {
        Some(t) => t.as_str(),
        None => str_of(status),
    };
    let raw = match raw {
        Some(s) => s,
        None => "idle",
    };
    let title = match str_of(thread.get("name")) {
        Some(n) if n.unicode_len() > 0 => n.to_owned(),
        _ => string_or(thread.get("preview"), "Untitled session"),
    };
    let seconds = thread_updated_at_seconds(thread);
    let messages: Vec<Message> = Vec::new();
    proof {
        reveal_strlit("");
        assert(messages.deep_view() =~= Seq::<MessageView>::empty());
    }
    let r = Session {
        id: string_or(thread.get("id"), ""),
        title,
        cwd: string_or(thread.get("cwd"), ""),
        status: shown_status_of(raw).to_owned(),
        updated_at: seconds * 1000,
        model: string_or(thread.get("model"), "Codex"),
        active_turn_id: None,
        messages,
        token_usage: TokenUsage::zero(),
        history_loaded: false,
    };
    let ghost sv = session_of(thread@);
    assert(r.id@ == sv.id);
    assert(r.title@ == sv.title);
    assert(r.cwd@ == sv.cwd);
    assert(r.status@ == sv.status);
    assert(r.updated_at == sv.updated_at);
    assert(r.model@ == sv.model);
    assert(r.active_turn_id.deep_view() == sv.active_turn_id);
    assert(r.messages.deep_view() == sv.messages);
    r
}

/// Whether every thread's `updatedAt` can be given in milliseconds, which
/// listing them needs.
pub fn threads_fit(threads: &Vec<Json>) -> (r: bool)
    ensures
        r == threads_in_range(views(threads@)),
{
    let mut i: usize = 0;
    while i < threads.len()
        invariant
            i <= threads@.len(),
            forall|k: int| 0 <= k < i ==> millis_fit(#[trigger] updated_at_seconds(threads@[k]@)),
        decreases threads@.len() - i,
    {
        let s = thread_updated_at_seconds(&threads[i]);
        if s < -9_223_372_036_854_775i64 || s > 9_223_372_036_854_775i64 {
            assert(!millis_fit(updated_at_seconds(views(threads@)[i as int])));
            return false;
        }
        i = i + 1;
    }
    assert forall|k: int| 0 <= k < views(threads@).len() implies millis_fit(
        #[trigger] updated_at_seconds(views(threads@)[k]),
    ) by {
        assert(views(threads@)[k] == threads@[k]@);
    }
    true
}

/// The sessions listed for `threads`, in order.
pub fn sessions_from_threads(threads: &Vec<Json>) -> (r: Vec<Session>)
    requires
        threads_in_range(views(threads@)),
    ensures
        r.deep_view() == sessions_of(views(threads@)),
{
    let mut r: Vec<Session> = Vec::new();
    let mut i: usize = 0;
    while i < threads.len()
        invariant
            threads_in_range(views(threads@)),
            i <= threads@.len(),
            r@.len() == i,
            forall|k: int| 0 <= k < i ==> (#[trigger] r@[k]).deep_view() == session_of(threads@[k]@),
        decreases threads@.len() - i,
    {
        assert(views(threads@)[i as int] == threads@[i as int]@);
        r.push(session_from_thread(&threads[i]));
        i = i + 1;
    }
    assert(r.deep_view() =~= sessions_of(views(threads@)));
    r
}

/// The sessions listed in the `data` array of a `thread/list` answer.
pub fn parse_sessions(value: &Json) -> (r: Vec<Session>)
    requires
        threads_in_range(data_of(value@)),
    ensures
        r.deep_view() == sessions_of(data_of(value@)),
{
    match array_of(value.get("data")) {
        Some(threads) => sessions_from_threads(threads),
        None => Vec::new(),
    }
}

/// Whether the threads of a `thread/list` answer can be listed.
pub fn sessions_fit(value: &Json) -> (r: bool)
    ensures
        r == threads_in_range(data_of(value@)),
{
    match array_of(value.get("data")) {
        Some(threads) => threads_fit(threads),
        None => true,
    }
}

/// The primary rate limit in the answer to `account/rateLimits/read`.
pub open spec fn primary_limit(rate_result: JsonView) -> Option<JsonView> {
    opt_get(rate_result.get("rateLimits"@), "primary"@)
}

/// When the primary rate limit resets, in seconds, where that is an integer in range.
pub open spec fn resets_at_seconds(rate_result: JsonView) -> Option<i64> {
    opt_i64(opt_get(primary_limit(rate_result), "resetsAt"@))
}

/// The account that the answers to `account/read` and `account/rateLimits/read` describe.
pub open spec fn account_of(account_result: JsonView, rate_result: JsonView) -> AccountView {
    let account = account_result.get("account"@);
    let primary = primary_limit(rate_result);
    AccountView {
        connected: account matches Some(a) && a != JsonView::Null,
        email: opt_str(opt_get(account, "email"@)),
        plan: opt_str(opt_get(account, "planType"@)),
        used_percent: opt_number(opt_get(primary, "usedPercent"@)),
        resets_at: match resets_at_seconds(rate_result) {
            Some(s) => Some((s * 1000) as i64),
            None => None,
        },
    }
}

/// The reset time of the primary rate limit can be given in milliseconds.
pub open spec fn reset_in_range(rate_result: JsonView) -> bool {
    resets_at_seconds(rate_result) matches Some(s) ==> millis_fit(s)
}

/// Whether the reset time in `rate_result` can be given in milliseconds,
/// which reading the account needs.
pub fn reset_fits(rate_result: &Json) -> (r: bool)
    ensures
        r == reset_in_range(rate_result@),
{
    let primary = member_of(rate_result.get("rateLimits"), "primary");
    match i64_of(member_of(primary, "resetsAt")) {
        Some(s) => -9_223_372_036_854_775i64 <= s && s <= 9_223_372_036_854_775i64,
        None => true,
    }
}

/// The account that the answers to `account/read` and
/// `account/rateLimits/read` describe; `null` stands for an answer that failed.
pub fn parse_account(account_result: &Json, rate_result: &Json) -> (r: Account)
    requires
        reset_in_range(rate_result@),
    ensures
        r.deep_view() == account_of(account_result@, rate_result@),
{
    let account = account_result.get("account");
    let primary = member_of(rate_result.get("rateLimits"), "primary");
    let connected = match account {
        Some(a) => !a.is_null(),
        None => false,
    };
    let resets_at = match i64_of(member_of(primary, "resetsAt")) {
        Some(s) => Some(s * 1000),
        None => None,
    };
    Account {
        connected,
        email: owned_str_of(member_of(account, "email")),
        plan: owned_str_of(member_of(account, "planType")),
        used_percent: number_of(member_of(primary, "usedPercent")),
        resets_at,
    }
}

/// The model that an entry of `model/list` describes; none where the entry has no `model` string.
pub open spec fn model_of(entry: JsonView) -> Option<CodexModelView> {
    match opt_str(entry.get("model"@)) {
        Some(id) => Some(
            CodexModelView {
                id,
                display_name: str_or(opt_str(entry.get("displayName"@)), id),
                description: str_or(opt_str(entry.get("description"@)), Seq::empty()),
                is_default: match opt_bool(entry.get("isDefault"@)) {
                    Some(b) => b,
                    None => false,
                },
            },
        ),
        None => None,
    }
}

/// The models that the entries `entries` describe, in order, skipping the
/// entries that describe none.
pub open spec fn models_of(entries: Seq<JsonView>) -> Seq<CodexModelView>
    decreases entries.len(),
{
    if entries.len() == 0 {
        Seq::empty()
    } else {
        let rest = models_of(entries.drop_last());
        match model_of(entries.last()) {
            Some(m) => rest.push(m),
            None => rest,
        }
    }
}

/// The model that `entry` describes.
pub fn model_from_entry(entry: &Json) -> (r: Option<CodexModel>)
    ensures
        r.deep_view() == model_of(entry@),
{
    match str_of(entry.get("model")) {
        Some(id) => {
            let display_name = match str_of(entry.get("displayName")) {
                Some(d) => d.to_owned(),
                None => id.to_owned(),
            };
            proof {
                reveal_strlit("");
            }
            let is_default = match bool_of(entry.get("isDefault")) {
                Some(b) => b,
                None => false,
            };
            let m = CodexModel {
                id: id.to_owned(),
                display_name,
                description: string_or(entry.get("description"), ""),
                is_default,
            };
            let ghost mv = model_of(entry@)->0;
            assert(m.id@ == mv.id);
            assert(m.display_name@ == mv.display_name);
            assert(m.description@ == mv.description);
            assert(m.is_default == mv.is_default);
            Some(m)
        },
        None => None,
    }
}

/// The models listed in the `data` array of a `model/list` answer.
pub fn parse_models(response: &Json) -> (r: Vec<CodexModel>)
    ensures
        r.deep_view() == models_of(data_of(response@)),
{
    let mut r: Vec<CodexModel> = Vec::new();
    match array_of(response.get("data")) {
        Some(entries) => {
            let ghost e = views(entries@);
            let mut i: usize = 0;
            assert(e.take(0) =~= Seq::<JsonView>::empty());
            while i < entries.len()
                invariant
                    e == views(entries@),
                    i <= entries@.len(),
                    r.deep_view() == models_of(e.take(i as int)),
                decreases entries@.len() - i,
            {
                let m = model_from_entry(&entries[i]);
                proof {
                    assert(e.take(i + 1).drop_last() =~= e.take(i as int));
                    assert(e.take(i + 1).last() == entries@[i as int]@);
                }
                match m {
                    Some(m) => {
                        let ghost before = r.deep_view();
                        r.push(m);
                        assert(r.deep_view() =~= before.push(m.deep_view()));
                    },
                    None => {},
                }
                i = i + 1;
            }
            assert(e.take(e.len() as int) =~= e);
            r
        },
        None => r,
    }
}

} // verus!
