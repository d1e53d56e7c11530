//! Requests of the server for the user's approval: taking them in, answering
//! them, and dropping them once resolved.
use crate::app_server::AppServer;
use crate::dup::Duplicate;
use crate::json::{
    array_of, i64_of, json_eq, object, opt_array, opt_i64, opt_str, owned_str_of, same_value,
    str_or, views, Json, JsonNumber, JsonView,
};
use crate::models::{ApprovalRequest, ApprovalView, DashboardSnapshot};
use crate::rpc::{response_message, response_view, AppServerError};
use crate::text::str_eq;
use vstd::prelude::*;

verus! {

/// The kind of approval that the server request `method` asks for; none for
/// a request that the dashboard does not support.
pub open spec fn approval_kind(method: Seq<char>) -> Option<Seq<char>> {
    if method == "item/commandExecution/requestApproval"@ {
        Some("command"@)
    } else if method == "item/fileChange/requestApproval"@ {
        Some("fileChange"@)
    } else {
        None
    }
}

/// The strings among `items`, in order.
pub open spec fn strings_in(items: Seq<JsonView>) -> Seq<Seq<char>>
    decreases items.len(),
{
    if items.len() == 0 {
        Seq::empty()
    } else {
        let rest = strings_in(items.drop_last());
        match items.last().as_str() {
            Some(s) => rest.push(s),
            None => rest,
        }
    }
}

/// The decisions offered when the request names none.
pub open spec fn default_decisions() -> Seq<Seq<char>> {
    seq!["accept"@, "acceptForSession"@, "decline"@]
}

/// The decisions that a request with the parameters `params` offers: the
/// strings of its `availableDecisions`, or the default ones where there are none.
pub open spec fn decisions_offered(params: JsonView) -> Seq<Seq<char>> {
    match opt_array(params.get("availableDecisions"@)) {
        Some(items) if strings_in(items).len() > 0 => strings_in(items),
        _ => default_decisions(),
    }
}

/// The string member `field` of `params`; empty where there is none.
pub open spec fn field_text(params: JsonView, field: Seq<char>) -> Seq<char> {
    str_or(opt_str(params.get(field)), Seq::empty())
}

/// The approval request of kind `kind` that the server request `request_id`
/// with the parameters `params` describes.
pub open spec fn approval_of(kind: Seq<char>, request_id: JsonView, params: JsonView) -> ApprovalView {
    ApprovalView {
        request_id,
        kind,
        thread_id: field_text(params, "threadId"@),
        turn_id: field_text(params, "turnId"@),
        item_id: field_text(params, "itemId"@),
        started_at: match opt_i64(params.get("startedAtMs"@)) {
            Some(t) => t,
            None => 0,
        },
        command: opt_str(params.get("command"@)),
        cwd: opt_str(params.get("cwd"@)),
        reason: opt_str(params.get("reason"@)),
        grant_root: opt_str(params.get("grantRoot"@)),
        available_decisions: decisions_offered(params),
    }
}

/// The error with which an unsupported server request `method` is answered.
pub open spec fn unsupported_request_error(method: Seq<char>) -> JsonView {
    JsonView::Object(
        seq![
            ("code"@, JsonView::Number(JsonNumber::NegInt(-32601i64))),
            ("message"@, JsonView::String("Unsupported server request: "@ + method)),
        ],
    )
}

/// Approvals for another request than `request_id`.
pub open spec fn request_is_not(request_id: JsonView) -> spec_fn(ApprovalView) -> bool {
    |a: ApprovalView| !same_value(a.request_id, request_id)
}

/// Approvals for another thread than `thread_id`.
pub open spec fn thread_is_not(thread_id: Seq<char>) -> spec_fn(ApprovalView) -> bool {
    |a: ApprovalView| a.thread_id != thread_id
}

/// The decisions that the user can send.
pub open spec fn supported_decision(decision: Seq<char>) -> bool {
    ||| decision == "accept"@
    ||| decision == "acceptForSession"@
    ||| decision == "decline"@
    ||| decision == "cancel"@
}

/// The result that answers an approval request with `decision`.
pub open spec fn decision_result(decision: Seq<char>) -> JsonView {
    JsonView::Object(seq![("decision"@, JsonView::String(decision))])
}

/// The string member `field` of `value`; empty where there is none.
pub fn string_field(value: &Json, field: &str) -> (r: String)
    ensures
        r@ == field_text(value@, field@),
{
    proof {
        reveal_strlit("");
    }
    crate::json::string_or(value.get(field), "")
}

/// The string member `field` of `value`, if there is one.
pub fn optional_string_field(value: &Json, field: &str) -> (r: Option<String>)
    ensures
        r.deep_view() == opt_str(value@.get(field@)),
{
    owned_str_of(value.get(field))
}

/// The kind of approval that the server request `method` asks for.
pub fn approval_kind_of(method: &str) -> (r: Option<&'static str>)
    ensures
        match r {
            Some(k) => approval_kind(method@) == Some(k@),
            None => approval_kind(method@) is None,
        },
{
    if str_eq(method, "item/commandExecution/requestApproval") {
        Some("command")
    } else if str_eq(method, "item/fileChange/requestApproval") {
        Some("fileChange")
    } else {
        None
    }
}

/// The strings among `items`, in order.
pub fn strings_among(items: &Vec<Json>) -> (r: Vec<String>)
    ensures
        r.deep_view() == strings_in(views(items@)),
{
    let ghost e = views(items@);
    let mut r: Vec<String> = Vec::new();
    let mut i: usize = 0;
    assert(e.take(0) =~= Seq::<JsonView>::empty());
    assert(r.deep_view() =~= Seq::<Seq<char>>::empty());
    while i < items.len()
        invariant
            e == views(items@),
            i <= items@.len(),
            r.deep_view() == strings_in(e.take(i as int)),
        decreases items@.len() - i,
    {
        proof {
            assert(e.take(i + 1).drop_last() =~= e.take(i as int));
            assert(e.take(i + 1).last() == items@[i as int]@);
        }
        match items[i].as_str() {
            Some(s) => {
                let ghost before = r.deep_view();
                r.push(s.to_owned());
                assert(r.deep_view() =~= before.push(s@));
            },
            None => {},
        }
        i = i + 1;
    }
    assert(e.take(e.len() as int) =~= e);
    r
}

/// The decisions that a request with the parameters `params` offers.
pub fn available_decisions(params: &Json) -> (r: Vec<String>)
    ensures
        r.deep_view() == decisions_offered(params@),
{
    let offered = match array_of(params.get("availableDecisions")) {
        Some(items) => Some(strings_among(items)),
        None => None,
    };
    match offered {
        Some(v) if v.len() > 0 => v,
        _ => {
            let mut d: Vec<String> = Vec::new();
            d.push("accept".to_owned());
            d.push("acceptForSession".to_owned());
            d.push("decline".to_owned());
            assert(d.deep_view() =~= default_decisions());
            d
        },
    }
}

/// The approval request of kind `kind` that the server request `request_id`
/// with the parameters `params` describes.
pub fn approval_from_request(kind: &str, request_id: Json, params: &Json) -> (r: ApprovalRequest)
    ensures
        r.deep_view() == approval_of(kind@, request_id@, params@),
{
    let started_at = match i64_of(params.get("startedAtMs")) {
        Some(t) => t,
        None => 0,
    };
    ApprovalRequest {
        request_id,
        kind: kind.to_owned(),
        thread_id: string_field(params, "threadId"),
        turn_id: string_field(params, "turnId"),
        item_id: string_field(params, "itemId"),
        started_at,
        command: optional_string_field(params, "command"),
        cwd: optional_string_field(params, "cwd"),
        reason: optional_string_field(params, "reason"),
        grant_root: optional_string_field(params, "grantRoot"),
        available_decisions: available_decisions(params),
    }
}

/// The error with which an unsupported server request `method` is answered.
pub fn unsupported_request(method: &str) -> (r: Json)
    ensures
        r@ == unsupported_request_error(method@),
{
    let mut text = "Unsupported server request: ".to_owned();
    text.append(method);
    let mut m: Vec<(String, Json)> = Vec::new();
    m.push(("code".to_owned(), Json::Number(JsonNumber::NegInt(-32601))));
    m.push(("message".to_owned(), Json::String(text)));
    let r = object(m);
    assert(r@->Object_0 =~= unsupported_request_error(method@)->Object_0);
    r
}

/// The result that answers an approval request with `decision`.
pub fn decision_answer(decision: &str) -> (r: Json)
    ensures
        r@ == decision_result(decision@),
{
    let mut m: Vec<(String, Json)> = Vec::new();
    m.push(("decision".to_owned(), Json::string(decision)));
    let r = object(m);
    assert(r@->Object_0 =~= decision_result(decision@)->Object_0);
    r
}

/// Whether the user can send `decision`.
pub fn is_supported_decision(decision: &str) -> (r: bool)
    ensures
        r == supported_decision(decision@),
{
    str_eq(decision, "accept") || str_eq(decision, "acceptForSession") || str_eq(decision, "decline")
        || str_eq(decision, "cancel")
}

/// The approvals of `approvals` for another request than `request_id`.
pub fn approvals_except_request(approvals: &Vec<ApprovalRequest>, request_id: &Json) -> (r: Vec<
    ApprovalRequest,
>)
    ensures
        r.deep_view() == approvals.deep_view().filter(request_is_not(request_id@)),
{
    let ghost s = approvals.deep_view();
    let mut r: Vec<ApprovalRequest> = Vec::new();
    let mut i: usize = 0;
    proof {
        reveal(Seq::filter);
        assert(s.take(0) =~= Seq::<ApprovalView>::empty());
        assert(r.deep_view() =~= Seq::<ApprovalView>::empty());
    }
    while i < approvals.len()
        invariant
            s == approvals.deep_view(),
            i <= s.len(),
            r.deep_view() == s.take(i as int).filter(request_is_not(request_id@)),
        decreases s.len() - i,
    {
        proof {
            assert(s.take(i + 1) =~= s.take(i as int).push(s[i as int]));
            s.take(i as int).lemma_filter_push(s[i as int], request_is_not(request_id@));
        }
        if !json_eq(&approvals[i].request_id, request_id) {
            let ghost before = r.deep_view();
            let a = approvals[i].duplicate();
            r.push(a);
            assert(r.deep_view() =~= before.push(s[i as int]));
        }
        i = i + 1;
    }
    assert(s.take(s.len() as int) =~= s);
    r
}

/// The approvals of `approvals` for another thread than `thread_id`.
pub fn approvals_except_thread(approvals: &Vec<ApprovalRequest>, thread_id: &str) -> (r: Vec<
    ApprovalRequest,
>)
    ensures
        r.deep_view() == approvals.deep_view().filter(thread_is_not(thread_id@)),
{
    let ghost s = approvals.deep_view();
    let mut r: Vec<ApprovalRequest> = Vec::new();
    let mut i: usize = 0;
    proof {
        reveal(Seq::filter);
        assert(s.take(0) =~= Seq::<ApprovalView>::empty());
        assert(r.deep_view() =~= Seq::<ApprovalView>::empty());
    }
    while i < approvals.len()
        invariant
            s == approvals.deep_view(),
            i <= s.len(),
            r.deep_view() == s.take(i as int).filter(thread_is_not(thread_id@)),
        decreases s.len() - i,
    {
        proof {
            assert(s.take(i + 1) =~= s.take(i as int).push(s[i as int]));
            s.take(i as int).lemma_filter_push(s[i as int], thread_is_not(thread_id@));
        }
        if !str_eq(approvals[i].thread_id.as_str(), thread_id) {
            let ghost before = r.deep_view();
            let a = approvals[i].duplicate();
            r.push(a);
            assert(r.deep_view() =~= before.push(s[i as int]));
        }
        i = i + 1;
    }
    assert(s.take(s.len() as int) =~= s);
    r
}

/// What the dashboard does with a request of the server.
#[derive(Debug)]
pub enum ServerRequestOutcome {
    /// The request asks for an approval, which now waits for the user.
    Approval(ApprovalRequest),
    /// The request is not supported; this answer goes back to the server.
    Rejected(Json),
}

impl DashboardSnapshot {
    /// Drops the approvals for the request `request_id`.
    pub fn remove_approvals_for_request(&mut self, request_id: &Json)
        ensures
            final(self).deep_view().approvals == old(self).deep_view().approvals.filter(
                request_is_not(request_id@),
            ),
            final(self).sessions == old(self).sessions,
            final(self).archived_sessions == old(self).archived_sessions,
            final(self).account == old(self).account,
            final(self).connected == old(self).connected,
    {
        self.approvals = approvals_except_request(&self.approvals, request_id);
    }

    /// Drops the approvals that the thread `thread_id` asked for.
    pub fn remove_approvals_for_thread(&mut self, thread_id: &str)
        ensures
            final(self).deep_view().approvals == old(self).deep_view().approvals.filter(
                thread_is_not(thread_id@),
            ),
            final(self).sessions == old(self).sessions,
            final(self).archived_sessions == old(self).archived_sessions,
            final(self).account == old(self).account,
            final(self).connected == old(self).connected,
    {
        self.approvals = approvals_except_thread(&self.approvals, thread_id);
    }
}

impl AppServer {
    /// Takes in the request `request_id` of the server: an approval request
    /// replaces any earlier one with the same id and waits for the user;
    /// any other request is answered with an error.
    pub fn accept_server_request(&mut self, method: &str, request_id: Json, params: &Json) -> (r:
        ServerRequestOutcome)
        ensures
            match approval_kind(method@) {
                Some(kind) => r matches ServerRequestOutcome::Approval(a) && a.deep_view()
                    == approval_of(kind, request_id@, params@)
                    && final(self).snapshot.deep_view().approvals == old(
                    self,
                ).snapshot.deep_view().approvals.filter(request_is_not(request_id@)).push(
                    a.deep_view(),
                ),
                None => r matches ServerRequestOutcome::Rejected(m) && m@ == response_view(
                    request_id@,
                    Err(unsupported_request_error(method@)),
                ) && final(self).snapshot == old(self).snapshot,
            },
            final(self).snapshot.sessions == old(self).snapshot.sessions,
            final(self).snapshot.archived_sessions == old(self).snapshot.archived_sessions,
            final(self).snapshot.account == old(self).snapshot.account,
            final(self).snapshot.connected == old(self).snapshot.connected,
            final(self).next_id == old(self).next_id,
            final(self).connection_generation == old(self).connection_generation,
            final(self).diagnostics == old(self).diagnostics,
            final(self).pending_threads == old(self).pending_threads,
    {
        match approval_kind_of(method) {
            Some(kind) => {
                let approval = approval_from_request(kind, request_id, params);
                self.snapshot.remove_approvals_for_request(&approval.request_id);
                let ghost before = self.snapshot.approvals.deep_view();
                let kept = approval.duplicate();
                self.snapshot.approvals.push(approval);
                assert(self.snapshot.approvals.deep_view() =~= before.push(kept.deep_view()));
                ServerRequestOutcome::Approval(kept)
            },
            None => {
                let error = unsupported_request(method);
                ServerRequestOutcome::Rejected(response_message(request_id, Err(error)))
            },
        }
    }

    /// Takes the approval request `request_id` off the list to answer it with
    /// `decision`; gives the approval and the answer to send.
    pub fn begin_resolve_approval(&mut self, request_id: &Json, decision: &str) -> (r: Result<
        (ApprovalRequest, Json),
        AppServerError,
    >)
        ensures
            !supported_decision(decision@) ==> (r matches Err(e) && e is Rpc && e.text()
                == "Unsupported approval decision"@),
            supported_decision(decision@) && (forall|k: int|
                0 <= k < old(self).snapshot.approvals@.len() ==> !same_value(
                    (#[trigger] old(self).snapshot.approvals@[k]).request_id@,
                    request_id@,
                )) ==> (r matches Err(e) && e is Rpc && e.text()
                == "Approval request is no longer pending"@),
            supported_decision(decision@) && (exists|k: int|
                0 <= k < old(self).snapshot.approvals@.len() && same_value(
                    (#[trigger] old(self).snapshot.approvals@[k]).request_id@,
                    request_id@,
                )) ==> r is Ok,
            r matches Ok((a, answer)) ==> supported_decision(decision@) && exists|i: int|
                0 <= i < old(self).snapshot.approvals@.len() && same_value(
                    old(self).snapshot.deep_view().approvals[i].request_id,
                    request_id@,
                ) && (forall|k: int|
                    0 <= k < i ==> !same_value(
                        (#[trigger] old(self).snapshot.approvals@[k]).request_id@,
                        request_id@,
                    )) && a.deep_view() == old(self).snapshot.deep_view().approvals[i]
                    && final(self).snapshot.deep_view().approvals == old(
                    self,
                ).snapshot.deep_view().approvals.remove(i),
            r matches Ok((a, answer)) ==> answer@ == response_view(
                request_id@,
                Ok(decision_result(decision@)),
            ),
            r is Err ==> final(self).snapshot == old(self).snapshot,
            final(self).snapshot.sessions == old(self).snapshot.sessions,
            final(self).snapshot.archived_sessions == old(self).snapshot.archived_sessions,
            final(self).snapshot.account == old(self).snapshot.account,
            final(self).snapshot.connected == old(self).snapshot.connected,
            final(self).next_id == old(self).next_id,
            final(self).connection_generation == old(self).connection_generation,
            final(self).diagnostics == old(self).diagnostics,
            final(self).pending_threads == old(self).pending_threads,
    {
        if !is_supported_decision(decision) {
            return Err(AppServerError::rpc("Unsupported approval decision"));
        }
        let mut i: usize = 0;
        while i < self.snapshot.approvals.len()
            invariant
                *self == *old(self),
                supported_decision(decision@),
                i <= self.snapshot.approvals@.len(),
                forall|k: int|
                    0 <= k < i ==> !same_value(
                        (#[trigger] self.snapshot.approvals@[k]).request_id@,
                        request_id@,
                    ),
            decreases self.snapshot.approvals@.len() - i,
        {
            if json_eq(&self.snapshot.approvals[i].request_id, request_id) {
                let ghost before = self.snapshot.approvals.deep_view();
                let approval = self.snapshot.approvals.remove(i);
                assert(self.snapshot.approvals.deep_view() =~= before.remove(i as int));
                assert(before[i as int] == approval.deep_view());
                assert(before == old(self).snapshot.deep_view().approvals);
                let answer = response_message(request_id.duplicate(), Ok(decision_answer(decision)));
                return Ok((approval, answer));
            }
            i = i + 1;
        }
        Err(AppServerError::rpc("Approval request is no longer pending"))
    }

    /// Puts back an approval whose answer could not be sent.
    pub fn restore_approval(&mut self, approval: ApprovalRequest)
        ensures
            final(self).snapshot.deep_view().approvals == old(
                self,
            ).snapshot.deep_view().approvals.push(approval.deep_view()),
            final(self).snapshot.sessions == old(self).snapshot.sessions,
            final(self).snapshot.archived_sessions == old(self).snapshot.archived_sessions,
            final(self).snapshot.account == old(self).snapshot.account,
            final(self).snapshot.connected == old(self).snapshot.connected,
            final(self).next_id == old(self).next_id,
            final(self).connection_generation == old(self).connection_generation,
            final(self).diagnostics == old(self).diagnostics,
            final(self).pending_threads == old(self).pending_threads,
    {
        let ghost before = self.snapshot.approvals.deep_view();
        let ghost av = approval.deep_view();
        self.snapshot.approvals.push(approval);
        assert(self.snapshot.approvals.deep_view() =~= before.push(av));
    }
}

} // verus!
