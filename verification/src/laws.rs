//! Properties of the dashboard that hold across its operations.
use crate::app_server::id_after;
use crate::approvals::{
    approval_of, default_decisions, request_is_not, strings_in, supported_decision,
};
use crate::json::{lemma_same_value_symmetric, member, same_value, JsonNumber, JsonView};
use crate::models::{shown_status, ApprovalView, RpcEnvelope, SessionView};
use crate::rpc::{routed, Incoming};
use crate::events::refreshing_method;
use crate::sessions::{
    index_of_id, keep_history, keep_loaded_history, prompt_title, restored_session, with_pending,
};
use vstd::prelude::*;

verus! {

/// No two approvals wait for the same request.
pub open spec fn request_ids_unique(approvals: Seq<ApprovalView>) -> bool {
    forall|i: int, j: int|
        0 <= i < approvals.len() && 0 <= j < approvals.len() && i != j ==> !same_value(
            approvals[i].request_id,
            approvals[j].request_id,
        )
}

/// A request never gets the id of the request sent just before it.
pub proof fn lemma_next_request_id_is_new(id: u64)
    ensures
        id_after(id) != id,
{
}

/// The id that `next_request` hands out `n` requests after one that got
/// `id`; every other operation of the dashboard keeps the next id as it is.
pub open spec fn id_after_n(id: u64, n: nat) -> u64
    decreases n,
{
    if n == 0 {
        id
    } else {
        id_after(id_after_n(id, (n - 1) as nat))
    }
}

/// The id `n` requests on is `id + n`, wrapping around past `u64::MAX`.
proof fn lemma_id_after_n_wraps(id: u64, n: nat)
    ensures
        id_after_n(id, n) as int == (id + n) % 0x1_0000_0000_0000_0000int,
    decreases n,
{
    let m: int = 0x1_0000_0000_0000_0000int;
    if n == 0 {
        vstd::arithmetic::div_mod::lemma_small_mod(id as nat, m as nat);
    } else {
        let k = (n - 1) as nat;
        lemma_id_after_n_wraps(id, k);
        vstd::arithmetic::div_mod::lemma_add_mod_noop(id + k, 1, m);
        vstd::arithmetic::div_mod::lemma_small_mod(1, m as nat);
        let p = id_after_n(id, k);
        if p == u64::MAX {
            vstd::arithmetic::div_mod::lemma_mod_self_0(m);
        } else {
            vstd::arithmetic::div_mod::lemma_small_mod((p + 1) as nat, m as nat);
        }
    }
}

/// Requests get pairwise different ids: two requests fewer than 2^64
/// requests apart never share an id, and while the ids have not wrapped
/// around past `u64::MAX`, a later request gets a larger id.
pub proof fn lemma_request_ids_are_distinct(id: u64, m: nat, n: nat)
    requires
        m < n,
        n - m <= u64::MAX,
    ensures
        id_after_n(id, m) != id_after_n(id, n),
        id + n <= u64::MAX ==> id_after_n(id, m) < id_after_n(id, n),
{
    let b: int = 0x1_0000_0000_0000_0000int;
    lemma_id_after_n_wraps(id, m);
    lemma_id_after_n_wraps(id, n);
    vstd::arithmetic::div_mod::lemma_mod_equivalence(id + n, id + m, b);
    vstd::arithmetic::div_mod::lemma_small_mod((n - m) as nat, b as nat);
    assert((id + n) - (id + m) == n - m);
    if id + n <= u64::MAX {
        vstd::arithmetic::div_mod::lemma_small_mod((id + n) as nat, b as nat);
        vstd::arithmetic::div_mod::lemma_small_mod((id + m) as nat, b as nat);
    }
}

/// The connection generations over a run of the dashboard: each operation
/// either begins a connection, which takes the generation one up, or keeps
/// it as it is.
pub open spec fn generation_run(gens: Seq<u64>) -> bool {
    forall|k: int|
        0 < k < gens.len() ==> #[trigger] gens[k] == gens[k - 1] || gens[k] == gens[k - 1] + 1
}

/// Generations never go down over a run.
proof fn lemma_generations_grow(gens: Seq<u64>, s: int, t: int)
    requires
        generation_run(gens),
        0 <= s <= t < gens.len(),
    ensures
        gens[s] <= gens[t],
    decreases t - s,
{
    if s < t {
        lemma_generations_grow(gens, s, t - 1);
        assert(gens[t] == gens[t - 1] || gens[t] == gens[t - 1] + 1);
    }
}

/// The reader of a connection acts on the end of its output only while its
/// generation is the current one: once a later connection has begun, the
/// reader of the earlier one is stale and never marks the dashboard
/// disconnected; while none has, it is still current.
pub proof fn lemma_stale_reader_is_not_current(gens: Seq<u64>, s: int, t: int)
    requires
        generation_run(gens),
        0 <= s <= t < gens.len(),
    ensures
        (exists|k: int| s < k <= t && #[trigger] gens[k] == gens[k - 1] + 1) ==> gens[t] != gens[s],
        (forall|k: int| s < k <= t ==> #[trigger] gens[k] == gens[k - 1]) ==> gens[t] == gens[s],
{
    if exists|k: int| s < k <= t && #[trigger] gens[k] == gens[k - 1] + 1 {
        let k = choose|k: int| s < k <= t && #[trigger] gens[k] == gens[k - 1] + 1;
        lemma_generations_grow(gens, s, k - 1);
        lemma_generations_grow(gens, k, t);
    }
    if forall|k: int| s < k <= t ==> #[trigger] gens[k] == gens[k - 1] {
        lemma_generations_kept(gens, s, t);
    }
}

/// Where no connection begins, the generation stays as it is.
proof fn lemma_generations_kept(gens: Seq<u64>, s: int, t: int)
    requires
        0 <= s <= t < gens.len(),
        forall|k: int| s < k <= t ==> #[trigger] gens[k] == gens[k - 1],
    ensures
        gens[t] == gens[s],
    decreases t - s,
{
    if s < t {
        lemma_generations_kept(gens, s, t - 1);
    }
}

/// Taking in an approval request keeps the waiting approvals one per
/// request: the new one replaces any earlier one with its id.
pub proof fn lemma_approvals_stay_one_per_request(approvals: Seq<ApprovalView>, a: ApprovalView)
    requires
        request_ids_unique(approvals),
    ensures
        request_ids_unique(approvals.filter(request_is_not(a.request_id)).push(a)),
{
    let kept = approvals.filter(request_is_not(a.request_id));
    let all = kept.push(a);
    assert forall|i: int, j: int|
        0 <= i < all.len() && 0 <= j < all.len() && i != j implies !same_value(
            all[i].request_id,
            all[j].request_id,
        ) by {
        if i < kept.len() && j < kept.len() {
            kept.lemma_filter_contains_rev(request_is_not(a.request_id), kept[i]);
            kept.lemma_filter_contains_rev(request_is_not(a.request_id), kept[j]);
            assert(approvals.filter(request_is_not(a.request_id)).contains(kept[i]));
            approvals.lemma_filter_contains_rev(request_is_not(a.request_id), kept[i]);
            approvals.lemma_filter_contains_rev(request_is_not(a.request_id), kept[j]);
            lemma_filter_keeps_order(approvals, request_is_not(a.request_id), i, j);
        } else if i == kept.len() {
            approvals.lemma_filter_pred(request_is_not(a.request_id), j);
            if same_value(all[i].request_id, all[j].request_id) {
                lemma_same_value_symmetric(all[i].request_id, all[j].request_id);
            }
        } else {
            approvals.lemma_filter_pred(request_is_not(a.request_id), i);
        }
    }
}

/// Two different positions of a filtered sequence hold elements from two
/// different positions of the sequence.
proof fn lemma_filter_keeps_order(
    s: Seq<ApprovalView>,
    pred: spec_fn(ApprovalView) -> bool,
    i: int,
    j: int,
)
    requires
        forall|x: int, y: int|
            0 <= x < s.len() && 0 <= y < s.len() && x != y ==> !same_value(
                s[x].request_id,
                s[y].request_id,
            ),
        0 <= i < s.filter(pred).len(),
        0 <= j < s.filter(pred).len(),
        i != j,
    ensures
        !same_value(s.filter(pred)[i].request_id, s.filter(pred)[j].request_id),
    decreases s.len(),
{
    reveal(Seq::filter);
    let d = s.drop_last();
    let f = d.filter(pred);
    assert forall|x: int, y: int|
        0 <= x < d.len() && 0 <= y < d.len() && x != y implies !same_value(
            d[x].request_id,
            d[y].request_id,
        ) by {
        assert(d[x] == s[x] && d[y] == s[y]);
    }
    if pred(s.last()) {
        if i < f.len() && j < f.len() {
            lemma_filter_keeps_order(d, pred, i, j);
        } else {
            let k = if i < f.len() {
                i
            } else {
                j
            };
            d.lemma_filter_contains_rev(pred, f[k]);
            let m = choose|m: int| 0 <= m < d.len() && d[m] == f[k];
            assert(s[m] == d[m]);
            assert(s[s.len() - 1] == s.last());
        }
    } else {
        lemma_filter_keeps_order(d, pred, i, j);
    }
}

/// An approval whose answer could not be sent and is put back leaves the
/// waiting approvals as they were, up to order.
pub proof fn lemma_restored_approval_is_kept(approvals: Seq<ApprovalView>, i: int)
    requires
        0 <= i < approvals.len(),
    ensures
        approvals.remove(i).push(approvals[i]).to_multiset() =~= approvals.to_multiset(),
{
    broadcast use vstd::seq_lib::group_to_multiset_ensures;

    let rest = approvals.remove(i);
    assert(rest.push(approvals[i]).to_multiset() =~= rest.to_multiset().insert(approvals[i]));
    assert(rest.to_multiset() =~= approvals.to_multiset().remove(approvals[i]));
    assert(approvals.to_multiset().count(approvals[i]) > 0) by {
        assert(approvals.contains(approvals[i]));
    }
}

/// A session brought back from the archive keeps what the archive held of
/// it: its model, messages, token usage and whether its history was loaded.
pub proof fn lemma_restore_keeps_archived_history(
    archived: SessionView,
    rest: Seq<SessionView>,
    fresh: SessionView,
)
    ensures
        ({
            let all = seq![archived] + rest;
            let found = match index_of_id(all, archived.id) {
                Some(k) => Some(all[k]),
                None => None,
            };
            let s = restored_session(fresh, found);
            &&& s.model == archived.model
            &&& s.messages == archived.messages
            &&& s.token_usage == archived.token_usage
            &&& s.history_loaded == archived.history_loaded
        }),
{
    let all = seq![archived] + rest;
    assert(all[0] == archived);
}

/// A thread started without a first message is sent messages without being
/// resumed first: it is pending after the start.
pub proof fn lemma_started_thread_is_pending(pending: Seq<Seq<char>>, id: Seq<char>)
    ensures
        with_pending(pending, id).contains(id),
{
    if !pending.contains(id) {
        assert(pending.push(id)[pending.len() as int] == id);
    }
}

/// A title derived from a prompt is at most 80 characters long.
pub proof fn lemma_prompt_title_is_short(prompt: Seq<char>)
    ensures
        prompt_title(prompt).len() <= 80,
{
    reveal_strlit("New session");
}

/// Every thread is shown as working, waiting, in error, or idle.
pub proof fn lemma_status_is_known(raw: Seq<char>)
    ensures
        ({
            let s = shown_status(raw);
            s == "working"@ || s == "waiting"@ || s == "error"@ || s == "idle"@
        }),
{
}

/// An answer that carries the id of a request the dashboard sent, and no
/// method, goes to that request.
pub proof fn lemma_answer_reaches_its_request(e: RpcEnvelope, id: u64, r: Incoming)
    requires
        e.method is None,
        e.id matches Some(v) && v@ == JsonView::Number(JsonNumber::PosInt(id)),
        routed(e, r),
    ensures
        r matches Incoming::Response { request_id, result } && request_id == id,
{
}

/// An answer that carries no error hands its request the result it
/// carries, `null` where it carries none; one that carries an error hands
/// its request that error.
pub proof fn lemma_answer_carries_its_result(e: RpcEnvelope, id: u64, r: Incoming)
    requires
        e.method is None,
        e.id matches Some(v) && v@ == JsonView::Number(JsonNumber::PosInt(id)),
        routed(e, r),
    ensures
        e.error is None && e.result is Some ==> (r matches Incoming::Response {
            request_id,
            result,
        } && request_id == id && (result matches Ok(w) && w@ == e.result->0@)),
        e.error is None && e.result is None ==> (r matches Incoming::Response {
            request_id,
            result,
        } && request_id == id && (result matches Ok(w) && w@ == JsonView::Null)),
        e.error is Some ==> (r matches Incoming::Response { request_id, result } && request_id
            == id && (result matches Err(err) && err.text() == e.error->0@)),
{
}

/// A message that names a method is a request of the server where it
/// carries an id, and a notification otherwise; either way with the method
/// and the parameters it carries, `null` where it carries none.
pub proof fn lemma_server_messages_carry_their_parameters(e: RpcEnvelope, r: Incoming)
    requires
        e.method is Some,
        routed(e, r),
    ensures
        e.id is Some ==> (r matches Incoming::ServerRequest { method, id, params } && method@
            == e.method->0@ && id@ == e.id->0@ && params@ == match e.params {
            Some(p) => p@,
            None => JsonView::Null,
        }),
        e.id is None ==> (r matches Incoming::Notification { method, params } && method@
            == e.method->0@ && params@ == match e.params {
            Some(p) => p@,
            None => JsonView::Null,
        }),
{
}

/// The decisions that the user can send are exactly those offered by
/// default, and `cancel`.
pub proof fn lemma_offered_decisions_are_supported(d: Seq<char>)
    ensures
        supported_decision(d) <==> (default_decisions().contains(d) || d == "cancel"@),
{
    let dd = default_decisions();
    assert(dd[0] == "accept"@ && dd[1] == "acceptForSession"@ && dd[2] == "decline"@);
    if supported_decision(d) && d != "cancel"@ {
        if d == "accept"@ {
            assert(dd[0] == d);
        } else if d == "acceptForSession"@ {
            assert(dd[1] == d);
        } else {
            assert(dd[2] == d);
        }
    }
}

/// The notifications of a change of threads, turns, items or the account
/// are those after which sessions and account are read anew.
pub proof fn lemma_state_changes_refresh(method: Seq<char>)
    ensures
        refreshing_method(method) <==> seq![
            "thread/started"@,
            "thread/archived"@,
            "thread/deleted"@,
            "thread/unarchived"@,
            "thread/status/changed"@,
            "thread/name/updated"@,
            "thread/tokenUsage/updated"@,
            "turn/started"@,
            "turn/completed"@,
            "item/completed"@,
            "account/updated"@,
            "account/rateLimits/updated"@,
            "account/login/completed"@,
        ].contains(method),
{
    let l = seq![
        "thread/started"@,
        "thread/archived"@,
        "thread/deleted"@,
        "thread/unarchived"@,
        "thread/status/changed"@,
        "thread/name/updated"@,
        "thread/tokenUsage/updated"@,
        "turn/started"@,
        "turn/completed"@,
        "item/completed"@,
        "account/updated"@,
        "account/rateLimits/updated"@,
        "account/login/completed"@,
    ];
    if refreshing_method(method) {
        let k: int = if method == l[0] { 0 } else if method == l[1] { 1 } else if method == l[2] { 2 }
        else if method == l[3] { 3 } else if method == l[4] { 4 } else if method == l[5] { 5 }
        else if method == l[6] { 6 } else if method == l[7] { 7 } else if method == l[8] { 8 }
        else if method == l[9] { 9 } else if method == l[10] { 10 } else if method == l[11] { 11 }
        else { 12 };
        assert(l[k] == method);
    }
}

/// Each detail of an approval request comes from the parameter of its own
/// name: a text where the parameter is a string, and nothing otherwise.
pub proof fn lemma_approval_details_come_from_their_parameters(
    kind: Seq<char>,
    request_id: JsonView,
    members: Seq<(Seq<char>, JsonView)>,
)
    ensures
        ({
            let a = approval_of(kind, request_id, JsonView::Object(members));
            let text = |name: Seq<char>|
                match member(members, name) {
                    Some(JsonView::String(t)) => Some(t),
                    _ => None,
                };
            &&& a.request_id == request_id
            &&& a.kind == kind
            &&& a.command == text("command"@)
            &&& a.cwd == text("cwd"@)
            &&& a.reason == text("reason"@)
            &&& a.grant_root == text("grantRoot"@)
            &&& a.thread_id == match text("threadId"@) {
                Some(t) => t,
                None => Seq::empty(),
            }
            &&& a.turn_id == match text("turnId"@) {
                Some(t) => t,
                None => Seq::empty(),
            }
            &&& a.item_id == match text("itemId"@) {
                Some(t) => t,
                None => Seq::empty(),
            }
            &&& a.started_at == match member(members, "startedAtMs"@) {
                Some(JsonView::Number(n)) => match n.spec_as_i64() {
                    Some(t) => t,
                    None => 0,
                },
                _ => 0,
            }
            &&& a.available_decisions == match member(members, "availableDecisions"@) {
                Some(JsonView::Array(items)) if strings_in(items).len() > 0 => strings_in(items),
                _ => default_decisions(),
            }
        }),
{
}

/// `previous[j]` is the first session of `previous` with id `id` whose
/// history was loaded.
pub open spec fn first_loaded_at(previous: Seq<SessionView>, id: Seq<char>, j: int) -> bool {
    &&& 0 <= j < previous.len()
    &&& previous[j].id == id
    &&& previous[j].history_loaded
    &&& forall|k: int| 0 <= k < j ==> !(#[trigger] previous[k].id == id && previous[k].history_loaded)
}

/// A reload keeps, for each listed session, the history that the earlier
/// listing had loaded for it: the first earlier session with its id whose
/// history was loaded gives its messages, token usage and active turn; the
/// rest comes from the listing. A session with no such earlier session is
/// kept as listed.
pub proof fn lemma_reload_keeps_loaded_history(
    sessions: Seq<SessionView>,
    previous: Seq<SessionView>,
    i: int,
)
    requires
        0 <= i < sessions.len(),
    ensures
        keep_loaded_history(sessions, previous).len() == sessions.len(),
        forall|j: int|
            #[trigger] first_loaded_at(previous, sessions[i].id, j) ==> {
                let s = sessions[i];
                let r = keep_loaded_history(sessions, previous)[i];
                &&& r.messages == previous[j].messages
                &&& r.token_usage == previous[j].token_usage
                &&& r.active_turn_id == previous[j].active_turn_id
                &&& r.history_loaded
                &&& r.id == s.id && r.title == s.title && r.cwd == s.cwd && r.status == s.status
                &&& r.updated_at == s.updated_at && r.model == s.model
            },
        (forall|j: int|
            0 <= j < previous.len() ==> !(#[trigger] previous[j].id == sessions[i].id
                && previous[j].history_loaded)) ==> keep_loaded_history(sessions, previous)[i]
            == sessions[i],
{
    assert(keep_loaded_history(sessions, previous)[i] == keep_history(sessions[i], previous));
    assert forall|j: int| #[trigger] first_loaded_at(previous, sessions[i].id, j) implies {
        let s = sessions[i];
        let r = keep_loaded_history(sessions, previous)[i];
        &&& r.messages == previous[j].messages
        &&& r.token_usage == previous[j].token_usage
        &&& r.active_turn_id == previous[j].active_turn_id
        &&& r.history_loaded
        &&& r.id == s.id && r.title == s.title && r.cwd == s.cwd && r.status == s.status
        &&& r.updated_at == s.updated_at && r.model == s.model
    } by {
        lemma_loaded_match_first(previous, sessions[i].id, j);
    }
    if forall|j: int|
        0 <= j < previous.len() ==> !(#[trigger] previous[j].id == sessions[i].id
            && previous[j].history_loaded) {
        lemma_loaded_match_none(previous, sessions[i].id);
    }
}

/// The first loaded earlier session with `id` stands at `j`.
spec fn loaded_match_is(previous: Seq<SessionView>, id: Seq<char>, j: int) -> bool {
    crate::sessions::loaded_match(previous, id) == Some(previous[j])
}

proof fn lemma_loaded_match_first(previous: Seq<SessionView>, id: Seq<char>, j: int)
    requires
        0 <= j < previous.len(),
        previous[j].id == id && previous[j].history_loaded,
        forall|k: int| 0 <= k < j ==> !(#[trigger] previous[k].id == id && previous[k].history_loaded),
    ensures
        loaded_match_is(previous, id, j),
    decreases j,
{
    if j > 0 {
        let t = previous.drop_first();
        assert(!(previous[0].id == id && previous[0].history_loaded));
        assert forall|k: int| 0 <= k < j - 1 implies !(#[trigger] t[k].id == id && t[k].history_loaded) by {
            assert(t[k] == previous[k + 1]);
        }
        lemma_loaded_match_first(t, id, j - 1);
    }
}

proof fn lemma_loaded_match_none(previous: Seq<SessionView>, id: Seq<char>)
    requires
        forall|j: int|
            0 <= j < previous.len() ==> !(#[trigger] previous[j].id == id && previous[j].history_loaded),
    ensures
        crate::sessions::loaded_match(previous, id) is None,
    decreases previous.len(),
{
    if previous.len() > 0 {
        let t = previous.drop_first();
        assert(!(previous[0].id == id && previous[0].history_loaded));
        assert forall|j: int| 0 <= j < t.len() implies !(#[trigger] t[j].id == id && t[j].history_loaded) by {
            assert(t[j] == previous[j + 1]);
        }
        lemma_loaded_match_none(t, id);
    }
}

} // verus!
