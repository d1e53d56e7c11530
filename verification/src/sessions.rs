//! The session list: ordering it by recency, carrying loaded history and
//! pending threads from one listing to the next, and finding, removing and
//! inserting sessions by id.
use crate::app_server::AppServer;
use crate::approvals::thread_is_not;
use crate::dup::Duplicate;
use crate::json::{opt_get, opt_str, str_or, string_or, views, Json, JsonView};
use crate::models::{
    sessions_from_threads, sessions_of, session_from_thread, session_of, millis_fit,
    threads_in_range, updated_at_seconds, DashboardSnapshot, Session, SessionView,
};
use crate::rpc::AppServerError;
use crate::text::{
    contains, first_nonblank_line, has_infix, is_blank, spec_first_nonblank_line,
    spec_take_chars, str_eq, take_chars, trimmed,
};
use vstd::prelude::*;

verus! {

broadcast use vstd::seq_lib::group_seq_properties;

/// Sessions last updated at `t`.
pub open spec fn updated_at_is(t: i64) -> spec_fn(SessionView) -> bool {
    |s: SessionView| s.updated_at == t
}

/// Sessions other than the one with id `id`.
pub open spec fn id_is_not(id: Seq<char>) -> spec_fn(SessionView) -> bool {
    |s: SessionView| s.id != id
}

/// The most recently updated session comes first.
pub open spec fn newest_first(s: Seq<SessionView>) -> bool {
    forall|i: int, j: int| 0 <= i < j < s.len() ==> s[i].updated_at >= s[j].updated_at
}

/// `b` holds the sessions of `a`, newest first, and sessions updated at the
/// same time keep the order they had in `a`.
pub open spec fn sorted_by_recency(a: Seq<SessionView>, b: Seq<SessionView>) -> bool {
    &&& newest_first(b)
    &&& forall|t: i64| #[trigger] b.filter(updated_at_is(t)) == a.filter(updated_at_is(t))
}

proof fn lemma_filter_none<A>(s: Seq<A>, pred: spec_fn(A) -> bool)
    requires
        forall|k: int| 0 <= k < s.len() ==> !pred(#[trigger] s[k]),
    ensures
        s.filter(pred) == Seq::<A>::empty(),
    decreases s.len(),
{
    reveal(Seq::filter);
    if s.len() > 0 {
        assert forall|k: int| 0 <= k < s.drop_last().len() implies !pred(
            #[trigger] s.drop_last()[k],
        ) by {
            assert(s.drop_last()[k] == s[k]);
        }
        lemma_filter_none(s.drop_last(), pred);
        assert(!pred(s[s.len() - 1]));
    }
    assert(s.filter(pred) =~= Seq::<A>::empty());
}

proof fn lemma_filter_insert<A>(s: Seq<A>, p: int, x: A, pred: spec_fn(A) -> bool)
    requires
        0 <= p <= s.len(),
        forall|k: int| p <= k < s.len() ==> !pred(#[trigger] s[k]),
    ensures
        s.insert(p, x).filter(pred) == if pred(x) {
            s.filter(pred).push(x)
        } else {
            s.filter(pred)
        },
{
    let a = s.subrange(0, p);
    let b = s.subrange(p, s.len() as int);
    assert(s.insert(p, x) =~= a.push(x) + b);
    assert(s =~= a + b);
    Seq::filter_distributes_over_add(a.push(x), b, pred);
    Seq::filter_distributes_over_add(a, b, pred);
    assert forall|k: int| 0 <= k < b.len() implies !pred(#[trigger] b[k]) by {
        assert(b[k] == s[k + p]);
    }
    lemma_filter_none(b, pred);
    a.lemma_filter_push(x, pred);
    assert(a.push(x).filter(pred) + b.filter(pred) =~= a.push(x).filter(pred));
    assert(a.filter(pred) + b.filter(pred) =~= a.filter(pred));
}

proof fn lemma_filter_insert_skipped<A>(s: Seq<A>, p: int, x: A, pred: spec_fn(A) -> bool)
    requires
        0 <= p <= s.len(),
        !pred(x),
    ensures
        s.insert(p, x).filter(pred) == s.filter(pred),
{
    let a = s.subrange(0, p);
    let b = s.subrange(p, s.len() as int);
    assert(s.insert(p, x) =~= a.push(x) + b);
    assert(s =~= a + b);
    Seq::filter_distributes_over_add(a.push(x), b, pred);
    Seq::filter_distributes_over_add(a, b, pred);
    a.lemma_filter_push(x, pred);
}

/// The sessions of `sessions`, most recently updated first; sessions updated
/// at the same time keep their order.
pub fn sort_by_recency(sessions: &Vec<Session>) -> (r: Vec<Session>)
    ensures
        sorted_by_recency(sessions.deep_view(), r.deep_view()),
{
    let ghost input = sessions.deep_view();
    let mut r: Vec<Session> = Vec::new();
    let mut i: usize = 0;
    proof {
        assert forall|t: i64| #[trigger] r.deep_view().filter(updated_at_is(t)) == input.take(
            0,
        ).filter(updated_at_is(t)) by {
            reveal(Seq::filter);
            assert(r.deep_view() =~= Seq::<SessionView>::empty());
            assert(input.take(0) =~= Seq::<SessionView>::empty());
        }
    }
    while i < sessions.len()
        invariant
            input == sessions.deep_view(),
            i <= sessions@.len(),
            newest_first(r.deep_view()),
            forall|t: i64| #[trigger]
                r.deep_view().filter(updated_at_is(t)) == input.take(i as int).filter(
                    updated_at_is(t),
                ),
        decreases sessions@.len() - i,
    {
        let x = sessions[i].duplicate();
        let key = x.updated_at;
        let mut p: usize = 0;
        while p < r.len() && r[p].updated_at >= key
            invariant
                p <= r@.len(),
                forall|k: int| 0 <= k < p ==> (#[trigger] r@[k]).updated_at >= key,
            decreases r@.len() - p,
        {
            p = p + 1;
        }
        let ghost before = r.deep_view();
        let ghost xv = x.deep_view();
        r.insert(p, x);
        proof {
            assert(r.deep_view() =~= before.insert(p as int, xv));
            assert(input[i as int] == xv);
            assert forall|k: int| p <= k < before.len() implies before[k].updated_at < key by {
                assert(before[p as int].updated_at < key);
            }
            assert(input.take(i + 1) =~= input.take(i as int).push(xv));
            assert forall|t: i64| #[trigger]
                r.deep_view().filter(updated_at_is(t)) == input.take(i + 1).filter(
                    updated_at_is(t),
                ) by {
                if t == key {
                    assert forall|k: int| p <= k < before.len() implies !updated_at_is(t)(
                        #[trigger] before[k],
                    ) by {}
                    lemma_filter_insert(before, p as int, xv, updated_at_is(t));
                } else {
                    lemma_filter_insert_skipped(before, p as int, xv, updated_at_is(t));
                }
                input.take(i as int).lemma_filter_push(xv, updated_at_is(t));
            }
        }
        i = i + 1;
    }
    proof {
        assert(input.take(input.len() as int) =~= input);
    }
    r
}


/// The server refused to list the turns of a thread that has had no message yet.
pub open spec fn unmaterialized_thread_error(error: AppServerError) -> bool {
    &&& error is Rpc
    &&& has_infix(error.text(), "is not materialized yet"@)
    &&& has_infix(error.text(), "thread/turns/list"@)
}

/// Whether `error` is the server's refusal to list the turns of a thread
/// that has had no message yet; such a thread has no history to show.
pub fn is_unmaterialized_thread_error(error: &AppServerError) -> (r: bool)
    ensures
        r == unmaterialized_thread_error(*error),
{
    match error {
        AppServerError::Rpc(message) => contains(message.as_str(), "is not materialized yet")
            && contains(message.as_str(), "thread/turns/list"),
        _ => false,
    }
}

/// Whether `text` is one of `texts`.
pub fn contains_text(texts: &Vec<String>, text: &str) -> (r: bool)
    ensures
        r == texts.deep_view().contains(text@),
{
    let mut i: usize = 0;
    while i < texts.len()
        invariant
            i <= texts@.len(),
            forall|k: int| 0 <= k < i ==> texts@[k]@ != text@,
        decreases texts@.len() - i,
    {
        if str_eq(texts[i].as_str(), text) {
            assert(texts.deep_view()[i as int] == text@);
            return true;
        }
        i = i + 1;
    }
    proof {
        if texts.deep_view().contains(text@) {
            let k = choose|k: int| 0 <= k < texts.deep_view().len() && texts.deep_view()[k] == text@;
            assert(texts@[k]@ == text@);
        }
    }
    false
}

/// A message to the thread `thread_id` must first resume it, unless the thread
/// was started here without a message and the server does not list it yet.
pub fn requires_thread_resume(pending_threads: &Vec<String>, thread_id: &str) -> (r: bool)
    ensures
        r == !pending_threads.deep_view().contains(thread_id@),
{
    !contains_text(pending_threads, thread_id)
}

/// The index of the first session with id `id`.
pub open spec fn index_of_id(s: Seq<SessionView>, id: Seq<char>) -> Option<int>
    decreases s.len(),
{
    if s.len() == 0 {
        None
    } else if s[0].id == id {
        Some(0)
    } else {
        match index_of_id(s.drop_first(), id) {
            Some(i) => Some(i + 1),
            None => None,
        }
    }
}

proof fn lemma_index_of_id(s: Seq<SessionView>, id: Seq<char>)
    ensures
        match index_of_id(s, id) {
            Some(i) => 0 <= i < s.len() && s[i].id == id && forall|k: int|
                0 <= k < i ==> (#[trigger] s[k]).id != id,
            None => forall|k: int| 0 <= k < s.len() ==> (#[trigger] s[k]).id != id,
        },
    decreases s.len(),
{
    if s.len() > 0 && s[0].id != id {
        lemma_index_of_id(s.drop_first(), id);
        match index_of_id(s.drop_first(), id) {
            Some(i) => {
                assert forall|k: int| 0 <= k < i + 1 implies (#[trigger] s[k]).id != id by {
                    if k > 0 {
                        assert(s[k] == s.drop_first()[k - 1]);
                    }
                }
            },
            None => {
                assert forall|k: int| 0 <= k < s.len() implies (#[trigger] s[k]).id != id by {
                    if k > 0 {
                        assert(s[k] == s.drop_first()[k - 1]);
                    }
                }
            },
        }
    }
}

/// The index of the first session in `sessions` with id `id`.
pub fn position_of(sessions: &[Session], id: &str) -> (r: Option<usize>)
    ensures
        match r {
            Some(i) => index_of_id(sessions.deep_view(), id@) == Some(i as int) && i
                < sessions@.len(),
            None => index_of_id(sessions.deep_view(), id@) is None,
        },
{
    let ghost s = sessions.deep_view();
    proof {
        lemma_index_of_id(s, id@);
    }
    let mut i: usize = 0;
    while i < sessions.len()
        invariant
            s == sessions.deep_view(),
            i <= s.len(),
            forall|k: int| 0 <= k < i ==> (#[trigger] s[k]).id != id@,
            match index_of_id(s, id@) {
                Some(j) => 0 <= j < s.len() && s[j].id == id@ && forall|k: int|
                    0 <= k < j ==> (#[trigger] s[k]).id != id@,
                None => forall|k: int| 0 <= k < s.len() ==> (#[trigger] s[k]).id != id@,
            },
        decreases s.len() - i,
    {
        if str_eq(sessions[i].id.as_str(), id) {
            assert(s[i as int].id == id@);
            return Some(i);
        }
        i = i + 1;
    }
    None
}

/// The sessions of `sessions` other than those with id `id`, in order.
pub fn sessions_without(sessions: &Vec<Session>, id: &str) -> (r: Vec<Session>)
    ensures
        r.deep_view() == sessions.deep_view().filter(id_is_not(id@)),
{
    let ghost s = sessions.deep_view();
    let mut r: Vec<Session> = Vec::new();
    let mut i: usize = 0;
    proof {
        reveal(Seq::filter);
        assert(s.take(0) =~= Seq::<SessionView>::empty());
        assert(r.deep_view() =~= Seq::<SessionView>::empty());
    }
    while i < sessions.len()
        invariant
            s == sessions.deep_view(),
            i <= s.len(),
            r.deep_view() == s.take(i as int).filter(id_is_not(id@)),
        decreases s.len() - i,
    {
        proof {
            assert(s.take(i + 1) =~= s.take(i as int).push(s[i as int]));
            s.take(i as int).lemma_filter_push(s[i as int], id_is_not(id@));
        }
        if !str_eq(sessions[i].id.as_str(), id) {
            let ghost before = r.deep_view();
            let x = sessions[i].duplicate();
            r.push(x);
            assert(r.deep_view() =~= before.push(s[i as int]));
        }
        i = i + 1;
    }
    assert(s.take(s.len() as int) =~= s);
    r
}

/// The first session of `previous` with id `id` whose history was loaded.
pub open spec fn loaded_match(previous: Seq<SessionView>, id: Seq<char>) -> Option<SessionView>
    decreases previous.len(),
{
    if previous.len() == 0 {
        None
    } else if previous[0].id == id && previous[0].history_loaded {
        Some(previous[0])
    } else {
        loaded_match(previous.drop_first(), id)
    }
}

/// `s` with the loaded history of `p`: its messages, token usage and active turn.
pub open spec fn with_history_of(s: SessionView, p: SessionView) -> SessionView {
    SessionView {
        id: s.id,
        title: s.title,
        cwd: s.cwd,
        status: s.status,
        updated_at: s.updated_at,
        model: s.model,
        active_turn_id: p.active_turn_id,
        messages: p.messages,
        token_usage: p.token_usage,
        history_loaded: true,
    }
}

/// `s`, keeping the history that an earlier listing `previous` had loaded for it.
pub open spec fn keep_history(s: SessionView, previous: Seq<SessionView>) -> SessionView {
    match loaded_match(previous, s.id) {
        Some(p) => with_history_of(s, p),
        None => s,
    }
}

/// `sessions`, each keeping the history that `previous` had loaded for it.
pub open spec fn keep_loaded_history(sessions: Seq<SessionView>, previous: Seq<SessionView>) -> Seq<
    SessionView,
> {
    sessions.map_values(|s: SessionView| keep_history(s, previous))
}

/// The index of the first session of `previous` with id `id` whose history was loaded.
fn loaded_index(previous: &[Session], id: &str) -> (r: Option<usize>)
    ensures
        match r {
            Some(j) => j < previous@.len() && loaded_match(previous.deep_view(), id@) == Some(
                previous.deep_view()[j as int],
            ),
            None => loaded_match(previous.deep_view(), id@) is None,
        },
{
    let ghost p = previous.deep_view();
    let mut j: usize = 0;
    assert(p.skip(0) =~= p);
    while j < previous.len()
        invariant
            p == previous.deep_view(),
            j <= p.len(),
            loaded_match(p, id@) == loaded_match(p.skip(j as int), id@),
        decreases p.len() - j,
    {
        assert(p.skip(j as int)[0] == p[j as int]);
        if previous[j].history_loaded && str_eq(previous[j].id.as_str(), id) {
            return Some(j);
        }
        assert(p.skip(j as int).drop_first() =~= p.skip(j + 1));
        j = j + 1;
    }
    None
}

/// Sessions of an earlier listing that wait for the server to list them:
/// pending threads that `listed` does not hold.
pub open spec fn awaiting_listing(pending: Seq<Seq<char>>, listed: Seq<Seq<char>>) -> spec_fn(
    SessionView,
) -> bool {
    |p: SessionView| pending.contains(p.id) && !listed.contains(p.id)
}

/// Thread ids that `listed` does not hold.
pub open spec fn not_listed(listed: Seq<Seq<char>>) -> spec_fn(Seq<char>) -> bool {
    |t: Seq<char>| !listed.contains(t)
}

/// The ids of `s`, in order.
pub open spec fn ids_of(s: Seq<SessionView>) -> Seq<Seq<char>> {
    s.map_values(|x: SessionView| x.id)
}

proof fn lemma_filter_no_duplicates<A>(s: Seq<A>, pred: spec_fn(A) -> bool)
    requires
        s.no_duplicates(),
    ensures
        s.filter(pred).no_duplicates(),
    decreases s.len(),
{
    reveal(Seq::filter);
    if s.len() > 0 {
        let d = s.drop_last();
        assert forall|i: int, j: int| 0 <= i < d.len() && 0 <= j < d.len() && i != j implies d[i]
            != d[j] by {
            assert(d[i] == s[i] && d[j] == s[j]);
        }
        lemma_filter_no_duplicates(d, pred);
        if pred(s.last()) {
            let f = d.filter(pred);
            if f.contains(s.last()) {
                d.lemma_filter_contains_rev(pred, s.last());
                let k = choose|k: int| 0 <= k < d.len() && d[k] == s.last();
                assert(s[k] == s[s.len() - 1]);
            }
            assert(f.push(s.last()).no_duplicates()) by {
                assert forall|i: int, j: int|
                    0 <= i < f.len() + 1 && 0 <= j < f.len() + 1 && i != j implies f.push(
                    s.last(),
                )[i] != f.push(s.last())[j] by {
                    if i < f.len() && j < f.len() {
                    } else if i == f.len() {
                        assert(f.contains(f[j]));
                    } else {
                        assert(f.contains(f[i]));
                    }
                }
            }
        }
    }
}

impl AppServer {
    /// Sessions that an earlier listing `previous_sessions` had loaded the
    /// history of keep it: their messages, token usage and active turn.
    pub fn preserve_loaded_history(previous_sessions: &[Session], sessions: &mut Vec<Session>)
        ensures
            final(sessions).deep_view() == keep_loaded_history(
                old(sessions).deep_view(),
                previous_sessions.deep_view(),
            ),
    {
        let ghost start = sessions.deep_view();
        let ghost prev = previous_sessions.deep_view();
        let mut i: usize = 0;
        while i < sessions.len()
            invariant
                prev == previous_sessions.deep_view(),
                start.len() == sessions@.len(),
                i <= start.len(),
                forall|k: int|
                    0 <= k < i ==> (#[trigger] sessions@[k]).deep_view() == keep_history(
                        start[k],
                        prev,
                    ),
                forall|k: int| i <= k < start.len() ==> (#[trigger] sessions@[k]).deep_view() == start[k],
            decreases start.len() - i,
        {
            match loaded_index(previous_sessions, sessions[i].id.as_str()) {
                Some(j) => {
                    let mut s = sessions[i].duplicate();
                    s.messages = previous_sessions[j].messages.duplicate();
                    s.token_usage = previous_sessions[j].token_usage;
                    s.active_turn_id = previous_sessions[j].active_turn_id.duplicate();
                    s.history_loaded = true;
                    sessions.set(i, s);
                },
                None => {},
            }
            i = i + 1;
        }
        assert(sessions.deep_view() =~= keep_loaded_history(start, prev));
    }

    /// Sessions of the earlier listing `previous_sessions` that are pending
    /// and not in `sessions` are kept after them; a pending thread stops
    /// being pending once `sessions` holds it.
    pub fn preserve_pending_sessions(
        previous_sessions: &[Session],
        sessions: &mut Vec<Session>,
        pending_threads: &mut Vec<String>,
    )
        ensures
            final(sessions).deep_view() == old(sessions).deep_view() + previous_sessions.deep_view().filter(
                awaiting_listing(old(pending_threads).deep_view(), ids_of(old(sessions).deep_view())),
            ),
            final(pending_threads).deep_view() == old(pending_threads).deep_view().filter(
                not_listed(ids_of(old(sessions).deep_view())),
            ),
            old(pending_threads).deep_view().no_duplicates()
                ==> final(pending_threads).deep_view().no_duplicates(),
    {
        let ghost start = sessions.deep_view();
        let ghost prev = previous_sessions.deep_view();
        let ghost pending = pending_threads.deep_view();
        let mut listed: Vec<String> = Vec::new();
        let mut i: usize = 0;
        while i < sessions.len()
            invariant
                start == sessions.deep_view(),
                i <= start.len(),
                listed.deep_view() == ids_of(start).take(i as int),
            decreases start.len() - i,
        {
            let ghost before = listed.deep_view();
            listed.push(sessions[i].id.clone());
            assert(start[i as int].id == sessions@[i as int].id@);
            assert(listed.deep_view() =~= before.push(start[i as int].id));
            assert(ids_of(start).take(i + 1) =~= ids_of(start).take(i as int).push(start[i as int].id));
            i = i + 1;
        }
        assert(ids_of(start).take(start.len() as int) =~= ids_of(start));
        let ghost waiting = awaiting_listing(pending, ids_of(start));
        let mut j: usize = 0;
        proof {
            reveal(Seq::filter);
            assert(prev.take(0) =~= Seq::<SessionView>::empty());
            assert(sessions.deep_view() =~= start + prev.take(0).filter(waiting));
        }
        while j < previous_sessions.len()
            invariant
                prev == previous_sessions.deep_view(),
                pending == pending_threads.deep_view(),
                listed.deep_view() == ids_of(start),
                waiting == awaiting_listing(pending, ids_of(start)),
                j <= prev.len(),
                sessions.deep_view() == start + prev.take(j as int).filter(waiting),
            decreases prev.len() - j,
        {
            proof {
                assert(prev.take(j + 1) =~= prev.take(j as int).push(prev[j as int]));
                prev.take(j as int).lemma_filter_push(prev[j as int], waiting);
            }
            let id = previous_sessions[j].id.as_str();
            if contains_text(pending_threads, id) && !contains_text(&listed, id) {
                let ghost before = sessions.deep_view();
                let x = previous_sessions[j].duplicate();
                sessions.push(x);
                assert(sessions.deep_view() =~= before.push(prev[j as int]));
            }
            j = j + 1;
        }
        assert(prev.take(prev.len() as int) =~= prev);
        let ghost keep = not_listed(ids_of(start));
        let mut kept: Vec<String> = Vec::new();
        let mut k: usize = 0;
        proof {
            reveal(Seq::filter);
            assert(pending.take(0) =~= Seq::<Seq<char>>::empty());
            assert(kept.deep_view() =~= Seq::<Seq<char>>::empty());
        }
        while k < pending_threads.len()
            invariant
                pending == pending_threads.deep_view(),
                listed.deep_view() == ids_of(start),
                keep == not_listed(ids_of(start)),
                k <= pending.len(),
                kept.deep_view() == pending.take(k as int).filter(keep),
            decreases pending.len() - k,
        {
            proof {
                assert(pending.take(k + 1) =~= pending.take(k as int).push(pending[k as int]));
                pending.take(k as int).lemma_filter_push(pending[k as int], keep);
            }
            if !contains_text(&listed, pending_threads[k].as_str()) {
                let ghost before = kept.deep_view();
                kept.push(pending_threads[k].clone());
                assert(kept.deep_view() =~= before.push(pending[k as int]));
            }
            k = k + 1;
        }
        assert(pending.take(pending.len() as int) =~= pending);
        proof {
            if pending.no_duplicates() {
                lemma_filter_no_duplicates(pending, keep);
            }
        }
        *pending_threads = kept;
    }
}


/// The sessions that a listing of `threads` shows after an earlier listing
/// `previous`: each keeps the history loaded for it before.
pub open spec fn listed_sessions(threads: Seq<JsonView>, previous: Seq<SessionView>) -> Seq<
    SessionView,
> {
    keep_loaded_history(sessions_of(threads), previous)
}

/// The sessions that a listing of `threads` shows, before they are ordered:
/// the listed ones, then the pending ones of `previous` that the listing lacks.
pub open spec fn shown_sessions(
    threads: Seq<JsonView>,
    previous: Seq<SessionView>,
    pending: Seq<Seq<char>>,
) -> Seq<SessionView> {
    let listed = listed_sessions(threads, previous);
    listed + previous.filter(awaiting_listing(pending, ids_of(listed)))
}

/// The threads still pending after a listing of `threads`.
pub open spec fn pending_after(
    threads: Seq<JsonView>,
    previous: Seq<SessionView>,
    pending: Seq<Seq<char>>,
) -> Seq<Seq<char>> {
    pending.filter(not_listed(ids_of(listed_sessions(threads, previous))))
}

/// A thread that was pending and had a session on the dashboard still has
/// one after a new listing: the listing holds it, or the earlier session is
/// kept; and it stays pending exactly while the listing lacks it.
pub proof fn lemma_pending_threads_stay_shown(
    threads: Seq<JsonView>,
    previous: Seq<SessionView>,
    pending: Seq<Seq<char>>,
    t: Seq<char>,
)
    requires
        pending.contains(t),
        ids_of(previous).contains(t),
    ensures
        ids_of(shown_sessions(threads, previous, pending)).contains(t),
        pending_after(threads, previous, pending).contains(t) <==> !ids_of(
            listed_sessions(threads, previous),
        ).contains(t),
{
    let listed = listed_sessions(threads, previous);
    let pred = awaiting_listing(pending, ids_of(listed));
    let all = shown_sessions(threads, previous, pending);
    let kept = previous.filter(pred);
    if ids_of(listed).contains(t) {
        let k = choose|k: int| 0 <= k < ids_of(listed).len() && ids_of(listed)[k] == t;
        assert(all[k] == listed[k]);
        assert(ids_of(all)[k] == t);
    } else {
        let k = choose|k: int| 0 <= k < ids_of(previous).len() && ids_of(previous)[k] == t;
        assert(pred(previous[k]));
        previous.lemma_filter_contains(pred, k);
        let m = choose|m: int| 0 <= m < kept.len() && kept[m] == previous[k];
        assert(all[listed.len() + m] == kept[m]);
        assert(ids_of(all)[listed.len() + m] == t);
    }
    let keep = not_listed(ids_of(listed));
    if keep(t) {
        let k = choose|k: int| 0 <= k < pending.len() && pending[k] == t;
        pending.lemma_filter_contains(keep, k);
    } else {
        if pending.filter(keep).contains(t) {
            let m = choose|m: int| 0 <= m < pending.filter(keep).len() && pending.filter(keep)[m] == t;
            pending.lemma_filter_pred(keep, m);
        }
    }
}

impl AppServer {
    /// Shows the sessions of `threads`, which the server listed: each keeps
    /// the history loaded for it before, pending threads that the listing
    /// lacks stay, and the list is ordered newest first. The dashboard is
    /// then connected; gives the snapshot.
    pub fn install_sessions(&mut self, threads: &Vec<Json>) -> (r: DashboardSnapshot)
        requires
            old(self).wf(),
            threads_in_range(views(threads@)),
        ensures
            final(self).wf(),
            sorted_by_recency(
                shown_sessions(
                    views(threads@),
                    old(self).snapshot.deep_view().sessions,
                    old(self).pending_threads.deep_view(),
                ),
                final(self).snapshot.deep_view().sessions,
            ),
            final(self).pending_threads.deep_view() == pending_after(
                views(threads@),
                old(self).snapshot.deep_view().sessions,
                old(self).pending_threads.deep_view(),
            ),
            final(self).snapshot.connected,
            final(self).snapshot.archived_sessions == old(self).snapshot.archived_sessions,
            final(self).snapshot.approvals == old(self).snapshot.approvals,
            final(self).snapshot.account == old(self).snapshot.account,
            final(self).next_id == old(self).next_id,
            final(self).connection_generation == old(self).connection_generation,
            final(self).diagnostics == old(self).diagnostics,
            r.deep_view() == final(self).snapshot.deep_view(),
    {
        let mut sessions = sessions_from_threads(threads);
        AppServer::preserve_loaded_history(self.snapshot.sessions.as_slice(), &mut sessions);
        AppServer::preserve_pending_sessions(
            self.snapshot.sessions.as_slice(),
            &mut sessions,
            &mut self.pending_threads,
        );
        self.snapshot.sessions = sort_by_recency(&sessions);
        self.snapshot.connected = true;
        self.snapshot.duplicate()
    }

    /// Shows the archived sessions of `threads`, newest first; each keeps
    /// the history loaded for it before. Gives the archived sessions.
    pub fn install_archived_sessions(&mut self, threads: &Vec<Json>) -> (r: Vec<Session>)
        requires
            threads_in_range(views(threads@)),
        ensures
            sorted_by_recency(
                listed_sessions(views(threads@), old(self).snapshot.deep_view().archived_sessions),
                final(self).snapshot.deep_view().archived_sessions,
            ),
            r.deep_view() == final(self).snapshot.deep_view().archived_sessions,
            final(self).snapshot.sessions == old(self).snapshot.sessions,
            final(self).snapshot.approvals == old(self).snapshot.approvals,
            final(self).snapshot.account == old(self).snapshot.account,
            final(self).snapshot.connected == old(self).snapshot.connected,
            final(self).next_id == old(self).next_id,
            final(self).connection_generation == old(self).connection_generation,
            final(self).diagnostics == old(self).diagnostics,
            final(self).pending_threads == old(self).pending_threads,
    {
        let mut sessions = sessions_from_threads(threads);
        AppServer::preserve_loaded_history(self.snapshot.archived_sessions.as_slice(), &mut sessions);
        self.snapshot.archived_sessions = sort_by_recency(&sessions);
        self.snapshot.archived_sessions.duplicate()
    }
}


/// The title derived from a first prompt: its first non-blank line, trimmed
/// and cut to 80 characters; `"New session"` for a blank prompt.
pub open spec fn prompt_title(prompt: Seq<char>) -> Seq<char> {
    match spec_first_nonblank_line(prompt) {
        Some(t) => spec_take_chars(t, 80),
        None => "New session"@,
    }
}

/// The title derived from the first prompt `prompt`.
pub fn title_from_prompt(prompt: &str) -> (r: String)
    ensures
        r@ == prompt_title(prompt@),
{
    match first_nonblank_line(prompt) {
        Some(line) => take_chars(line, 80),
        None => "New session".to_owned(),
    }
}

/// The id of the thread that a `thread/start` answer reports.
pub open spec fn started_thread_id(response: JsonView) -> Option<Seq<char>> {
    opt_str(opt_get(response.get("thread"@), "id"@))
}

/// The id of the thread that the `thread/start` answer `response` reports.
pub fn thread_id_of_started(response: &Json) -> (r: Result<String, AppServerError>)
    ensures
        match started_thread_id(response@) {
            Some(id) => r matches Ok(s) && s@ == id,
            None => r matches Err(e) && e is Rpc && e.text() == "thread/start returned no thread id"@,
        },
{
    match crate::json::str_of(crate::json::member_of(response.get("thread"), "id")) {
        Some(id) => Ok(id.to_owned()),
        None => Err(AppServerError::rpc("thread/start returned no thread id")),
    }
}

/// The session shown for a thread started with the first prompt `prompt`:
/// a missing title comes from the prompt; with a prompt the session is
/// working, without one it has no history to load.
pub open spec fn started_session(response: JsonView, thread: JsonView, prompt: Seq<char>) -> SessionView {
    let s = session_of(thread);
    let blank = trimmed(prompt).len() == 0;
    SessionView {
        id: s.id,
        title: if trimmed(s.title).len() == 0 || s.title == "Untitled session"@ {
            prompt_title(prompt)
        } else {
            s.title
        },
        cwd: s.cwd,
        status: if blank {
            s.status
        } else {
            "working"@
        },
        updated_at: s.updated_at,
        model: str_or(opt_str(response.get("model"@)), "Codex"@),
        active_turn_id: s.active_turn_id,
        messages: s.messages,
        token_usage: s.token_usage,
        history_loaded: blank,
    }
}

/// `pending` with `id` added, unless it holds it already.
pub open spec fn with_pending(pending: Seq<Seq<char>>, id: Seq<char>) -> Seq<Seq<char>> {
    if pending.contains(id) {
        pending
    } else {
        pending.push(id)
    }
}

/// `s` with the title `title`.
pub open spec fn retitled(s: SessionView, title: Seq<char>) -> SessionView {
    SessionView {
        id: s.id,
        title,
        cwd: s.cwd,
        status: s.status,
        updated_at: s.updated_at,
        model: s.model,
        active_turn_id: s.active_turn_id,
        messages: s.messages,
        token_usage: s.token_usage,
        history_loaded: s.history_loaded,
    }
}

/// The session restored from the archive: the server's view of the thread,
/// with the model and the history that the archived session `previous` had.
pub open spec fn restored_session(s: SessionView, previous: Option<SessionView>) -> SessionView {
    match previous {
        Some(p) => SessionView {
            id: s.id,
            title: s.title,
            cwd: s.cwd,
            status: s.status,
            updated_at: s.updated_at,
            model: p.model,
            active_turn_id: s.active_turn_id,
            messages: p.messages,
            token_usage: p.token_usage,
            history_loaded: p.history_loaded,
        },
        None => s,
    }
}

/// The text of the error for a session that is not on the dashboard.
pub open spec fn not_found_text(id: Seq<char>) -> Seq<char> {
    "Session "@ + id + " was not found"@
}

/// The error for the session `thread_id` that is not on the dashboard.
pub fn session_not_found(thread_id: &str) -> (r: AppServerError)
    ensures
        r is Rpc,
        r.text() == not_found_text(thread_id@),
{
    let mut t = "Session ".to_owned();
    t.append(thread_id);
    t.append(" was not found");
    AppServerError::Rpc(t)
}

/// Thread ids other than `id`.
pub open spec fn text_is_not(id: Seq<char>) -> spec_fn(Seq<char>) -> bool {
    |t: Seq<char>| t != id
}

/// The texts of `texts` other than `text`, in order.
pub fn texts_without(texts: &Vec<String>, text: &str) -> (r: Vec<String>)
    ensures
        r.deep_view() == texts.deep_view().filter(text_is_not(text@)),
{
    let ghost s = texts.deep_view();
    let mut r: Vec<String> = Vec::new();
    let mut i: usize = 0;
    proof {
        reveal(Seq::filter);
        assert(s.take(0) =~= Seq::<Seq<char>>::empty());
        assert(r.deep_view() =~= Seq::<Seq<char>>::empty());
    }
    while i < texts.len()
        invariant
            s == texts.deep_view(),
            i <= s.len(),
            r.deep_view() == s.take(i as int).filter(text_is_not(text@)),
        decreases s.len() - i,
    {
        proof {
            assert(s.take(i + 1) =~= s.take(i as int).push(s[i as int]));
            s.take(i as int).lemma_filter_push(s[i as int], text_is_not(text@));
        }
        if !str_eq(texts[i].as_str(), text) {
            let ghost before = r.deep_view();
            r.push(texts[i].clone());
            assert(r.deep_view() =~= before.push(s[i as int]));
        }
        i = i + 1;
    }
    assert(s.take(s.len() as int) =~= s);
    r
}

impl AppServer {
    /// Shows the thread `thread_id` that the `thread/start` answer `response`
    /// describes first on the dashboard, in place of any earlier session of
    /// that id; a thread started without a prompt becomes pending.
    pub fn add_started_session(&mut self, thread_id: &str, response: &Json, prompt: &str) -> (r:
        Result<Session, AppServerError>)
        requires
            old(self).wf(),
            response@.get("thread"@) matches Some(t) ==> millis_fit(updated_at_seconds(t)),
        ensures
            final(self).wf(),
            match response@.get("thread"@) {
                None => r matches Err(e) && e is Rpc && e.text() == "thread/start returned no thread"@
                    && final(self).snapshot == old(self).snapshot && final(self).pending_threads
                    == old(self).pending_threads,
                Some(t) => r matches Ok(s) && s.deep_view() == started_session(response@, t, prompt@)
                    && final(self).snapshot.deep_view().sessions == seq![s.deep_view()] + old(
                    self,
                ).snapshot.deep_view().sessions.filter(id_is_not(thread_id@))
                    && final(self).pending_threads.deep_view() == if trimmed(prompt@).len() == 0 {
                    with_pending(old(self).pending_threads.deep_view(), thread_id@)
                } else {
                    old(self).pending_threads.deep_view()
                },
            },
            final(self).snapshot.archived_sessions == old(self).snapshot.archived_sessions,
            final(self).snapshot.approvals == old(self).snapshot.approvals,
            final(self).snapshot.account == old(self).snapshot.account,
            final(self).snapshot.connected == old(self).snapshot.connected,
            final(self).next_id == old(self).next_id,
            final(self).connection_generation == old(self).connection_generation,
            final(self).diagnostics == old(self).diagnostics,
    {
        let thread = match response.get("thread") {
            Some(t) => t,
            None => {
                return Err(AppServerError::rpc("thread/start returned no thread"));
            },
        };
        let mut session = session_from_thread(thread);
        session.model = string_or(response.get("model"), "Codex");
        if is_blank(session.title.as_str()) || str_eq(session.title.as_str(), "Untitled session") {
            session.title = title_from_prompt(prompt);
        }
        if !is_blank(prompt) {
            session.status = "working".to_owned();
        } else {
            session.history_loaded = true;
            if !contains_text(&self.pending_threads, thread_id) {
                let ghost before = self.pending_threads.deep_view();
                self.pending_threads.push(thread_id.to_owned());
                proof {
                    assert(self.pending_threads.deep_view() =~= before.push(thread_id@));
                    assert forall|i: int, j: int|
                        0 <= i < self.pending_threads.deep_view().len() && 0 <= j
                            < self.pending_threads.deep_view().len() && i != j implies self.pending_threads.deep_view()[i]
                        != self.pending_threads.deep_view()[j] by {
                        if i < before.len() && j < before.len() {
                        } else if i == before.len() {
                            assert(before.contains(before[j]));
                        } else {
                            assert(before.contains(before[i]));
                        }
                    }
                }
            }
        }
        let mut sessions = sessions_without(&self.snapshot.sessions, thread_id);
        let ghost rest = sessions.deep_view();
        let shown = session.duplicate();
        sessions.insert(0, shown);
        assert(sessions.deep_view() =~= seq![session.deep_view()] + rest);
        self.snapshot.sessions = sessions;
        Ok(session)
    }

    /// Gives the session `thread_id` the title `name`.
    pub fn rename_session(&mut self, thread_id: &str, name: &str) -> (r: Result<
        Session,
        AppServerError,
    >)
        ensures
            match index_of_id(old(self).snapshot.deep_view().sessions, thread_id@) {
                Some(i) => r matches Ok(s) && s.deep_view() == retitled(
                    old(self).snapshot.deep_view().sessions[i],
                    name@,
                ) && final(self).snapshot.deep_view().sessions == old(
                    self,
                ).snapshot.deep_view().sessions.update(i, s.deep_view()),
                None => r matches Err(e) && e is Rpc && e.text() == not_found_text(thread_id@)
                    && final(self).snapshot.sessions == old(self).snapshot.sessions,
            },
            final(self).snapshot.archived_sessions == old(self).snapshot.archived_sessions,
            final(self).snapshot.approvals == old(self).snapshot.approvals,
            final(self).snapshot.account == old(self).snapshot.account,
            final(self).snapshot.connected == old(self).snapshot.connected,
            final(self).next_id == old(self).next_id,
            final(self).connection_generation == old(self).connection_generation,
            final(self).diagnostics == old(self).diagnostics,
            final(self).pending_threads == old(self).pending_threads,
    {
        match position_of(self.snapshot.sessions.as_slice(), thread_id) {
            Some(i) => {
                let ghost before = self.snapshot.sessions.deep_view();
                let mut s = self.snapshot.sessions[i].duplicate();
                s.title = name.to_owned();
                let shown = s.duplicate();
                self.snapshot.sessions.set(i, s);
                assert(self.snapshot.sessions.deep_view() =~= before.update(
                    i as int,
                    shown.deep_view(),
                ));
                Ok(shown)
            },
            None => Err(session_not_found(thread_id)),
        }
    }

    /// Moves the session `thread_id` to the front of the archive, drops the
    /// approvals it asked for, and ends its being pending.
    pub fn archive_session(&mut self, thread_id: &str)
        requires
            old(self).wf(),
        ensures
            final(self).wf(),
            final(self).pending_threads.deep_view() == old(self).pending_threads.deep_view().filter(
                text_is_not(thread_id@),
            ),
            match index_of_id(old(self).snapshot.deep_view().sessions, thread_id@) {
                Some(i) => final(self).snapshot.deep_view().sessions == old(
                    self,
                ).snapshot.deep_view().sessions.remove(i)
                    && final(self).snapshot.deep_view().archived_sessions == seq![
                    old(self).snapshot.deep_view().sessions[i],
                ] + old(self).snapshot.deep_view().archived_sessions.filter(id_is_not(thread_id@)),
                None => final(self).snapshot.sessions == old(self).snapshot.sessions
                    && final(self).snapshot.archived_sessions == old(
                    self,
                ).snapshot.archived_sessions,
            },
            final(self).snapshot.deep_view().approvals == old(
                self,
            ).snapshot.deep_view().approvals.filter(thread_is_not(thread_id@)),
            final(self).snapshot.account == old(self).snapshot.account,
            final(self).snapshot.connected == old(self).snapshot.connected,
            final(self).next_id == old(self).next_id,
            final(self).connection_generation == old(self).connection_generation,
            final(self).diagnostics == old(self).diagnostics,
    {
        let kept = texts_without(&self.pending_threads, thread_id);
        proof {
            lemma_filter_no_duplicates(self.pending_threads.deep_view(), text_is_not(thread_id@));
        }
        self.pending_threads = kept;
        match position_of(self.snapshot.sessions.as_slice(), thread_id) {
            Some(i) => {
                let ghost before = self.snapshot.sessions.deep_view();
                let session = self.snapshot.sessions.remove(i);
                assert(self.snapshot.sessions.deep_view() =~= before.remove(i as int));
                let mut archived = sessions_without(&self.snapshot.archived_sessions, thread_id);
                let ghost rest = archived.deep_view();
                let ghost sv = session.deep_view();
                archived.insert(0, session);
                assert(archived.deep_view() =~= seq![sv] + rest);
                self.snapshot.archived_sessions = archived;
            },
            None => {},
        }
        self.snapshot.remove_approvals_for_thread(thread_id);
    }

    /// Brings the session `thread_id` back from the archive to the front of
    /// the list, as the `thread/unarchive` answer `response` describes it,
    /// with the model and the history that the archive held.
    pub fn restore_session(&mut self, thread_id: &str, response: &Json) -> (r: Result<
        Session,
        AppServerError,
    >)
        requires
            response@.get("thread"@) matches Some(t) ==> millis_fit(updated_at_seconds(t)),
        ensures
            match response@.get("thread"@) {
                None => r matches Err(e) && e is Rpc && e.text()
                    == "thread/unarchive returned no thread"@ && final(self).snapshot == old(
                    self,
                ).snapshot,
                Some(t) => r matches Ok(s) && s.deep_view() == restored_session(
                    session_of(t),
                    match index_of_id(old(self).snapshot.deep_view().archived_sessions, thread_id@) {
                        Some(i) => Some(old(self).snapshot.deep_view().archived_sessions[i]),
                        None => None,
                    },
                ) && final(self).snapshot.deep_view().archived_sessions == old(
                    self,
                ).snapshot.deep_view().archived_sessions.filter(id_is_not(thread_id@))
                    && final(self).snapshot.deep_view().sessions == seq![s.deep_view()] + old(
                    self,
                ).snapshot.deep_view().sessions.filter(id_is_not(thread_id@)),
            },
            final(self).snapshot.approvals == old(self).snapshot.approvals,
            final(self).snapshot.account == old(self).snapshot.account,
            final(self).snapshot.connected == old(self).snapshot.connected,
            final(self).next_id == old(self).next_id,
            final(self).connection_generation == old(self).connection_generation,
            final(self).diagnostics == old(self).diagnostics,
            final(self).pending_threads == old(self).pending_threads,
    {
        let thread = match response.get("thread") {
            Some(t) => t,
            None => {
                return Err(AppServerError::rpc("thread/unarchive returned no thread"));
            },
        };
        let mut restored = session_from_thread(thread);
        match position_of(self.snapshot.archived_sessions.as_slice(), thread_id) {
            Some(i) => {
                let previous = &self.snapshot.archived_sessions[i];
                restored.model = previous.model.duplicate();
                restored.messages = previous.messages.duplicate();
                restored.token_usage = previous.token_usage;
                restored.history_loaded = previous.history_loaded;
            },
            None => {},
        }
        self.snapshot.archived_sessions = sessions_without(
            &self.snapshot.archived_sessions,
            thread_id,
        );
        let mut sessions = sessions_without(&self.snapshot.sessions, thread_id);
        let ghost rest = sessions.deep_view();
        let shown = restored.duplicate();
        sessions.insert(0, shown);
        assert(sessions.deep_view() =~= seq![restored.deep_view()] + rest);
        self.snapshot.sessions = sessions;
        Ok(restored)
    }

    /// The session `thread_id` whose history is asked for: the listed one,
    /// else the archived one.
    pub fn session_for_history(&self, thread_id: &str) -> (r: Result<Session, AppServerError>)
        ensures
            match index_of_id(self.snapshot.deep_view().sessions, thread_id@) {
                Some(i) => r matches Ok(s) && s.deep_view() == self.snapshot.deep_view().sessions[i],
                None => match index_of_id(self.snapshot.deep_view().archived_sessions, thread_id@) {
                    Some(i) => r matches Ok(s) && s.deep_view()
                        == self.snapshot.deep_view().archived_sessions[i],
                    None => r matches Err(e) && e is Rpc && e.text() == not_found_text(thread_id@),
                },
            },
    {
        match position_of(self.snapshot.sessions.as_slice(), thread_id) {
            Some(i) => Ok(self.snapshot.sessions[i].duplicate()),
            None => match position_of(self.snapshot.archived_sessions.as_slice(), thread_id) {
                Some(i) => Ok(self.snapshot.archived_sessions[i].duplicate()),
                None => Err(session_not_found(thread_id)),
            },
        }
    }

    /// The listed session `thread_id`.
    pub fn listed_session(&self, thread_id: &str) -> (r: Result<Session, AppServerError>)
        ensures
            match index_of_id(self.snapshot.deep_view().sessions, thread_id@) {
                Some(i) => r matches Ok(s) && s.deep_view() == self.snapshot.deep_view().sessions[i],
                None => r matches Err(e) && e is Rpc && e.text() == not_found_text(thread_id@),
            },
    {
        match position_of(self.snapshot.sessions.as_slice(), thread_id) {
            Some(i) => Ok(self.snapshot.sessions[i].duplicate()),
            None => Err(session_not_found(thread_id)),
        }
    }
}

} // verus!
