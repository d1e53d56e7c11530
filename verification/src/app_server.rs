//! The state that the dashboard keeps about its App Server connection:
//! request ids, the connection generation, recent diagnostics, threads that
//! the server does not list yet, and the dashboard snapshot.
use crate::json::Json;
use crate::models::{account_of, parse_account, reset_in_range, Account, DashboardSnapshot, signed_out_view};
use crate::dup::Duplicate;
use crate::rpc::{disconnected_text, request_view, AppServerError};
use crate::text::{trim, trimmed};
use std::collections::VecDeque;
use vstd::prelude::*;

verus! {

/// How many diagnostic lines are kept.
pub const MAX_DIAGNOSTICS: usize = 12;

/// The dashboard's side of the connection to the App Server.
pub struct AppServer {
    /// The id that the next request gets.
    pub next_id: u64,
    /// Counts the connections made; a connection's reader acts only while its
    /// generation is the current one.
    pub connection_generation: u64,
    /// The most recent diagnostic lines, oldest first.
    pub diagnostics: VecDeque<String>,
    /// Threads started without a first message, which the server does not
    /// list until one is sent.
    pub pending_threads: Vec<String>,
    /// What the dashboard shows.
    pub snapshot: DashboardSnapshot,
}

/// The id after `id`; ids wrap around.
pub open spec fn id_after(id: u64) -> u64 {
    if id == u64::MAX {
        0
    } else {
        (id + 1) as u64
    }
}

/// The diagnostic line for `line` from `source`; none for a blank line.
pub open spec fn diagnostic_entry(source: Seq<char>, line: Seq<char>) -> Option<Seq<char>> {
    let t = trimmed(line);
    if t.len() == 0 {
        None
    } else {
        Some(source + ": "@ + t)
    }
}

/// The diagnostics `d` after `entry` is recorded: the oldest goes when the
/// limit is reached.
pub open spec fn with_entry(d: Seq<Seq<char>>, entry: Seq<char>) -> Seq<Seq<char>> {
    if d.len() >= MAX_DIAGNOSTICS {
        d.drop_first().push(entry)
    } else {
        d.push(entry)
    }
}

/// The texts `d` joined by `sep`.
pub open spec fn joined(d: Seq<Seq<char>>, sep: Seq<char>) -> Seq<char>
    decreases d.len(),
{
    if d.len() == 0 {
        Seq::empty()
    } else if d.len() == 1 {
        d[0]
    } else {
        joined(d.drop_last(), sep) + sep + d.last()
    }
}

impl AppServer {
    /// The diagnostics as texts, oldest first.
    pub open spec fn diagnostic_lines(&self) -> Seq<Seq<char>> {
        self.diagnostics@.map_values(|s: String| s@)
    }

    /// At most `MAX_DIAGNOSTICS` diagnostics are kept, and no thread is
    /// pending twice.
    pub open spec fn wf(&self) -> bool {
        &&& self.diagnostics@.len() <= MAX_DIAGNOSTICS
        &&& self.pending_threads.deep_view().no_duplicates()
    }

    /// The state before any connection: the first request gets id 1.
    pub fn new() -> (r: AppServer)
        ensures
            r.wf(),
            r.next_id == 1,
            r.connection_generation == 0,
            r.diagnostics@.len() == 0,
            r.pending_threads@.len() == 0,
            r.snapshot.deep_view().sessions.len() == 0,
            r.snapshot.deep_view().archived_sessions.len() == 0,
            r.snapshot.deep_view().approvals.len() == 0,
            r.snapshot.deep_view().account == signed_out_view(),
            !r.snapshot.connected,
    {
        let r = AppServer {
            next_id: 1,
            connection_generation: 0,
            diagnostics: VecDeque::new(),
            pending_threads: Vec::new(),
            snapshot: DashboardSnapshot::empty(),
        };
        assert(r.pending_threads.deep_view() =~= Seq::<Seq<char>>::empty());
        r
    }

    /// Takes the next request id and writes the request `method` with it.
    pub fn next_request(&mut self, method: &str, params: Json) -> (r: (u64, Json))
        ensures
            r.0 == old(self).next_id,
            final(self).next_id == id_after(old(self).next_id),
            r.1@ == request_view(r.0, method@, params@),
            final(self).connection_generation == old(self).connection_generation,
            final(self).diagnostics@ == old(self).diagnostics@,
            final(self).pending_threads@ == old(self).pending_threads@,
            final(self).snapshot == old(self).snapshot,
    {
        let id = self.next_id;
        self.next_id = self.next_id.wrapping_add(1);
        (id, crate::rpc::request_message(id, method, params))
    }

    /// Starts a new connection: its generation becomes the current one, and
    /// the diagnostics of the previous connection are dropped.
    pub fn begin_connection(&mut self) -> (generation: u64)
        requires
            old(self).wf(),
            old(self).connection_generation < u64::MAX,
        ensures
            final(self).wf(),
            generation == old(self).connection_generation + 1,
            final(self).connection_generation == generation,
            final(self).diagnostics@.len() == 0,
            final(self).next_id == old(self).next_id,
            final(self).pending_threads@ == old(self).pending_threads@,
            final(self).snapshot == old(self).snapshot,
    {
        self.connection_generation = self.connection_generation + 1;
        self.diagnostics.clear();
        self.connection_generation
    }

    /// Whether `generation` is the current connection.
    pub fn is_current_connection(&self, generation: u64) -> (r: bool)
        ensures
            r == (generation == self.connection_generation),
    {
        self.connection_generation == generation
    }

    /// Drops the diagnostics.
    pub fn clear_diagnostics(&mut self)
        requires
            old(self).wf(),
        ensures
            final(self).wf(),
            final(self).diagnostics@.len() == 0,
            final(self).next_id == old(self).next_id,
            final(self).connection_generation == old(self).connection_generation,
            final(self).pending_threads@ == old(self).pending_threads@,
            final(self).snapshot == old(self).snapshot,
    {
        self.diagnostics.clear();
    }

    /// Records the line `line` that `source` reported, unless it is blank;
    /// returns the entry recorded.
    pub fn record_diagnostic(&mut self, source: &str, line: &str) -> (r: Option<String>)
        requires
            old(self).wf(),
        ensures
            final(self).wf(),
            r.deep_view() == diagnostic_entry(source@, line@),
            final(self).diagnostic_lines() == match diagnostic_entry(source@, line@) {
                Some(e) => with_entry(old(self).diagnostic_lines(), e),
                None => old(self).diagnostic_lines(),
            },
            final(self).next_id == old(self).next_id,
            final(self).connection_generation == old(self).connection_generation,
            final(self).pending_threads@ == old(self).pending_threads@,
            final(self).snapshot == old(self).snapshot,
    {
        let line = trim(line);
        if line.unicode_len() == 0 {
            return None;
        }
        let mut entry = source.to_owned();
        entry.append(": ");
        entry.append(line);
        let ghost before = self.diagnostic_lines();
        if self.diagnostics.len() >= MAX_DIAGNOSTICS {
            let _ = self.diagnostics.pop_front();
        }
        let copy = entry.clone();
        self.diagnostics.push_back(entry);
        proof {
            if before.len() >= MAX_DIAGNOSTICS {
                assert(self.diagnostic_lines() =~= before.drop_first().push(copy@));
            } else {
                assert(self.diagnostic_lines() =~= before.push(copy@));
            }
        }
        Some(copy)
    }

    /// The diagnostics joined by `"; "`, oldest first.
    pub fn diagnostic_details(&self) -> (r: String)
        ensures
            r@ == joined(self.diagnostic_lines(), "; "@),
    {
        let ghost d = self.diagnostic_lines();
        let mut r = String::new();
        let mut i: usize = 0;
        let n = self.diagnostics.len();
        assert(d.take(0) =~= Seq::<Seq<char>>::empty());
        while i < n
            invariant
                d == self.diagnostic_lines(),
                n == d.len(),
                i <= n,
                r@ == joined(d.take(i as int), "; "@),
            decreases n - i,
        {
            assert(d.take(i + 1).drop_last() =~= d.take(i as int));
            if i > 0 {
                r.append("; ");
            }
            r.append(self.diagnostics[i].as_str());
            proof {
                if i == 0 {
                    assert(r@ =~= d.take(1)[0]);
                }
            }
            i = i + 1;
        }
        assert(d.take(n as int) =~= d);
        r
    }

    /// The error for a request that found the server gone, with what the
    /// server last reported.
    pub fn disconnected_error(&self) -> (r: AppServerError)
        ensures
            r is Disconnected,
            r.text() == disconnected_text(joined(self.diagnostic_lines(), "; "@)),
    {
        let details = self.diagnostic_details();
        AppServerError::disconnected_with_details(details.as_str())
    }

    /// The error for a request whose message could not be written: a broken
    /// pipe means the server is gone; any other failure is an I/O error with
    /// the text `io_text`.
    pub fn write_error(&self, broken_pipe: bool, io_text: &str) -> (r: AppServerError)
        ensures
            broken_pipe ==> r is Disconnected && r.text() == disconnected_text(
                joined(self.diagnostic_lines(), "; "@),
            ),
            !broken_pipe ==> r is Io && r.text() == io_text@,
    {
        if broken_pipe {
            self.disconnected_error()
        } else {
            AppServerError::Io(io_text.to_owned())
        }
    }

    /// The server's output ended: the dashboard is no longer connected. Gives
    /// the error with which the requests still waiting are answered.
    pub fn mark_disconnected(&mut self) -> (r: AppServerError)
        ensures
            !final(self).snapshot.connected,
            r is Disconnected,
            r.text() == disconnected_text(joined(old(self).diagnostic_lines(), "; "@)),
            final(self).snapshot.sessions == old(self).snapshot.sessions,
            final(self).snapshot.archived_sessions == old(self).snapshot.archived_sessions,
            final(self).snapshot.approvals == old(self).snapshot.approvals,
            final(self).snapshot.account == old(self).snapshot.account,
            final(self).next_id == old(self).next_id,
            final(self).connection_generation == old(self).connection_generation,
            final(self).diagnostics == old(self).diagnostics,
            final(self).pending_threads == old(self).pending_threads,
    {
        self.snapshot.connected = false;
        self.disconnected_error()
    }

    /// Shows the account that the answers to `account/read` and
    /// `account/rateLimits/read` describe; gives it.
    pub fn record_account(&mut self, account_result: &Json, rate_result: &Json) -> (r: Account)
        requires
            reset_in_range(rate_result@),
        ensures
            r.deep_view() == account_of(account_result@, rate_result@),
            final(self).snapshot.deep_view().account == r.deep_view(),
            final(self).snapshot.sessions == old(self).snapshot.sessions,
            final(self).snapshot.archived_sessions == old(self).snapshot.archived_sessions,
            final(self).snapshot.approvals == old(self).snapshot.approvals,
            final(self).snapshot.connected == old(self).snapshot.connected,
            final(self).next_id == old(self).next_id,
            final(self).connection_generation == old(self).connection_generation,
            final(self).diagnostics == old(self).diagnostics,
            final(self).pending_threads == old(self).pending_threads,
    {
        let account = parse_account(account_result, rate_result);
        self.snapshot.account = account.duplicate();
        account
    }
}

} // verus!
