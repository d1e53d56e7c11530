//! What a notification of the server changes, and which notifications call
//! for the dashboard to be read anew.
use crate::app_server::AppServer;
use crate::approvals::request_is_not;
use crate::dup::Duplicate;
use crate::json::{Json, JsonView};
use crate::text::str_eq;
use vstd::prelude::*;

verus! {

/// The notifications after which the dashboard reads sessions and account anew.
pub open spec fn refreshing_method(method: Seq<char>) -> bool {
    ||| method == "thread/started"@
    ||| method == "thread/archived"@
    ||| method == "thread/deleted"@
    ||| method == "thread/unarchived"@
    ||| method == "thread/status/changed"@
    ||| method == "thread/name/updated"@
    ||| method == "thread/tokenUsage/updated"@
    ||| method == "turn/started"@
    ||| method == "turn/completed"@
    ||| method == "item/completed"@
    ||| method == "account/updated"@
    ||| method == "account/rateLimits/updated"@
    ||| method == "account/login/completed"@
}

/// The request that the notification `method` with the parameters `params`
/// reports as resolved, if it is such a notification.
pub open spec fn resolved_request(method: Seq<char>, params: JsonView) -> Option<JsonView> {
    if method == "serverRequest/resolved"@ {
        params.get("requestId"@)
    } else {
        None
    }
}

/// What a notification changed.
#[derive(Debug)]
pub struct NotificationEffect {
    /// The request whose approval was resolved elsewhere and dropped.
    pub resolved_request: Option<Json>,
    /// Whether the dashboard should read sessions and account anew.
    pub refresh: bool,
}

impl AppServer {
    /// Whether the notification `method` calls for reading the dashboard anew.
    pub fn notification_requires_refresh(method: &str) -> (r: bool)
        ensures
            r == refreshing_method(method@),
    {
        str_eq(method, "thread/started") || str_eq(method, "thread/archived") || str_eq(
            method,
            "thread/deleted",
        ) || str_eq(method, "thread/unarchived") || str_eq(method, "thread/status/changed")
            || str_eq(method, "thread/name/updated") || str_eq(method, "thread/tokenUsage/updated")
            || str_eq(method, "turn/started") || str_eq(method, "turn/completed") || str_eq(
            method,
            "item/completed",
        ) || str_eq(method, "account/updated") || str_eq(method, "account/rateLimits/updated")
            || str_eq(method, "account/login/completed")
    }

    /// Takes in the notification `method` with the parameters `params`: an
    /// approval resolved elsewhere no longer waits for the user.
    pub fn apply_notification(&mut self, method: &str, params: &Json) -> (r: NotificationEffect)
        ensures
            r.refresh == refreshing_method(method@),
            r.resolved_request.deep_view() == resolved_request(method@, params@),
            match resolved_request(method@, params@) {
                Some(id) => final(self).snapshot.deep_view().approvals == old(
                    self,
                ).snapshot.deep_view().approvals.filter(request_is_not(id)),
                None => final(self).snapshot.approvals == old(self).snapshot.approvals,
            },
            final(self).snapshot.sessions == old(self).snapshot.sessions,
            final(self).snapshot.archived_sessions == old(self).snapshot.archived_sessions,
            final(self).snapshot.account == old(self).snapshot.account,
            final(self).snapshot.connected == old(self).snapshot.connected,
            final(self).next_id == old(self).next_id,
            final(self).connection_generation == old(self).connection_generation,
            final(self).diagnostics == old(self).diagnostics,
            final(self).pending_threads == old(self).pending_threads,
    {
        let mut resolved: Option<Json> = None;
        if str_eq(method, "serverRequest/resolved") {
            match params.get("requestId") {
                Some(id) => {
                    self.snapshot.remove_approvals_for_request(id);
                    resolved = Some(id.duplicate());
                },
                None => {},
            }
        }
        NotificationEffect {
            resolved_request: resolved,
            refresh: AppServer::notification_requires_refresh(method),
        }
    }
}

} // verus!
