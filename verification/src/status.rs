use vstd::prelude::*;
use vstd::string::*;

use crate::config::{LdapTargetConfig, LdapTargetView};
use crate::time::Timestamp;

verus! {

/// What is known of one directory server: the outcome of its latest bind
/// check and of its latest search check, and whether it counts as up.
#[derive(Clone, Debug)]
pub struct LdapStatus {
    pub id: String,
    pub url: String,
    /// Combined health: the last bind succeeded and the last search (if one
    /// ran) did not fail.
    pub up: bool,
    pub last_bind_time: Option<Timestamp>,
    pub bind_latency_ms: Option<u64>,
    pub bind_error_message: Option<String>,
    pub bind_success: Option<bool>,
    pub last_search_time: Option<Timestamp>,
    pub search_latency_ms: Option<u64>,
    pub search_error_message: Option<String>,
    pub search_success: Option<bool>,
}

/// Mathematical model of an [`LdapStatus`].
pub struct LdapStatusView {
    pub id: Seq<char>,
    pub url: Seq<char>,
    pub up: bool,
    pub last_bind_time: Option<Timestamp>,
    pub bind_latency_ms: Option<u64>,
    pub bind_error_message: Option<Seq<char>>,
    pub bind_success: Option<bool>,
    pub last_search_time: Option<Timestamp>,
    pub search_latency_ms: Option<u64>,
    pub search_error_message: Option<Seq<char>>,
    pub search_success: Option<bool>,
}

impl View for LdapStatus {
    type V = LdapStatusView;

    open spec fn view(&self) -> LdapStatusView {
        LdapStatusView {
            id: self.id@,
            url: self.url@,
            up: self.up,
            last_bind_time: self.last_bind_time,
            bind_latency_ms: self.bind_latency_ms,
            bind_error_message: self.bind_error_message.deep_view(),
            bind_success: self.bind_success,
            last_search_time: self.last_search_time,
            search_latency_ms: self.search_latency_ms,
            search_error_message: self.search_error_message.deep_view(),
            search_success: self.search_success,
        }
    }
}

/// The model of a check's outcome: success, or failure with its message.
pub open spec fn outcome_view(outcome: Result<(), String>) -> Result<(), Seq<char>> {
    match outcome {
        Ok(()) => Ok(()),
        Err(m) => Err(m@),
    }
}

/// A server is up when its last bind succeeded (a bind that has not run yet
/// counts as failed) and its last search did not fail (a search that has not
/// run, or is not configured, counts as passed).
pub open spec fn combined_up(bind_success: Option<bool>, search_success: Option<bool>) -> bool {
    bind_success == Some(true) && search_success != Some(false)
}

/// The fields of one kind of check hang together: the result, the time and
/// the latency are all present (the check has run) or all absent; a success
/// carries no error message and a failure carries one.
pub open spec fn check_fields_coherent(
    success: Option<bool>,
    time: Option<Timestamp>,
    latency_ms: Option<u64>,
    error: Option<Seq<char>>,
) -> bool {
    &&& (success is Some) == (time is Some)
    &&& (success is Some) == (latency_ms is Some)
    &&& success == Some(true) ==> error is None
    &&& success == Some(false) ==> error is Some
}

impl LdapStatusView {
    /// The `up` flag agrees with the two check results.
    pub open spec fn consistent(self) -> bool {
        self.up == combined_up(self.bind_success, self.search_success)
    }

    /// The bind fields hang together, and so do the search fields.
    pub open spec fn coherent(self) -> bool {
        &&& check_fields_coherent(
            self.bind_success,
            self.last_bind_time,
            self.bind_latency_ms,
            self.bind_error_message,
        )
        &&& check_fields_coherent(
            self.search_success,
            self.last_search_time,
            self.search_latency_ms,
            self.search_error_message,
        )
    }
}

/// The message a status carries before its first bind check.
pub open spec fn bind_pending_message() -> Seq<char> {
    "Initialized, bind check pending"@
}

/// The message a status carries before its first search check.
pub open spec fn search_pending_message() -> Seq<char> {
    "Initialized, search check pending"@
}

/// The status of a target before any check ran: down, with a pending bind
/// message, and a pending search message only where a search is configured.
pub open spec fn initial_status(target: LdapTargetView) -> LdapStatusView {
    LdapStatusView {
        id: target.id,
        url: target.url,
        up: false,
        last_bind_time: None,
        bind_latency_ms: None,
        bind_error_message: Some(bind_pending_message()),
        bind_success: None,
        last_search_time: None,
        search_latency_ms: None,
        search_error_message: if target.search_check is Some {
            Some(search_pending_message())
        } else {
            None
        },
        search_success: None,
    }
}

/// A status after a bind check that finished at `at`, took `latency_ms` and
/// had `outcome`; the search fields are kept.
pub open spec fn after_bind(
    s: LdapStatusView,
    at: Timestamp,
    latency_ms: u64,
    outcome: Result<(), Seq<char>>,
) -> LdapStatusView {
    let success = outcome is Ok;
    LdapStatusView {
        last_bind_time: Some(at),
        bind_latency_ms: Some(latency_ms),
        bind_success: Some(success),
        bind_error_message: match outcome {
            Ok(()) => None,
            Err(m) => Some(m),
        },
        up: combined_up(Some(success), s.search_success),
        ..s
    }
}

/// A status after a search check that finished at `at`, took `latency_ms`
/// and had `outcome`; the bind fields are kept.
pub open spec fn after_search(
    s: LdapStatusView,
    at: Timestamp,
    latency_ms: u64,
    outcome: Result<(), Seq<char>>,
) -> LdapStatusView {
    let success = outcome is Ok;
    LdapStatusView {
        last_search_time: Some(at),
        search_latency_ms: Some(latency_ms),
        search_success: Some(success),
        search_error_message: match outcome {
            Ok(()) => None,
            Err(m) => Some(m),
        },
        up: combined_up(s.bind_success, Some(success)),
        ..s
    }
}

/// Recording a bind check changes only the bind fields and the combined
/// health, which then agrees with both checks; recording a search check
/// changes only the search fields and the combined health.
pub proof fn lemma_record_frames(
    s: LdapStatusView,
    at: Timestamp,
    latency_ms: u64,
    outcome: Result<(), Seq<char>>,
)
    ensures
        after_bind(s, at, latency_ms, outcome).id == s.id,
        after_bind(s, at, latency_ms, outcome).url == s.url,
        after_bind(s, at, latency_ms, outcome).last_search_time == s.last_search_time,
        after_bind(s, at, latency_ms, outcome).search_latency_ms == s.search_latency_ms,
        after_bind(s, at, latency_ms, outcome).search_error_message == s.search_error_message,
        after_bind(s, at, latency_ms, outcome).search_success == s.search_success,
        after_bind(s, at, latency_ms, outcome).consistent(),
        after_search(s, at, latency_ms, outcome).id == s.id,
        after_search(s, at, latency_ms, outcome).url == s.url,
        after_search(s, at, latency_ms, outcome).last_bind_time == s.last_bind_time,
        after_search(s, at, latency_ms, outcome).bind_latency_ms == s.bind_latency_ms,
        after_search(s, at, latency_ms, outcome).bind_error_message == s.bind_error_message,
        after_search(s, at, latency_ms, outcome).bind_success == s.bind_success,
        after_search(s, at, latency_ms, outcome).consistent(),
{
}

/// Recording a check keeps a status's fields hanging together.
pub proof fn lemma_record_keeps_coherent(
    s: LdapStatusView,
    at: Timestamp,
    latency_ms: u64,
    outcome: Result<(), Seq<char>>,
)
    requires
        s.coherent(),
    ensures
        after_bind(s, at, latency_ms, outcome).coherent(),
        after_search(s, at, latency_ms, outcome).coherent(),
{
}

/// What recording a check stores, over every status, time, latency and
/// outcome: the check's time and latency; success exactly when the outcome
/// is a success; the failure's message, or no message after a success; and
/// the server is up afterwards exactly when the bind's latest outcome is a
/// success and the search's latest outcome is not a failure.
pub proof fn lemma_record_outcome(
    s: LdapStatusView,
    at: Timestamp,
    latency_ms: u64,
    outcome: Result<(), Seq<char>>,
)
    ensures
        after_bind(s, at, latency_ms, outcome).last_bind_time == Some(at),
        after_bind(s, at, latency_ms, outcome).bind_latency_ms == Some(latency_ms),
        after_bind(s, at, latency_ms, outcome).bind_success == Some(outcome is Ok),
        after_bind(s, at, latency_ms, outcome).bind_error_message == match outcome {
            Ok(()) => None,
            Err(m) => Some(m),
        },
        after_bind(s, at, latency_ms, outcome).up == (outcome is Ok && s.search_success != Some(
            false,
        )),
        after_search(s, at, latency_ms, outcome).last_search_time == Some(at),
        after_search(s, at, latency_ms, outcome).search_latency_ms == Some(latency_ms),
        after_search(s, at, latency_ms, outcome).search_success == Some(outcome is Ok),
        after_search(s, at, latency_ms, outcome).search_error_message == match outcome {
            Ok(()) => None,
            Err(m) => Some(m),
        },
        after_search(s, at, latency_ms, outcome).up == (outcome is Ok && s.bind_success == Some(
            true,
        )),
{
}

/// A failed check leaves the server down; a successful bind makes it up
/// unless its last search failed; a successful search keeps it down only
/// when its last bind did not succeed.
pub proof fn lemma_record_health(
    s: LdapStatusView,
    at: Timestamp,
    latency_ms: u64,
    outcome: Result<(), Seq<char>>,
)
    ensures
        outcome is Err ==> !after_bind(s, at, latency_ms, outcome).up && !after_search(
            s,
            at,
            latency_ms,
            outcome,
        ).up,
        outcome is Ok ==> (after_bind(s, at, latency_ms, outcome).up <==> s.search_success != Some(
            false,
        )),
        outcome is Ok ==> (after_search(s, at, latency_ms, outcome).up <==> s.bind_success == Some(
            true,
        )),
{
}

/// Whether a bind and a search result make a server count as up.
pub fn is_up(bind_success: Option<bool>, search_success: Option<bool>) -> (up: bool)
    ensures
        up == combined_up(bind_success, search_success),
{
    let bind_ok = match bind_success {
        Some(b) => b,
        None => false,
    };
    let search_ok = match search_success {
        Some(b) => b,
        None => true,
    };
    bind_ok && search_ok
}

/// A copy of an optional text, with the same contents.
pub fn copy_opt_text(s: &Option<String>) -> (r: Option<String>)
    ensures
        r.deep_view() == s.deep_view(),
{
    match s {
        Some(t) => Some(t.clone()),
        None => None,
    }
}

impl LdapStatus {
    /// The status of a target before any check ran.
    pub fn initial(target: &LdapTargetConfig) -> (s: LdapStatus)
        ensures
            s@ == initial_status(target@),
            s@.consistent(),
            s@.coherent(),
    {
        let search_error_message = if target.search_check.is_some() {
            Some(String::from_str("Initialized, search check pending"))
        } else {
            None
        };
        LdapStatus {
            id: target.id.clone(),
            url: target.url.clone(),
            up: false,
            last_bind_time: None,
            bind_latency_ms: None,
            bind_error_message: Some(String::from_str("Initialized, bind check pending")),
            bind_success: None,
            last_search_time: None,
            search_latency_ms: None,
            search_error_message,
            search_success: None,
        }
    }

    /// A copy with the same contents.
    pub fn duplicate(&self) -> (s: LdapStatus)
        ensures
            s@ == self@,
    {
        LdapStatus {
            id: self.id.clone(),
            url: self.url.clone(),
            up: self.up,
            last_bind_time: self.last_bind_time,
            bind_latency_ms: self.bind_latency_ms,
            bind_error_message: copy_opt_text(&self.bind_error_message),
            bind_success: self.bind_success,
            last_search_time: self.last_search_time,
            search_latency_ms: self.search_latency_ms,
            search_error_message: copy_opt_text(&self.search_error_message),
            search_success: self.search_success,
        }
    }

    /// Records a finished bind check and recomputes the combined health.
    pub fn record_bind(&mut self, at: Timestamp, latency_ms: u64, outcome: Result<(), String>)
        ensures
            final(self)@ == after_bind(old(self)@, at, latency_ms, outcome_view(outcome)),
            final(self)@.consistent(),
            old(self)@.coherent() ==> final(self)@.coherent(),
    {
        self.last_bind_time = Some(at);
        self.bind_latency_ms = Some(latency_ms);
        match outcome {
            Ok(()) => {
                self.bind_success = Some(true);
                self.bind_error_message = None;
            },
            Err(message) => {
                self.bind_success = Some(false);
                self.bind_error_message = Some(message);
            },
        }
        self.up = is_up(self.bind_success, self.search_success);
    }

    /// Records a finished search check and recomputes the combined health.
    pub fn record_search(&mut self, at: Timestamp, latency_ms: u64, outcome: Result<(), String>)
        ensures
            final(self)@ == after_search(old(self)@, at, latency_ms, outcome_view(outcome)),
            final(self)@.consistent(),
            old(self)@.coherent() ==> final(self)@.coherent(),
    {
        self.last_search_time = Some(at);
        self.search_latency_ms = Some(latency_ms);
        match outcome {
            Ok(()) => {
                self.search_success = Some(true);
                self.search_error_message = None;
            },
            Err(message) => {
                self.search_success = Some(false);
                self.search_error_message = Some(message);
            },
        }
        self.up = is_up(self.bind_success, self.search_success);
    }
}

} // verus!
