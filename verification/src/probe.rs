use vstd::prelude::*;
use vstd::string::*;

use crate::config::{LdapTargetConfig, LdapTargetView, SearchScope};

verus! {

/// The two kinds of check run against a server.
#[derive(Clone, Copy, Debug, PartialEq, Eq, Structural)]
pub enum CheckKind {
    /// Connect and bind.
    Bind,
    /// Connect, bind, and run the configured search.
    Search,
}

/// Where a single check stands.
#[derive(Clone, Copy, Debug, PartialEq, Eq, Structural)]
pub enum CheckPhase {
    Idle,
    Connecting,
    Binding,
    Searching,
    Unbinding,
    Finished,
}

/// What the outside world reports back to a running check.
#[derive(Clone, Debug)]
pub enum CheckEvent {
    /// The check is to begin.
    Start,
    /// The connection is open.
    Connected,
    /// The connection could not be opened; the error's text.
    ConnectFailed(String),
    /// The bind request failed on the way; the error's text.
    BindError(String),
    /// The server answered the bind with a failure; the error's text.
    BindRejected(String),
    /// The server accepted the bind.
    BindAccepted,
    /// The search request failed on the way; the error's text.
    SearchError(String),
    /// The server answered the search with a failure; the error's text.
    SearchRejected(String),
    /// The server answered the search with success.
    SearchAccepted,
    /// The unbind request went out (its result does not matter).
    Unbound,
    /// The check ran out of time.
    TimedOut,
}

/// What a running check asks the outside world to do next.
#[derive(Debug)]
pub enum CheckAction {
    /// Open a connection to this URL.
    Connect { url: String },
    /// Send a simple bind with these credentials (empty for anonymous).
    Bind { dn: String, password: String },
    /// Run this search, asking for the listed attributes.
    Search { base: String, scope: SearchScope, filter: String, attrs: Vec<String> },
    /// Send an unbind.
    Unbind,
    /// The check is over with this outcome.
    Finish { outcome: Result<(), String> },
    /// Nothing to do: the event does not apply in this phase.
    Wait,
}

/// Mathematical model of a [`CheckEvent`].
pub enum EventView {
    Start,
    Connected,
    ConnectFailed(Seq<char>),
    BindError(Seq<char>),
    BindRejected(Seq<char>),
    BindAccepted,
    SearchError(Seq<char>),
    SearchRejected(Seq<char>),
    SearchAccepted,
    Unbound,
    TimedOut,
}

/// Mathematical model of a [`CheckAction`].
pub enum ActionView {
    Connect { url: Seq<char> },
    Bind { dn: Seq<char>, password: Seq<char> },
    Search { base: Seq<char>, scope: SearchScope, filter: Seq<char>, attrs: Seq<Seq<char>> },
    Unbind,
    Finish { outcome: Result<(), Seq<char>> },
    Wait,
}

impl View for CheckEvent {
    type V = EventView;

    open spec fn view(&self) -> EventView {
        match self {
            CheckEvent::Start => EventView::Start,
            CheckEvent::Connected => EventView::Connected,
            CheckEvent::ConnectFailed(e) => EventView::ConnectFailed(e@),
            CheckEvent::BindError(e) => EventView::BindError(e@),
            CheckEvent::BindRejected(e) => EventView::BindRejected(e@),
            CheckEvent::BindAccepted => EventView::BindAccepted,
            CheckEvent::SearchError(e) => EventView::SearchError(e@),
            CheckEvent::SearchRejected(e) => EventView::SearchRejected(e@),
            CheckEvent::SearchAccepted => EventView::SearchAccepted,
            CheckEvent::Unbound => EventView::Unbound,
            CheckEvent::TimedOut => EventView::TimedOut,
        }
    }
}

impl View for CheckAction {
    type V = ActionView;

    open spec fn view(&self) -> ActionView {
        match self {
            CheckAction::Connect { url } => ActionView::Connect { url: url@ },
            CheckAction::Bind { dn, password } => ActionView::Bind { dn: dn@, password: password@ },
            CheckAction::Search { base, scope, filter, attrs } => ActionView::Search {
                base: base@,
                scope: *scope,
                filter: filter@,
                attrs: attrs.deep_view(),
            },
            CheckAction::Unbind => ActionView::Unbind,
            CheckAction::Finish { outcome } => ActionView::Finish {
                outcome: match outcome {
                    Ok(()) => Ok(()),
                    Err(e) => Err(e@),
                },
            },
            CheckAction::Wait => ActionView::Wait,
        }
    }
}

/// The bind credentials of a target: its DN and password (an empty password
/// when none is set), or empty ones for an anonymous bind.
pub open spec fn bind_credentials(target: LdapTargetView) -> (Seq<char>, Seq<char>) {
    match target.bind_dn {
        Some(dn) => (dn, match target.bind_password {
            Some(p) => p,
            None => Seq::empty(),
        }),
        None => (Seq::empty(), Seq::empty()),
    }
}

/// The text put before a bind error, by kind of check and whether the bind
/// is anonymous; `rejected` when the server answered with a failure.
pub open spec fn bind_error_prefix(kind: CheckKind, anonymous: bool, rejected: bool) -> Seq<char> {
    match (kind, anonymous, rejected) {
        (CheckKind::Bind, false, false) => "Bind error: "@,
        (CheckKind::Bind, false, true) => "Bind failed: "@,
        (CheckKind::Bind, true, false) => "Anonymous bind error: "@,
        (CheckKind::Bind, true, true) => "Anonymous bind failed: "@,
        (CheckKind::Search, false, false) => "Bind error before search: "@,
        (CheckKind::Search, false, true) => "Bind failed before search: "@,
        (CheckKind::Search, true, false) => "Anonymous bind error before search: "@,
        (CheckKind::Search, true, true) => "Anonymous bind failed before search: "@,
    }
}

/// A check runs a search after binding: it is a search check and the target
/// configures a search.
pub open spec fn runs_search(target: LdapTargetView, kind: CheckKind) -> bool {
    kind == CheckKind::Search && target.search_check is Some
}

/// The phase and action after the bind was accepted.
pub open spec fn after_bind_accepted(target: LdapTargetView, kind: CheckKind) -> (CheckPhase, ActionView) {
    if runs_search(target, kind) {
        let s = target.search_check.unwrap();
        (
            CheckPhase::Searching,
            ActionView::Search { base: s.base, scope: s.scope, filter: s.filter, attrs: seq!["1.1"@] },
        )
    } else {
        (CheckPhase::Unbinding, ActionView::Unbind)
    }
}

/// A finished check that failed with this message.
pub open spec fn failed(message: Seq<char>) -> (CheckPhase, ActionView) {
    (CheckPhase::Finished, ActionView::Finish { outcome: Err(message) })
}

/// One step of a check of `kind` against `target`: from `phase` on `event`
/// to the next phase and the action to take.
pub open spec fn check_step_spec(
    target: LdapTargetView,
    kind: CheckKind,
    phase: CheckPhase,
    event: EventView,
) -> (CheckPhase, ActionView) {
    let anonymous = target.bind_dn is None;
    match (phase, event) {
        (CheckPhase::Idle, EventView::Start) => if kind == CheckKind::Search
            && target.search_check is None {
            (CheckPhase::Finished, ActionView::Finish { outcome: Ok(()) })
        } else {
            (CheckPhase::Connecting, ActionView::Connect { url: target.url })
        },
        (CheckPhase::Connecting, EventView::Connected) => (
            CheckPhase::Binding,
            ActionView::Bind {
                dn: bind_credentials(target).0,
                password: bind_credentials(target).1,
            },
        ),
        (CheckPhase::Connecting, EventView::ConnectFailed(e)) => failed("Connection error: "@ + e),
        (CheckPhase::Binding, EventView::BindError(e)) => failed(
            bind_error_prefix(kind, anonymous, false) + e,
        ),
        (CheckPhase::Binding, EventView::BindRejected(e)) => failed(
            bind_error_prefix(kind, anonymous, true) + e,
        ),
        (CheckPhase::Binding, EventView::BindAccepted) => after_bind_accepted(target, kind),
        (CheckPhase::Searching, EventView::SearchError(e)) => failed("Search error: "@ + e),
        (CheckPhase::Searching, EventView::SearchRejected(e)) => failed("Search failed: "@ + e),
        (CheckPhase::Searching, EventView::SearchAccepted) => (
            CheckPhase::Unbinding,
            ActionView::Unbind,
        ),
        (CheckPhase::Unbinding, EventView::Unbound) => (
            CheckPhase::Finished,
            ActionView::Finish { outcome: Ok(()) },
        ),
        (CheckPhase::Connecting, EventView::TimedOut) => failed("Timeout exceeded"@),
        (CheckPhase::Binding, EventView::TimedOut) => failed("Timeout exceeded"@),
        (CheckPhase::Searching, EventView::TimedOut) => failed("Timeout exceeded"@),
        (CheckPhase::Unbinding, EventView::TimedOut) => failed("Timeout exceeded"@),
        _ => (phase, ActionView::Wait),
    }
}

/// The text put before a bind error (see [`bind_error_prefix`]).
fn bind_error_prefix_text(kind: CheckKind, anonymous: bool, rejected: bool) -> (s: String)
    ensures
        s@ == bind_error_prefix(kind, anonymous, rejected),
{
    match (kind, anonymous, rejected) {
        (CheckKind::Bind, false, false) => String::from_str("Bind error: "),
        (CheckKind::Bind, false, true) => String::from_str("Bind failed: "),
        (CheckKind::Bind, true, false) => String::from_str("Anonymous bind error: "),
        (CheckKind::Bind, true, true) => String::from_str("Anonymous bind failed: "),
        (CheckKind::Search, false, false) => String::from_str("Bind error before search: "),
        (CheckKind::Search, false, true) => String::from_str("Bind failed before search: "),
        (CheckKind::Search, true, false) => String::from_str("Anonymous bind error before search: "),
        (CheckKind::Search, true, true) => String::from_str("Anonymous bind failed before search: "),
    }
}

/// A finished, failed check with the message `prefix` followed by `detail`.
fn fail_with(prefix: &str, detail: &str) -> (r: (CheckPhase, CheckAction))
    ensures
        r.0 == CheckPhase::Finished,
        r.1@ == (ActionView::Finish { outcome: Err(prefix@ + detail@) }),
{
    let message = String::from_str(prefix).concat(detail);
    (CheckPhase::Finished, CheckAction::Finish { outcome: Err(message) })
}

/// The bind credentials of a target (see [`bind_credentials`]).
pub fn credentials(target: &LdapTargetConfig) -> (c: (String, String))
    ensures
        (c.0@, c.1@) == bind_credentials(target@),
{
    match &target.bind_dn {
        Some(dn) => {
            let password = match &target.bind_password {
                Some(p) => p.clone(),
                None => String::new(),
            };
            (dn.clone(), password)
        },
        None => (String::new(), String::new()),
    }
}

/// One step of a check of `kind` against `target`: the next phase and the
/// action for the outside world, given the current phase and what happened.
/// Events that do not apply in a phase leave it unchanged and ask for nothing.
pub fn check_step(
    target: &LdapTargetConfig,
    kind: CheckKind,
    phase: CheckPhase,
    event: &CheckEvent,
) -> (r: (CheckPhase, CheckAction))
    ensures
        (r.0, r.1@) == check_step_spec(target@, kind, phase, event@),
{
    let anonymous = target.bind_dn.is_none();
    match (phase, event) {
        (CheckPhase::Idle, CheckEvent::Start) => {
            if kind == CheckKind::Search && target.search_check.is_none() {
                (CheckPhase::Finished, CheckAction::Finish { outcome: Ok(()) })
            } else {
                (CheckPhase::Connecting, CheckAction::Connect { url: target.url.clone() })
            }
        },
        (CheckPhase::Connecting, CheckEvent::Connected) => {
            let (dn, password) = credentials(target);
            (CheckPhase::Binding, CheckAction::Bind { dn, password })
        },
        (CheckPhase::Connecting, CheckEvent::ConnectFailed(e)) => fail_with(
            "Connection error: ",
            e.as_str(),
        ),
        (CheckPhase::Binding, CheckEvent::BindError(e)) => {
            let prefix = bind_error_prefix_text(kind, anonymous, false);
            fail_with(prefix.as_str(), e.as_str())
        },
        (CheckPhase::Binding, CheckEvent::BindRejected(e)) => {
            let prefix = bind_error_prefix_text(kind, anonymous, true);
            fail_with(prefix.as_str(), e.as_str())
        },
        (CheckPhase::Binding, CheckEvent::BindAccepted) => {
            match (&target.search_check, kind) {
                (Some(s), CheckKind::Search) => {
                    let mut attrs: Vec<String> = Vec::new();
                    attrs.push(String::from_str("1.1"));
                    assert(attrs.deep_view() =~= seq!["1.1"@]);
                    (
                        CheckPhase::Searching,
                        CheckAction::Search {
                            base: s.base.clone(),
                            scope: s.scope,
                            filter: s.filter.clone(),
                            attrs,
                        },
                    )
                },
                _ => (CheckPhase::Unbinding, CheckAction::Unbind),
            }
        },
        (CheckPhase::Searching, CheckEvent::SearchError(e)) => fail_with("Search error: ", e.as_str()),
        (CheckPhase::Searching, CheckEvent::SearchRejected(e)) => fail_with(
            "Search failed: ",
            e.as_str(),
        ),
        (CheckPhase::Searching, CheckEvent::SearchAccepted) => (
            CheckPhase::Unbinding,
            CheckAction::Unbind,
        ),
        (CheckPhase::Unbinding, CheckEvent::Unbound) => (
            CheckPhase::Finished,
            CheckAction::Finish { outcome: Ok(()) },
        ),
        (CheckPhase::Connecting, CheckEvent::TimedOut) | (CheckPhase::Binding, CheckEvent::TimedOut)
        | (CheckPhase::Searching, CheckEvent::TimedOut) | (
            CheckPhase::Unbinding,
            CheckEvent::TimedOut,
        ) => (
            CheckPhase::Finished,
            CheckAction::Finish { outcome: Err(String::from_str("Timeout exceeded")) },
        ),
        _ => (phase, CheckAction::Wait),
    }
}

/// What each step of a check does, over every target and kind of check:
/// a check opens a connection to the target's URL, except a search check of
/// a target without a configured search, which succeeds at once; once
/// connected it binds with the target's DN and password (an empty password
/// when none is set), or anonymously with empty ones when no DN is set,
/// whether it is a bind check or a search check; an accepted bind is followed
/// by the configured search (base, scope and filter, asking for attribute
/// "1.1") in a search check and by an unbind otherwise; an accepted search is
/// followed by an unbind, and the unbind ends the check with success; a
/// timeout while the check runs ends it with "Timeout exceeded".
pub proof fn lemma_check_steps(target: LdapTargetView, kind: CheckKind)
    ensures
        check_step_spec(target, kind, CheckPhase::Connecting, EventView::Connected) == (
            CheckPhase::Binding,
            ActionView::Bind {
                dn: match target.bind_dn {
                    Some(d) => d,
                    None => Seq::empty(),
                },
                password: match (target.bind_dn, target.bind_password) {
                    (Some(_), Some(p)) => p,
                    _ => Seq::empty(),
                },
            },
        ),
        !(kind == CheckKind::Search && target.search_check is None) ==> check_step_spec(
            target,
            kind,
            CheckPhase::Idle,
            EventView::Start,
        ) == (CheckPhase::Connecting, ActionView::Connect { url: target.url }),
        kind == CheckKind::Search && target.search_check is None ==> check_step_spec(
            target,
            kind,
            CheckPhase::Idle,
            EventView::Start,
        ) == (CheckPhase::Finished, ActionView::Finish { outcome: Ok(()) }),
        kind == CheckKind::Search && target.search_check is Some ==> check_step_spec(
            target,
            kind,
            CheckPhase::Binding,
            EventView::BindAccepted,
        ) == (
            CheckPhase::Searching,
            ActionView::Search {
                base: target.search_check.unwrap().base,
                scope: target.search_check.unwrap().scope,
                filter: target.search_check.unwrap().filter,
                attrs: seq!["1.1"@],
            },
        ),
        kind == CheckKind::Bind ==> check_step_spec(
            target,
            kind,
            CheckPhase::Binding,
            EventView::BindAccepted,
        ) == (CheckPhase::Unbinding, ActionView::Unbind),
        check_step_spec(target, kind, CheckPhase::Searching, EventView::SearchAccepted) == (
            CheckPhase::Unbinding,
            ActionView::Unbind,
        ),
        check_step_spec(target, kind, CheckPhase::Unbinding, EventView::Unbound) == (
            CheckPhase::Finished,
            ActionView::Finish { outcome: Ok(()) },
        ),
        forall|phase: CheckPhase|
            phase != CheckPhase::Idle && phase != CheckPhase::Finished ==> #[trigger] check_step_spec(
                target,
                kind,
                phase,
                EventView::TimedOut,
            ) == (CheckPhase::Finished, ActionView::Finish { outcome: Err("Timeout exceeded"@) }),
{
}

/// How failures are reported, over every target, kind of check and error
/// text: the check ends at once, with the error text after a prefix that
/// names the failed step ("Connection error: ", "Search error: ", "Search
/// failed: "), and for a bind whether it was anonymous, whether the server
/// rejected it, and whether a search was to follow.
pub proof fn lemma_check_failures(target: LdapTargetView, kind: CheckKind, e: Seq<char>)
    ensures
        check_step_spec(target, kind, CheckPhase::Connecting, EventView::ConnectFailed(e)) == (
            CheckPhase::Finished,
            ActionView::Finish { outcome: Err("Connection error: "@ + e) },
        ),
        check_step_spec(target, kind, CheckPhase::Binding, EventView::BindError(e)) == (
            CheckPhase::Finished,
            ActionView::Finish {
                outcome: Err(
                    if target.bind_dn is Some {
                        if kind == CheckKind::Bind {
                            "Bind error: "@
                        } else {
                            "Bind error before search: "@
                        }
                    } else {
                        if kind == CheckKind::Bind {
                            "Anonymous bind error: "@
                        } else {
                            "Anonymous bind error before search: "@
                        }
                    } + e,
                ),
            },
        ),
        check_step_spec(target, kind, CheckPhase::Binding, EventView::BindRejected(e)) == (
            CheckPhase::Finished,
            ActionView::Finish {
                outcome: Err(
                    if target.bind_dn is Some {
                        if kind == CheckKind::Bind {
                            "Bind failed: "@
                        } else {
                            "Bind failed before search: "@
                        }
                    } else {
                        if kind == CheckKind::Bind {
                            "Anonymous bind failed: "@
                        } else {
                            "Anonymous bind failed before search: "@
                        }
                    } + e,
                ),
            },
        ),
        check_step_spec(target, kind, CheckPhase::Searching, EventView::SearchError(e)) == (
            CheckPhase::Finished,
            ActionView::Finish { outcome: Err("Search error: "@ + e) },
        ),
        check_step_spec(target, kind, CheckPhase::Searching, EventView::SearchRejected(e)) == (
            CheckPhase::Finished,
            ActionView::Finish { outcome: Err("Search failed: "@ + e) },
        ),
{
}

/// The phase a check of `kind` against `target` reaches after these events.
pub open spec fn run_check(target: LdapTargetView, kind: CheckKind, events: Seq<EventView>) -> CheckPhase
    decreases events.len(),
{
    if events.len() == 0 {
        CheckPhase::Idle
    } else {
        check_step_spec(target, kind, run_check(target, kind, events.drop_last()), events.last()).0
    }
}

/// What the events so far guarantee of the phase reached: a search runs only
/// after an accepted bind, and unbinding starts only after an accepted bind
/// and, for a check that searches, an accepted search.
pub open spec fn phase_justified(target: LdapTargetView, kind: CheckKind, events: Seq<EventView>) -> bool {
    let phase = run_check(target, kind, events);
    &&& phase == CheckPhase::Searching ==> runs_search(target, kind) && events.contains(
        EventView::BindAccepted,
    )
    &&& phase == CheckPhase::Unbinding ==> events.contains(EventView::BindAccepted) && (runs_search(
        target,
        kind,
    ) ==> events.contains(EventView::SearchAccepted))
}

proof fn lemma_phase_justified(target: LdapTargetView, kind: CheckKind, events: Seq<EventView>)
    ensures
        phase_justified(target, kind, events),
    decreases events.len(),
{
    if events.len() > 0 {
        let prev = events.drop_last();
        lemma_phase_justified(target, kind, prev);
        assert forall|e: EventView| prev.contains(e) implies events.contains(e) by {
            let i = choose|i: int| 0 <= i < prev.len() && prev[i] == e;
            assert(events[i] == e);
        }
        assert(events[events.len() - 1] == events.last());
    }
}

/// A check ends in success only if the server accepted the bind and, when
/// the check searches, the search; a search check of a target without a
/// configured search succeeds at once. A finished check stays finished.
pub proof fn lemma_success_needs_acceptance(
    target: LdapTargetView,
    kind: CheckKind,
    events: Seq<EventView>,
    event: EventView,
)
    ensures
        check_step_spec(target, kind, CheckPhase::Finished, event) == (
            CheckPhase::Finished,
            ActionView::Wait,
        ),
        check_step_spec(target, kind, run_check(target, kind, events), event).1 == (ActionView::Finish {
            outcome: Ok(()),
        }) ==> (kind == CheckKind::Search && target.search_check is None) || (events.contains(
            EventView::BindAccepted,
        ) && (runs_search(target, kind) ==> events.contains(EventView::SearchAccepted))),
{
    lemma_phase_justified(target, kind, events);
}

} // verus!
