use vstd::prelude::*;
use vstd::string::*;

use crate::monitor::status_views;
use crate::status::{LdapStatus, LdapStatusView};
use crate::text::{contains, contains_text, join, join_texts, lowercase, to_lowercase};
use crate::time::{later, later_opt, opt_time_max, time_max, utc_now, Timestamp};

verus! {

/// Health states as the OpenTelemetry health-check extension names them.
#[derive(Clone, Copy, Debug, PartialEq, Eq, Structural)]
pub enum OTelStatus {
    Healthy,
    RecoverableError,
    PermanentError,
}

/// The name under which a health state is reported.
pub open spec fn otel_status_name(s: OTelStatus) -> Seq<char> {
    match s {
        OTelStatus::Healthy => "StatusOK"@,
        OTelStatus::RecoverableError => "StatusRecoverableError"@,
        OTelStatus::PermanentError => "StatusPermanentError"@,
    }
}

impl OTelStatus {
    /// The name under which this state is reported.
    pub fn as_str(&self) -> (name: &'static str)
        ensures
            name@ == otel_status_name(*self),
    {
        match self {
            OTelStatus::Healthy => "StatusOK",
            OTelStatus::RecoverableError => "StatusRecoverableError",
            OTelStatus::PermanentError => "StatusPermanentError",
        }
    }
}

/// Metadata reported with a component: its URL and the latest latencies.
#[derive(Clone, Debug)]
pub struct ComponentAttributes {
    pub url: String,
    pub bind_latency_ms: Option<u64>,
    pub search_latency_ms: Option<u64>,
}

/// The health of one watched directory server.
#[derive(Clone, Debug)]
pub struct ComponentStatus {
    pub healthy: bool,
    pub status: OTelStatus,
    pub error: Option<String>,
    pub status_time: Timestamp,
    pub attributes: ComponentAttributes,
}

/// The health of the whole service.
#[derive(Clone, Debug)]
pub struct HealthReport {
    pub start_time: Timestamp,
    pub healthy: bool,
    pub status: OTelStatus,
    pub error: Option<String>,
    pub status_time: Timestamp,
    /// Per-server health, keyed by target id; present only when asked for.
    pub components: Option<Vec<(String, ComponentStatus)>>,
}

/// Mathematical model of [`ComponentAttributes`].
pub struct AttributesView {
    pub url: Seq<char>,
    pub bind_latency_ms: Option<u64>,
    pub search_latency_ms: Option<u64>,
}

/// Mathematical model of a [`ComponentStatus`].
pub struct ComponentView {
    pub healthy: bool,
    pub status: OTelStatus,
    pub error: Option<Seq<char>>,
    pub status_time: Timestamp,
    pub attributes: AttributesView,
}

/// Mathematical model of a [`HealthReport`].
pub struct HealthView {
    pub start_time: Timestamp,
    pub healthy: bool,
    pub status: OTelStatus,
    pub error: Option<Seq<char>>,
    pub status_time: Timestamp,
    pub components: Option<Seq<(Seq<char>, ComponentView)>>,
}

impl View for ComponentAttributes {
    type V = AttributesView;

    open spec fn view(&self) -> AttributesView {
        AttributesView {
            url: self.url@,
            bind_latency_ms: self.bind_latency_ms,
            search_latency_ms: self.search_latency_ms,
        }
    }
}

impl View for ComponentStatus {
    type V = ComponentView;

    open spec fn view(&self) -> ComponentView {
        ComponentView {
            healthy: self.healthy,
            status: self.status,
            error: self.error.deep_view(),
            status_time: self.status_time,
            attributes: self.attributes@,
        }
    }
}

/// The models of a list of (id, component) pairs.
pub open spec fn components_view(v: Seq<(String, ComponentStatus)>) -> Seq<(Seq<char>, ComponentView)> {
    v.map_values(|p: (String, ComponentStatus)| (p.0@, p.1@))
}

impl View for HealthReport {
    type V = HealthView;

    open spec fn view(&self) -> HealthView {
        HealthView {
            start_time: self.start_time,
            healthy: self.healthy,
            status: self.status,
            error: self.error.deep_view(),
            status_time: self.status_time,
            components: match self.components {
                Some(v) => Some(components_view(v@)),
                None => None,
            },
        }
    }
}

/// An error text (already lowercased) points at a problem that needs a
/// configuration change: credentials, a password, authentication, a DN, or
/// something invalid.
pub open spec fn permanent_text(lowered: Seq<char>) -> bool {
    ||| contains_text(lowered, "credential"@)
    ||| contains_text(lowered, "password"@)
    ||| contains_text(lowered, "auth"@)
    ||| contains_text(lowered, "dn"@)
    ||| contains_text(lowered, "invalid"@)
}

/// An optional error message that, lowercased, points at a permanent problem.
pub open spec fn permanent_message(message: Option<Seq<char>>) -> bool {
    match message {
        Some(m) => permanent_text(lowercase(m)),
        None => false,
    }
}

/// The messages of a status, each prefixed by the check it came from.
pub open spec fn labelled_errors(s: LdapStatusView) -> Seq<Seq<char>> {
    let bind_part = match s.bind_error_message {
        Some(e) => seq!["Bind: "@ + e],
        None => Seq::empty(),
    };
    let search_part = match s.search_error_message {
        Some(e) => seq!["Search: "@ + e],
        None => Seq::empty(),
    };
    bind_part + search_part
}

/// The health of one server from its status. `now` is the time reported
/// when neither check has run yet.
pub open spec fn classify(s: LdapStatusView, now: Timestamp) -> ComponentView {
    let parts = labelled_errors(s);
    ComponentView {
        healthy: s.up,
        status: if s.up {
            OTelStatus::Healthy
        } else if permanent_message(s.bind_error_message) || permanent_message(
            s.search_error_message,
        ) {
            OTelStatus::PermanentError
        } else {
            OTelStatus::RecoverableError
        },
        error: if s.up {
            None
        } else if parts.len() == 0 {
            Some("Check failed"@)
        } else {
            Some(join_texts(parts, "; "@))
        },
        status_time: match opt_time_max(s.last_bind_time, s.last_search_time) {
            Some(t) => t,
            None => now,
        },
        attributes: AttributesView {
            url: s.url,
            bind_latency_ms: s.bind_latency_ms,
            search_latency_ms: s.search_latency_ms,
        },
    }
}

/// The lines "id: error" of the unhealthy components that carry an error,
/// in the order of the components.
pub open spec fn health_errors(comps: Seq<(Seq<char>, ComponentView)>) -> Seq<Seq<char>>
    decreases comps.len(),
{
    if comps.len() == 0 {
        Seq::empty()
    } else {
        let c = comps.last();
        health_errors(comps.drop_last()) + if !c.1.healthy && c.1.error is Some {
            seq![c.0 + ": "@ + c.1.error.unwrap()]
        } else {
            Seq::empty()
        }
    }
}

/// The latest of the start time and the components' status times.
pub open spec fn latest_time(start: Timestamp, comps: Seq<(Seq<char>, ComponentView)>) -> Timestamp
    decreases comps.len(),
{
    if comps.len() == 0 {
        start
    } else {
        time_max(latest_time(start, comps.drop_last()), comps.last().1.status_time)
    }
}

/// Every component is healthy.
pub open spec fn all_healthy(comps: Seq<(Seq<char>, ComponentView)>) -> bool {
    forall|i: int| 0 <= i < comps.len() ==> (#[trigger] comps[i]).1.healthy
}

/// Some unhealthy component is in the permanent error state.
pub open spec fn any_permanent(comps: Seq<(Seq<char>, ComponentView)>) -> bool {
    exists|i: int|
        0 <= i < comps.len() && !(#[trigger] comps[i]).1.healthy && comps[i].1.status
            == OTelStatus::PermanentError
}

/// The service's health from its start time and its components' health.
pub open spec fn summarize(
    start: Timestamp,
    comps: Seq<(Seq<char>, ComponentView)>,
    verbose: bool,
) -> HealthView {
    let healthy = all_healthy(comps);
    HealthView {
        start_time: start,
        healthy,
        status: if healthy {
            OTelStatus::Healthy
        } else if any_permanent(comps) {
            OTelStatus::PermanentError
        } else {
            OTelStatus::RecoverableError
        },
        error: if healthy {
            None
        } else {
            Some(join_texts(health_errors(comps), "; "@))
        },
        status_time: latest_time(start, comps),
        components: if verbose {
            Some(comps)
        } else {
            None
        },
    }
}

/// The HTTP status answered with a health report: 200 when healthy, else 503.
pub open spec fn health_http_status(healthy: bool) -> u16 {
    if healthy {
        200
    } else {
        503
    }
}

/// Whether a lowercased error text points at a permanent problem.
pub fn is_permanent_error_text(lowered: &str) -> (b: bool)
    ensures
        b == permanent_text(lowered@),
{
    contains(lowered, "credential") || contains(lowered, "password") || contains(lowered, "auth")
        || contains(lowered, "dn") || contains(lowered, "invalid")
}

/// Whether an error message, compared without regard to case, points at a
/// permanent problem.
pub fn is_permanent_message(message: &Option<String>) -> (b: bool)
    ensures
        b == permanent_message(message.deep_view()),
{
    match message {
        Some(m) => {
            let lowered = to_lowercase(m.as_str());
            is_permanent_error_text(lowered.as_str())
        },
        None => false,
    }
}

/// The health of one server from its status, with `now` as the status time
/// when no check has run yet.
pub fn classify_status_at(status: &LdapStatus, now: Timestamp) -> (c: ComponentStatus)
    ensures
        c@ == classify(status@, now),
{
    let ghost sv = status@;
    let mut errs: Vec<String> = Vec::new();
    let mut is_permanent = false;
    match &status.bind_error_message {
        Some(err) => {
            errs.push(String::from_str("Bind: ").concat(err.as_str()));
        },
        None => {},
    }
    if is_permanent_message(&status.bind_error_message) {
        is_permanent = true;
    }
    match &status.search_error_message {
        Some(err) => {
            errs.push(String::from_str("Search: ").concat(err.as_str()));
        },
        None => {},
    }
    if is_permanent_message(&status.search_error_message) {
        is_permanent = true;
    }
    assert(errs.deep_view() =~= labelled_errors(sv));
    let (otel_status, error) = if status.up {
        (OTelStatus::Healthy, None)
    } else {
        let combined = if errs.len() == 0 {
            String::from_str("Check failed")
        } else {
            join(&errs, "; ")
        };
        let label = if is_permanent {
            OTelStatus::PermanentError
        } else {
            OTelStatus::RecoverableError
        };
        (label, Some(combined))
    };
    let status_time = match later_opt(status.last_bind_time, status.last_search_time) {
        Some(t) => t,
        None => now,
    };
    ComponentStatus {
        healthy: status.up,
        status: otel_status,
        error,
        status_time,
        attributes: ComponentAttributes {
            url: status.url.clone(),
            bind_latency_ms: status.bind_latency_ms,
            search_latency_ms: status.search_latency_ms,
        },
    }
}

/// The health of one server from its status; when no check has run yet the
/// status time is the current time. There always is a result.
pub fn classify_status(status: &LdapStatus) -> (c: Option<ComponentStatus>)
    ensures
        c is Some,
        opt_time_max(status.last_bind_time, status.last_search_time) is Some ==> c is Some,
        c matches Some(comp) ==> comp@ == classify(status@, comp@.status_time),
        c matches Some(comp) ==> (opt_time_max(status.last_bind_time, status.last_search_time) is Some
            ==> comp@.status_time == opt_time_max(
            status.last_bind_time,
            status.last_search_time,
        ).unwrap()),
{
    let now = match later_opt(status.last_bind_time, status.last_search_time) {
        Some(t) => t,
        None => utc_now(),
    };
    Some(classify_status_at(status, now))
}

/// A copy of a component with the same contents.
fn copy_component(c: &ComponentStatus) -> (r: ComponentStatus)
    ensures
        r@ == c@,
{
    ComponentStatus {
        healthy: c.healthy,
        status: c.status,
        error: match &c.error {
            Some(e) => Some(e.clone()),
            None => None,
        },
        status_time: c.status_time,
        attributes: ComponentAttributes {
            url: c.attributes.url.clone(),
            bind_latency_ms: c.attributes.bind_latency_ms,
            search_latency_ms: c.attributes.search_latency_ms,
        },
    }
}

/// The service's health from its start time and the health of each
/// watched server, with the HTTP status to answer it with.
pub fn summarize_health(
    start_time: Timestamp,
    components: &Vec<(String, ComponentStatus)>,
    verbose: bool,
) -> (r: (u16, HealthReport))
    ensures
        r.1@ == summarize(start_time, components_view(components@), verbose),
        r.0 == health_http_status(r.1.healthy),
{
    let ghost comps = components_view(components@);
    let mut healthy = true;
    let mut has_permanent = false;
    let mut status_time = start_time;
    let mut errors: Vec<String> = Vec::new();
    let mut listed: Vec<(String, ComponentStatus)> = Vec::new();
    let n = components.len();
    for i in 0..n
        invariant
            n == components@.len(),
            comps == components_view(components@),
            healthy == all_healthy(comps.take(i as int)),
            has_permanent == any_permanent(comps.take(i as int)),
            status_time == latest_time(start_time, comps.take(i as int)),
            errors.deep_view() == health_errors(comps.take(i as int)),
            verbose ==> components_view(listed@) == comps.take(i as int),
    {
        let ghost prev = comps.take(i as int);
        let ghost cur = comps.take(i + 1);
        assert(cur.drop_last() =~= prev);
        assert(cur.last() == comps[i as int]);
        let id = &components[i].0;
        let comp = &components[i].1;
        assert(comps[i as int] == (id@, comp@));
        if !comp.healthy {
            healthy = false;
            if comp.status == OTelStatus::PermanentError {
                has_permanent = true;
            }
            match &comp.error {
                Some(err) => {
                    errors.push(id.clone().concat(": ").concat(err.as_str()));
                },
                None => {},
            }
        }
        status_time = later(status_time, comp.status_time);
        if verbose {
            listed.push((id.clone(), copy_component(comp)));
            assert(components_view(listed@) =~= cur);
        }
        assert(errors.deep_view() =~= health_errors(cur));
        assert(healthy == all_healthy(cur)) by {
            if healthy {
                assert forall|j: int| 0 <= j < cur.len() implies (#[trigger] cur[j]).1.healthy by {
                    if j < i {
                        assert(cur[j] == prev[j]);
                    }
                }
            } else if !comp.healthy {
                assert(!cur[i as int].1.healthy);
            } else {
                let j = choose|j: int| 0 <= j < prev.len() && !(#[trigger] prev[j]).1.healthy;
                assert(cur[j] == prev[j]);
            }
        }
        assert(has_permanent == any_permanent(cur)) by {
            if has_permanent {
                if !comp.healthy && comp.status == OTelStatus::PermanentError {
                    assert(cur[i as int] == comps[i as int]);
                } else {
                    let j = choose|j: int|
                        0 <= j < prev.len() && !(#[trigger] prev[j]).1.healthy && prev[j].1.status
                            == OTelStatus::PermanentError;
                    assert(cur[j] == prev[j]);
                }
            } else {
                assert forall|j: int|
                    0 <= j < cur.len() && !(#[trigger] cur[j]).1.healthy implies cur[j].1.status
                    != OTelStatus::PermanentError by {
                    if j < i {
                        assert(cur[j] == prev[j]);
                    }
                }
            }
        }
    }
    assert(comps.take(n as int) =~= comps);
    let (status, error) = if healthy {
        (OTelStatus::Healthy, None)
    } else {
        let joined = join(&errors, "; ");
        let label = if has_permanent {
            OTelStatus::PermanentError
        } else {
            OTelStatus::RecoverableError
        };
        (label, Some(joined))
    };
    let code: u16 = if healthy {
        200
    } else {
        503
    };
    let report = HealthReport {
        start_time,
        healthy,
        status,
        error,
        status_time,
        components: if verbose {
            Some(listed)
        } else {
            None
        },
    };
    (code, report)
}

/// How a server's state and error text follow from its status, over every
/// status: a down server is in the permanent error state exactly when its
/// bind message or its search message, lowercased, mentions "credential",
/// "password", "auth", "dn" or "invalid", and in the recoverable state
/// exactly when it is down and neither does; an up server is healthy. A down
/// server's error lists the bind message after "Bind: " and the search
/// message after "Search: ", joined by "; ", or says "Check failed" when it
/// has neither.
pub proof fn lemma_classify_state_and_error(s: LdapStatusView, now: Timestamp)
    ensures
        (classify(s, now).status == OTelStatus::PermanentError) == (!s.up && ((
        s.bind_error_message matches Some(m) && (contains_text(lowercase(m), "credential"@)
            || contains_text(lowercase(m), "password"@) || contains_text(lowercase(m), "auth"@)
            || contains_text(lowercase(m), "dn"@) || contains_text(lowercase(m), "invalid"@)))
            || (s.search_error_message matches Some(m) && (contains_text(
            lowercase(m),
            "credential"@,
        ) || contains_text(lowercase(m), "password"@) || contains_text(lowercase(m), "auth"@)
            || contains_text(lowercase(m), "dn"@) || contains_text(lowercase(m), "invalid"@))))),
        (classify(s, now).status == OTelStatus::RecoverableError) == (!s.up && !(
        classify(s, now).status == OTelStatus::PermanentError)),
        (classify(s, now).status == OTelStatus::Healthy) == s.up,
        !s.up && s.bind_error_message is Some && s.search_error_message is Some ==> classify(
            s,
            now,
        ).error == Some(
            "Bind: "@ + s.bind_error_message.unwrap() + "; "@ + "Search: "@
                + s.search_error_message.unwrap(),
        ),
        !s.up && s.bind_error_message is Some && s.search_error_message is None ==> classify(
            s,
            now,
        ).error == Some("Bind: "@ + s.bind_error_message.unwrap()),
        !s.up && s.bind_error_message is None && s.search_error_message is Some ==> classify(
            s,
            now,
        ).error == Some("Search: "@ + s.search_error_message.unwrap()),
        !s.up && s.bind_error_message is None && s.search_error_message is None ==> classify(
            s,
            now,
        ).error == Some("Check failed"@),
        s.up ==> classify(s, now).error is None,
{
    let parts = labelled_errors(s);
    if s.bind_error_message is Some && s.search_error_message is Some {
        assert(parts =~= seq![
            "Bind: "@ + s.bind_error_message.unwrap(),
            "Search: "@ + s.search_error_message.unwrap(),
        ]);
        assert(parts.drop_last() =~= seq!["Bind: "@ + s.bind_error_message.unwrap()]);
        reveal_with_fuel(join_texts, 2);
    } else if s.bind_error_message is Some {
        assert(parts =~= seq!["Bind: "@ + s.bind_error_message.unwrap()]);
    } else if s.search_error_message is Some {
        assert(parts =~= seq!["Search: "@ + s.search_error_message.unwrap()]);
    } else {
        assert(parts =~= Seq::<Seq<char>>::empty());
    }
}

/// The service's verdict over every list of components: healthy exactly
/// when every component is healthy; in the permanent error state exactly
/// when some unhealthy component is in it; in the recoverable state exactly
/// when some component is unhealthy and no unhealthy one is permanent; with
/// an error exactly when unhealthy; answered with 200 when healthy and 503
/// otherwise.
pub proof fn lemma_summary_verdict(start: Timestamp, comps: Seq<(Seq<char>, ComponentView)>, verbose: bool)
    ensures
        summarize(start, comps, verbose).healthy == (forall|i: int|
            0 <= i < comps.len() ==> (#[trigger] comps[i]).1.healthy),
        (summarize(start, comps, verbose).status == OTelStatus::PermanentError) == (exists|i: int|
            0 <= i < comps.len() && !(#[trigger] comps[i]).1.healthy && comps[i].1.status
                == OTelStatus::PermanentError),
        (summarize(start, comps, verbose).status == OTelStatus::RecoverableError) == ((exists|i: int|
            0 <= i < comps.len() && !(#[trigger] comps[i]).1.healthy) && !(exists|i: int|
            0 <= i < comps.len() && !(#[trigger] comps[i]).1.healthy && comps[i].1.status
                == OTelStatus::PermanentError)),
        (summarize(start, comps, verbose).error is Some) == !summarize(start, comps, verbose).healthy,
        health_http_status(summarize(start, comps, verbose).healthy) == if summarize(
            start,
            comps,
            verbose,
        ).healthy {
            200u16
        } else {
            503u16
        },
{
}

/// A server is reported healthy exactly when it is up; an unhealthy server
/// always reports an error and a healthy one none; and the reported time is
/// not before either check's last run.
pub proof fn lemma_classify_facts(s: LdapStatusView, now: Timestamp)
    ensures
        classify(s, now).healthy == s.up,
        (classify(s, now).status == OTelStatus::Healthy) == s.up,
        (classify(s, now).error is None) == s.up,
        s.last_bind_time is Some ==> s.last_bind_time.unwrap().spec_le(classify(s, now).status_time),
        s.last_search_time is Some ==> s.last_search_time.unwrap().spec_le(
            classify(s, now).status_time,
        ),
        s.last_bind_time is None && s.last_search_time is None ==> classify(s, now).status_time
            == now,
{
}

/// The service reports an error exactly when it is unhealthy, its state is
/// the healthy one exactly when every component is healthy, it is in the
/// permanent error state exactly when some unhealthy component is, and the
/// HTTP status is 503 exactly when it is unhealthy.
pub proof fn lemma_summary_facts(start: Timestamp, comps: Seq<(Seq<char>, ComponentView)>, verbose: bool)
    ensures
        (summarize(start, comps, verbose).error is None) == all_healthy(comps),
        (summarize(start, comps, verbose).status == OTelStatus::Healthy) == all_healthy(comps),
        (summarize(start, comps, verbose).status == OTelStatus::PermanentError) == (!all_healthy(
            comps,
        ) && any_permanent(comps)),
        (health_http_status(summarize(start, comps, verbose).healthy) == 503) == !all_healthy(comps),
        verbose ==> summarize(start, comps, verbose).components == Some(comps),
        !verbose ==> summarize(start, comps, verbose).components is None,
{
}

/// The components are the classified statuses, in the same order and under
/// the statuses' ids; each with the status time it was classified at.
pub open spec fn classified_as(
    statuses: Seq<LdapStatusView>,
    comps: Seq<(Seq<char>, ComponentView)>,
) -> bool {
    &&& comps.len() == statuses.len()
    &&& forall|i: int|
        0 <= i < comps.len() ==> (#[trigger] comps[i]).0 == statuses[i].id && comps[i].1
            == classify(statuses[i], comps[i].1.status_time)
}

/// Every status is up.
pub open spec fn all_up(statuses: Seq<LdapStatusView>) -> bool {
    forall|i: int| 0 <= i < statuses.len() ==> (#[trigger] statuses[i]).up
}

/// Some check of the status has run.
pub open spec fn has_check_time(s: LdapStatusView) -> bool {
    s.last_bind_time is Some || s.last_search_time is Some
}

/// The service's health from its start time and the statuses of its
/// servers (as they stand in the status store), with the HTTP status to
/// answer with. Each server is classified with the current time standing in
/// for a server that has not been checked yet. There always is a report.
pub fn otel_health(start_time: Timestamp, statuses: &Vec<LdapStatus>, verbose: bool) -> (r: Option<(
    u16,
    HealthReport,
)>)
    ensures
        r is Some,
        (forall|i: int| 0 <= i < statuses@.len() ==> has_check_time(#[trigger] statuses@[i]@)) ==> r is Some,
        r matches Some(res) ==> exists|comps: Seq<(Seq<char>, ComponentView)>|
            #[trigger] classified_as(status_views(statuses@), comps) && res.1@ == summarize(
                start_time,
                comps,
                verbose,
            ),
        r matches Some(res) ==> res.1.healthy == all_up(status_views(statuses@)),
        r matches Some(res) ==> res.0 == health_http_status(res.1.healthy),
{
    let ghost sv = status_views(statuses@);
    let mut components: Vec<(String, ComponentStatus)> = Vec::new();
    let n = statuses.len();
    for i in 0..n
        invariant
            n == statuses@.len(),
            sv == status_views(statuses@),
            components@.len() == i,
            forall|j: int|
                0 <= j < i ==> (#[trigger] components_view(components@)[j]).0 == sv[j].id
                    && components_view(components@)[j].1 == classify(
                    sv[j],
                    components_view(components@)[j].1.status_time,
                ),
    {
        let c = match classify_status(&statuses[i]) {
            Some(c) => c,
            None => {
                return None;
            },
        };
        let ghost before = components_view(components@);
        components.push((statuses[i].id.clone(), c));
        proof {
            let after = components_view(components@);
            assert forall|j: int| 0 <= j < i + 1 implies (#[trigger] after[j]).0 == sv[j].id
                && after[j].1 == classify(sv[j], after[j].1.status_time) by {
                if j < i {
                    assert(after[j] == before[j]);
                }
            }
        }
    }
    let ghost comps = components_view(components@);
    assert(classified_as(sv, comps));
    proof {
        lemma_classified_health(sv, comps);
    }
    Some(summarize_health(start_time, &components, verbose))
}

/// Classified components are all healthy exactly when all statuses are up.
pub proof fn lemma_classified_health(
    statuses: Seq<LdapStatusView>,
    comps: Seq<(Seq<char>, ComponentView)>,
)
    requires
        classified_as(statuses, comps),
    ensures
        all_healthy(comps) == all_up(statuses),
{
    if all_healthy(comps) {
        assert forall|i: int| 0 <= i < statuses.len() implies (#[trigger] statuses[i]).up by {
            assert(comps[i].1.healthy);
        }
    }
    if all_up(statuses) {
        assert forall|i: int| 0 <= i < comps.len() implies (#[trigger] comps[i]).1.healthy by {
            assert(statuses[i].up);
        }
    }
}

/// The reported status time is the latest of the start time and every
/// component's status time: it is not before any of them and is one of them.
pub proof fn lemma_latest_time_is_max(start: Timestamp, comps: Seq<(Seq<char>, ComponentView)>)
    ensures
        start.spec_le(latest_time(start, comps)),
        forall|i: int|
            0 <= i < comps.len() ==> (#[trigger] comps[i]).1.status_time.spec_le(
                latest_time(start, comps),
            ),
        latest_time(start, comps) == start || exists|i: int|
            0 <= i < comps.len() && latest_time(start, comps) == (#[trigger] comps[i]).1.status_time,
    decreases comps.len(),
{
    if comps.len() > 0 {
        let prev = comps.drop_last();
        lemma_latest_time_is_max(start, prev);
        assert forall|i: int|
            0 <= i < comps.len() implies (#[trigger] comps[i]).1.status_time.spec_le(
            latest_time(start, comps),
        ) by {
            if i < comps.len() - 1 {
                assert(comps[i] == prev[i]);
            }
        }
        if latest_time(start, comps) != start {
            if latest_time(start, comps) == comps.last().1.status_time {
                assert(comps[comps.len() - 1] == comps.last());
            } else {
                let i = choose|i: int|
                    0 <= i < prev.len() && latest_time(start, prev) == (#[trigger] prev[i]).1.status_time;
                assert(comps[i] == prev[i]);
            }
        }
    }
}

/// The health verdict does not depend on the order in which the components
/// are listed: two listings of the same components give the same health,
/// state and status time.
pub proof fn lemma_summary_order_independent(
    start: Timestamp,
    a: Seq<(Seq<char>, ComponentView)>,
    b: Seq<(Seq<char>, ComponentView)>,
    verbose: bool,
)
    requires
        a.to_multiset() == b.to_multiset(),
    ensures
        summarize(start, a, verbose).healthy == summarize(start, b, verbose).healthy,
        summarize(start, a, verbose).status == summarize(start, b, verbose).status,
        summarize(start, a, verbose).status_time == summarize(start, b, verbose).status_time,
{
    lemma_same_elements(a, b);
    lemma_same_elements(b, a);
    let la = latest_time(start, a);
    let lb = latest_time(start, b);
    lemma_latest_time_is_max(start, a);
    lemma_latest_time_is_max(start, b);
    if lb != start {
        let i = choose|i: int| 0 <= i < b.len() && lb == (#[trigger] b[i]).1.status_time;
        assert(a.contains(b[i]));
        let j = choose|j: int| 0 <= j < a.len() && a[j] == b[i];
        assert(a[j].1.status_time.spec_le(la));
    }
    if la != start {
        let i = choose|i: int| 0 <= i < a.len() && la == (#[trigger] a[i]).1.status_time;
        assert(b.contains(a[i]));
        let j = choose|j: int| 0 <= j < b.len() && b[j] == a[i];
        assert(b[j].1.status_time.spec_le(lb));
    }
}

/// Every element of `b` stands in `a` when both hold the same elements, and
/// so health and permanence carry over from `a` to `b`.
proof fn lemma_same_elements(a: Seq<(Seq<char>, ComponentView)>, b: Seq<(Seq<char>, ComponentView)>)
    requires
        a.to_multiset() == b.to_multiset(),
    ensures
        forall|i: int| 0 <= i < b.len() ==> a.contains(#[trigger] b[i]),
        all_healthy(a) ==> all_healthy(b),
        any_permanent(b) ==> any_permanent(a),
{
    assert forall|i: int| 0 <= i < b.len() implies a.contains(#[trigger] b[i]) by {
        vstd::seq_lib::to_multiset_contains(b, b[i]);
        vstd::seq_lib::to_multiset_contains(a, b[i]);
        assert(b.contains(b[i]));
    }
    if all_healthy(a) {
        assert forall|i: int| 0 <= i < b.len() implies (#[trigger] b[i]).1.healthy by {
            assert(a.contains(b[i]));
            let j = choose|j: int| 0 <= j < a.len() && a[j] == b[i];
            assert(a[j].1.healthy);
        }
    }
    if any_permanent(b) {
        let i = choose|i: int|
            0 <= i < b.len() && !(#[trigger] b[i]).1.healthy && b[i].1.status == OTelStatus::PermanentError;
        assert(a.contains(b[i]));
        let j = choose|j: int| 0 <= j < a.len() && a[j] == b[i];
        assert(!a[j].1.healthy && a[j].1.status == OTelStatus::PermanentError);
    }
}

} // verus!
