use vstd::prelude::*;

use crate::config::{Config, LdapTargetConfig, LdapTargetView};
use crate::status::{
    after_bind, after_search, initial_status, lemma_record_frames, outcome_view, LdapStatus,
    LdapStatusView,
};
use crate::probe::CheckKind;
use crate::time::{utc_now, Timestamp};

verus! {

/// A check loop to run: which target (by position in the configuration),
/// which kind of check, and how many seconds to wait between two runs.
#[derive(Clone, Copy, Debug, PartialEq, Eq, Structural)]
pub struct MonitorTask {
    pub target: usize,
    pub kind: CheckKind,
    pub interval_secs: u64,
}

/// The loops a configuration asks for: for each target in order, a bind
/// loop, followed by a search loop when the target configures a search.
pub open spec fn tasks_for(targets: Seq<LdapTargetView>) -> Seq<MonitorTask>
    decreases targets.len(),
{
    if targets.len() == 0 {
        Seq::empty()
    } else {
        let i = (targets.len() - 1) as usize;
        let t = targets.last();
        tasks_for(targets.drop_last()) + seq![
            MonitorTask { target: i, kind: CheckKind::Bind, interval_secs: t.bind_interval_secs },
        ] + if t.search_check is Some {
            seq![MonitorTask { target: i, kind: CheckKind::Search, interval_secs: t.search_interval_secs }]
        } else {
            Seq::empty()
        }
    }
}

/// The check loops to start for a configuration.
pub fn monitor_tasks(config: &Config) -> (tasks: Vec<MonitorTask>)
    ensures
        tasks@ == tasks_for(config@.ldaps),
{
    let ghost targets = config@.ldaps;
    let mut tasks: Vec<MonitorTask> = Vec::new();
    let n = config.ldaps.len();
    for i in 0..n
        invariant
            n == config.ldaps@.len(),
            targets == config@.ldaps,
            tasks@ == tasks_for(targets.take(i as int)),
    {
        let t = &config.ldaps[i];
        assert(targets.take(i + 1).drop_last() =~= targets.take(i as int));
        assert(targets.take(i + 1).last() == t@);
        tasks.push(MonitorTask { target: i, kind: CheckKind::Bind, interval_secs: t.bind_interval_secs });
        if t.search_check.is_some() {
            tasks.push(
                MonitorTask { target: i, kind: CheckKind::Search, interval_secs: t.search_interval_secs },
            );
        }
        assert(tasks@ =~= tasks_for(targets.take(i + 1)));
    }
    assert(targets.take(n as int) =~= targets);
    tasks
}

/// Every target gets a bind loop at its bind interval; it gets a search loop,
/// at its search interval, exactly when it configures a search; and no loop
/// names a target that is not configured.
pub proof fn lemma_tasks_cover(targets: Seq<LdapTargetView>)
    requires
        targets.len() <= usize::MAX,
    ensures
        forall|t: MonitorTask| #[trigger] tasks_for(targets).contains(t) ==> t.target < targets.len(),
        forall|i: int|
            0 <= i < targets.len() ==> tasks_for(targets).contains(
                MonitorTask {
                    target: i as usize,
                    kind: CheckKind::Bind,
                    interval_secs: (#[trigger] targets[i]).bind_interval_secs,
                },
            ),
        forall|i: int|
            0 <= i < targets.len() ==> (tasks_for(targets).contains(
                MonitorTask {
                    target: i as usize,
                    kind: CheckKind::Search,
                    interval_secs: (#[trigger] targets[i]).search_interval_secs,
                },
            ) <==> targets[i].search_check is Some),
        forall|t: MonitorTask|
            #[trigger] tasks_for(targets).contains(t) && t.kind == CheckKind::Search
                ==> targets[t.target as int].search_check is Some,
    decreases targets.len(),
{
    if targets.len() > 0 {
        let prev = targets.drop_last();
        let k = targets.len() - 1;
        let last = targets.last();
        lemma_tasks_cover(prev);
        let bind_task = MonitorTask { target: k as usize, kind: CheckKind::Bind, interval_secs: last.bind_interval_secs };
        let search_part: Seq<MonitorTask> = if last.search_check is Some {
            seq![MonitorTask { target: k as usize, kind: CheckKind::Search, interval_secs: last.search_interval_secs }]
        } else {
            Seq::empty()
        };
        let all = tasks_for(targets);
        assert(all == tasks_for(prev) + seq![bind_task] + search_part);
        let pl = tasks_for(prev).len();
        assert forall|t: MonitorTask| #[trigger] all.contains(t) implies t.target < targets.len()
            && (t.kind == CheckKind::Search ==> targets[t.target as int].search_check is Some) by {
            let j = choose|j: int| 0 <= j < all.len() && all[j] == t;
            if j < pl {
                assert(tasks_for(prev).contains(all[j]));
                assert(targets[t.target as int] == prev[t.target as int]);
            }
        }
        assert forall|i: int| 0 <= i < targets.len() implies all.contains(
            MonitorTask { target: i as usize, kind: CheckKind::Bind, interval_secs: (#[trigger] targets[i]).bind_interval_secs },
        ) by {
            if i < k {
                assert(prev[i] == targets[i]);
                let t = MonitorTask { target: i as usize, kind: CheckKind::Bind, interval_secs: prev[i].bind_interval_secs };
                assert(tasks_for(prev).contains(t));
                let j = choose|j: int| 0 <= j < pl && tasks_for(prev)[j] == t;
                assert(all[j] == t);
            } else {
                assert(all[pl as int] == bind_task);
            }
        }
        assert forall|i: int| 0 <= i < targets.len() implies (all.contains(
            MonitorTask { target: i as usize, kind: CheckKind::Search, interval_secs: (#[trigger] targets[i]).search_interval_secs },
        ) <==> targets[i].search_check is Some) by {
            let t = MonitorTask { target: i as usize, kind: CheckKind::Search, interval_secs: targets[i].search_interval_secs };
            if i < k {
                assert(prev[i] == targets[i]);
                if tasks_for(prev).contains(t) {
                    let j = choose|j: int| 0 <= j < pl && tasks_for(prev)[j] == t;
                    assert(all[j] == t);
                }
                if all.contains(t) {
                    let j = choose|j: int| 0 <= j < all.len() && all[j] == t;
                    if j < pl {
                        assert(tasks_for(prev).contains(all[j]));
                    }
                }
            } else {
                if last.search_check is Some {
                    assert(all[pl as int + 1] == t);
                }
            }
        }
    }
}

/// No two statuses in the sequence share an id.
pub open spec fn ids_unique(s: Seq<LdapStatusView>) -> bool {
    forall|i: int, j: int| 0 <= i < j < s.len() ==> s[i].id != s[j].id
}

/// The statuses keyed by their ids (a later status wins over an earlier one
/// with the same id).
pub open spec fn statuses_map(s: Seq<LdapStatusView>) -> Map<Seq<char>, LdapStatusView>
    decreases s.len(),
{
    if s.len() == 0 {
        Map::empty()
    } else {
        statuses_map(s.drop_last()).insert(s.last().id, s.last())
    }
}

/// The statuses that a configuration starts with: for each target id, the
/// initial status of the last target with that id.
pub open spec fn statuses_for(targets: Seq<LdapTargetView>) -> Map<Seq<char>, LdapStatusView>
    decreases targets.len(),
{
    if targets.len() == 0 {
        Map::empty()
    } else {
        statuses_for(targets.drop_last()).insert(targets.last().id, initial_status(targets.last()))
    }
}

/// The statuses a configuration starts with: one per configured id, each
/// the initial status of the last target with that id, and each down.
pub proof fn lemma_statuses_for(targets: Seq<LdapTargetView>)
    ensures
        forall|k: Seq<char>|
            #[trigger] statuses_for(targets).contains_key(k) <==> exists|j: int|
                0 <= j < targets.len() && targets[j].id == k,
        forall|k: Seq<char>|
            #[trigger] statuses_for(targets).contains_key(k) ==> exists|j: int|
                0 <= j < targets.len() && targets[j].id == k && statuses_for(targets)[k]
                    == initial_status(targets[j]) && forall|l: int|
                    j < l < targets.len() ==> targets[l].id != k,
        forall|k: Seq<char>|
            #[trigger] statuses_for(targets).contains_key(k) ==> !statuses_for(targets)[k].up
                && statuses_for(targets)[k].consistent(),
    decreases targets.len(),
{
    if targets.len() > 0 {
        let prev = targets.drop_last();
        let n = targets.len() - 1;
        lemma_statuses_for(prev);
        let m = statuses_for(targets);
        assert forall|k: Seq<char>| #[trigger] m.contains_key(k) <==> exists|j: int|
            0 <= j < targets.len() && targets[j].id == k by {
            if m.contains_key(k) && k != targets.last().id {
                assert(statuses_for(prev).contains_key(k));
                let j = choose|j: int| 0 <= j < prev.len() && prev[j].id == k;
                assert(targets[j] == prev[j]);
            }
            if m.contains_key(k) && k == targets.last().id {
                assert(targets[n] == targets.last());
            }
            if exists|j: int| 0 <= j < targets.len() && targets[j].id == k {
                let j = choose|j: int| 0 <= j < targets.len() && targets[j].id == k;
                if j < n {
                    assert(prev[j] == targets[j]);
                    assert(statuses_for(prev).contains_key(k));
                }
            }
        }
        assert forall|k: Seq<char>| #[trigger] m.contains_key(k) implies exists|j: int|
            0 <= j < targets.len() && targets[j].id == k && m[k] == initial_status(targets[j])
                && forall|l: int| j < l < targets.len() ==> targets[l].id != k by {
            if k == targets.last().id {
                assert(targets[n] == targets.last());
            } else {
                assert(statuses_for(prev).contains_key(k));
                let j = choose|j: int|
                    0 <= j < prev.len() && prev[j].id == k && statuses_for(prev)[k] == initial_status(
                        prev[j],
                    ) && forall|l: int| j < l < prev.len() ==> prev[l].id != k;
                assert(targets[j] == prev[j]);
                assert forall|l: int| j < l < targets.len() implies targets[l].id != k by {
                    if l < n {
                        assert(targets[l] == prev[l]);
                    }
                }
            }
        }
        assert forall|k: Seq<char>| #[trigger] m.contains_key(k) implies !m[k].up && m[k].consistent() by {
            if k != targets.last().id {
                assert(statuses_for(prev).contains_key(k));
            }
        }
    }
}

/// Every status in the map has an `up` flag that agrees with its checks.
pub open spec fn all_consistent(m: Map<Seq<char>, LdapStatusView>) -> bool {
    forall|id: Seq<char>| #[trigger] m.contains_key(id) ==> m[id].consistent()
}

/// Every status in the map has bind fields and search fields that hang
/// together.
pub open spec fn all_coherent(m: Map<Seq<char>, LdapStatusView>) -> bool {
    forall|id: Seq<char>| #[trigger] m.contains_key(id) ==> m[id].coherent()
}

/// The URL of the last target in the list with this id (empty when none has it).
pub open spec fn last_url(targets: Seq<LdapTargetView>, id: Seq<char>) -> Seq<char>
    decreases targets.len(),
{
    if targets.len() == 0 {
        Seq::empty()
    } else if targets.last().id == id {
        targets.last().url
    } else {
        last_url(targets.drop_last(), id)
    }
}

/// The statuses belong to these targets: there is one exactly for each
/// configured id, it is kept under its own id, and it carries the URL of the
/// last target with that id.
pub open spec fn matches_config(m: Map<Seq<char>, LdapStatusView>, targets: Seq<LdapTargetView>) -> bool {
    &&& forall|k: Seq<char>|
        #[trigger] m.contains_key(k) <==> exists|j: int| 0 <= j < targets.len() && targets[j].id == k
    &&& forall|k: Seq<char>| #[trigger] m.contains_key(k) ==> m[k].id == k && m[k].url == last_url(targets, k)
}

/// The statuses a configuration starts with belong to its targets.
pub proof fn lemma_statuses_for_matches(targets: Seq<LdapTargetView>)
    ensures
        matches_config(statuses_for(targets), targets),
    decreases targets.len(),
{
    lemma_statuses_for(targets);
    if targets.len() > 0 {
        let prev = targets.drop_last();
        lemma_statuses_for_matches(prev);
        let m = statuses_for(targets);
        assert forall|k: Seq<char>| #[trigger] m.contains_key(k) implies m[k].id == k && m[k].url
            == last_url(targets, k) by {
            if k != targets.last().id {
                assert(statuses_for(prev).contains_key(k));
            }
        }
    }
}

/// Replacing a kept status by one with the same id and URL keeps the
/// statuses belonging to the same targets.
pub proof fn lemma_replace_keeps_match(
    m: Map<Seq<char>, LdapStatusView>,
    targets: Seq<LdapTargetView>,
    k: Seq<char>,
    v: LdapStatusView,
)
    requires
        matches_config(m, targets),
        m.contains_key(k),
        v.id == m[k].id,
        v.url == m[k].url,
    ensures
        matches_config(m.insert(k, v), targets),
{
    let n = m.insert(k, v);
    assert forall|k2: Seq<char>| #[trigger] n.contains_key(k2) <==> m.contains_key(k2) by {}
    assert forall|k2: Seq<char>| #[trigger] n.contains_key(k2) implies n[k2].id == k2 && n[k2].url
        == last_url(targets, k2) by {
        assert(m.contains_key(k2));
    }
    assert forall|k2: Seq<char>| #[trigger] n.contains_key(k2) <==> exists|j: int|
        0 <= j < targets.len() && targets[j].id == k2 by {
        assert(n.contains_key(k2) == m.contains_key(k2));
    }
}

/// The models of a vector of statuses.
pub open spec fn status_views(v: Seq<LdapStatus>) -> Seq<LdapStatusView> {
    v.map_values(|s: LdapStatus| s@)
}

/// The keys of the map are exactly the ids in the sequence.
pub proof fn lemma_statuses_map_dom(s: Seq<LdapStatusView>)
    ensures
        forall|k: Seq<char>|
            statuses_map(s).contains_key(k) <==> exists|i: int| 0 <= i < s.len() && #[trigger] s[i].id == k,
    decreases s.len(),
{
    if s.len() > 0 {
        lemma_statuses_map_dom(s.drop_last());
        assert forall|k: Seq<char>|
            statuses_map(s).contains_key(k) <==> exists|i: int| 0 <= i < s.len() && #[trigger] s[i].id == k
        by {
            if statuses_map(s).contains_key(k) && k != s.last().id {
                assert(statuses_map(s.drop_last()).contains_key(k));
                let i = choose|i: int| 0 <= i < s.drop_last().len() && #[trigger] s.drop_last()[i].id == k;
                assert(s[i].id == k);
            }
            if exists|i: int| 0 <= i < s.len() && #[trigger] s[i].id == k {
                let i = choose|i: int| 0 <= i < s.len() && #[trigger] s[i].id == k;
                if i < s.len() - 1 {
                    assert(s.drop_last()[i].id == k);
                    assert(statuses_map(s.drop_last()).contains_key(k));
                }
            }
        }
    }
}

/// With distinct ids, each status is what the map holds under its id.
pub proof fn lemma_statuses_map_value(s: Seq<LdapStatusView>, i: int)
    requires
        ids_unique(s),
        0 <= i < s.len(),
    ensures
        statuses_map(s).contains_key(s[i].id),
        statuses_map(s)[s[i].id] == s[i],
    decreases s.len(),
{
    if i < s.len() - 1 {
        lemma_statuses_map_value(s.drop_last(), i);
        assert(s.drop_last()[i] == s[i]);
    }
}

/// Replacing a status by one with the same id replaces it in the map.
pub proof fn lemma_statuses_map_update(s: Seq<LdapStatusView>, i: int, v: LdapStatusView)
    requires
        ids_unique(s),
        0 <= i < s.len(),
        v.id == s[i].id,
    ensures
        statuses_map(s.update(i, v)) == statuses_map(s).insert(v.id, v),
    decreases s.len(),
{
    let t = s.update(i, v);
    if i == s.len() - 1 {
        assert(t.drop_last() =~= s.drop_last());
        assert(statuses_map(t) =~= statuses_map(s).insert(v.id, v));
    } else {
        assert(t.drop_last() =~= s.drop_last().update(i, v));
        lemma_statuses_map_update(s.drop_last(), i, v);
        assert(statuses_map(t) =~= statuses_map(s).insert(v.id, v));
    }
}

/// Appending a status with a new id adds it to the map.
pub proof fn lemma_statuses_map_push(s: Seq<LdapStatusView>, v: LdapStatusView)
    ensures
        statuses_map(s.push(v)) == statuses_map(s).insert(v.id, v),
{
    assert(s.push(v).drop_last() =~= s);
}

/// The statuses of the watched directory servers, keyed by target id.
pub struct StatusStore {
    entries: Vec<LdapStatus>,
    /// The targets of the configuration the store was last reset for.
    targets: Ghost<Seq<LdapTargetView>>,
}

impl View for StatusStore {
    type V = Map<Seq<char>, LdapStatusView>;

    closed spec fn view(&self) -> Map<Seq<char>, LdapStatusView> {
        statuses_map(status_views(self.entries@))
    }
}

impl StatusStore {
    /// One status per id, each with an `up` flag that agrees with its
    /// checks and with fields that hang together.
    closed spec fn entries_ok(&self) -> bool {
        &&& ids_unique(status_views(self.entries@))
        &&& forall|i: int|
            0 <= i < self.entries@.len() ==> (#[trigger] self.entries@[i])@.consistent()
                && self.entries@[i]@.coherent()
    }

    /// The store's invariant: its statuses are well kept and belong to the
    /// targets of the configuration it was last reset for.
    pub closed spec fn well_formed(&self) -> bool {
        &&& self.entries_ok()
        &&& matches_config(self@, self.targets@)
    }

    /// The targets of the configuration the store was last reset for (none
    /// for a new store).
    pub closed spec fn configured_targets(&self) -> Seq<LdapTargetView> {
        self.targets@
    }

    /// What a well-formed store promises of every status it keeps: the `up`
    /// flag agrees with the checks; the bind fields, and the search fields,
    /// hang together; the status is kept under its own id; and there is one
    /// exactly for each id of the last configuration, carrying the URL of
    /// the last target with that id.
    pub proof fn lemma_well_formed_facts(&self)
        requires
            self.well_formed(),
        ensures
            all_consistent(self@),
            all_coherent(self@),
            matches_config(self@, self.configured_targets()),
    {
        let sv = status_views(self.entries@);
        lemma_statuses_map_dom(sv);
        assert forall|id: Seq<char>| #[trigger] self@.contains_key(id) implies self@[id].consistent()
            && self@[id].coherent() by {
            let i = choose|i: int| 0 <= i < sv.len() && #[trigger] sv[i].id == id;
            lemma_statuses_map_value(sv, i);
            assert(sv[i] == self.entries@[i]@);
        }
    }

    /// An empty store.
    pub fn new() -> (store: StatusStore)
        ensures
            store.well_formed(),
            store@ == Map::<Seq<char>, LdapStatusView>::empty(),
            store.configured_targets() == Seq::<LdapTargetView>::empty(),
    {
        let store = StatusStore { entries: Vec::new(), targets: Ghost(Seq::empty()) };
        assert(status_views(store.entries@) =~= Seq::<LdapStatusView>::empty());
        store
    }

    /// Number of watched targets.
    pub fn len(&self) -> (n: usize)
        requires
            self.well_formed(),
        ensures
            n == self@.dom().len(),
    {
        proof {
            let sv = status_views(self.entries@);
            lemma_statuses_map_dom(sv);
            lemma_dom_len(sv);
        }
        self.entries.len()
    }

    /// Position of the status with this id, if any.
    fn position(&self, id: &String) -> (pos: Option<usize>)
        requires
            self.entries_ok(),
        ensures
            match pos {
                Some(i) => i < self.entries@.len() && self.entries@[i as int].id@ == id@,
                None => forall|i: int| 0 <= i < self.entries@.len() ==> self.entries@[i].id@ != id@,
            },
    {
        let n = self.entries.len();
        for i in 0..n
            invariant
                n == self.entries@.len(),
                forall|j: int| 0 <= j < i ==> self.entries@[j].id@ != id@,
        {
            if self.entries[i].id == *id {
                return Some(i);
            }
        }
        None
    }

    /// A copy of the status kept for `id`, if there is one.
    pub fn get(&self, id: &String) -> (s: Option<LdapStatus>)
        requires
            self.well_formed(),
        ensures
            match s {
                Some(st) => self@.contains_key(id@) && st@ == self@[id@],
                None => !self@.contains_key(id@),
            },
    {
        let ghost sv = status_views(self.entries@);
        proof {
            lemma_statuses_map_dom(sv);
        }
        match self.position(id) {
            Some(i) => {
                proof {
                    lemma_statuses_map_value(sv, i as int);
                    assert(sv[i as int] == self.entries@[i as int]@);
                }
                Some(self.entries[i].duplicate())
            },
            None => {
                proof {
                    assert forall|j: int| 0 <= j < sv.len() implies sv[j].id != id@ by {
                        assert(sv[j] == self.entries@[j]@);
                    }
                }
                None
            },
        }
    }

    /// A copy of all statuses, one per id, in no promised order.
    pub fn snapshot(&self) -> (v: Vec<LdapStatus>)
        requires
            self.well_formed(),
        ensures
            ids_unique(status_views(v@)),
            statuses_map(status_views(v@)) == self@,
            forall|i: int|
                0 <= i < v@.len() ==> (#[trigger] v@[i])@.consistent() && v@[i]@.coherent(),
    {
        let mut v: Vec<LdapStatus> = Vec::new();
        let n = self.entries.len();
        for i in 0..n
            invariant
                n == self.entries@.len(),
                v@.len() == i,
                forall|j: int| 0 <= j < i ==> (#[trigger] v@[j])@ == self.entries@[j]@,
        {
            v.push(self.entries[i].duplicate());
        }
        assert(status_views(v@) =~= status_views(self.entries@));
        v
    }

    /// Starts over for a (new) configuration: the store then holds exactly
    /// one initial status per configured target id, where a later target
    /// with the same id wins; statuses of targets no longer configured are
    /// dropped.
    pub fn reset_for_config(&mut self, config: &Config)
        requires
            old(self).well_formed(),
        ensures
            final(self).well_formed(),
            final(self)@ == statuses_for(config@.ldaps),
            final(self).configured_targets() == config@.ldaps,
            all_consistent(final(self)@),
            all_coherent(final(self)@),
    {
        let mut fresh = StatusStore::new();
        let n = config.ldaps.len();
        let ghost targets = config@.ldaps;
        for i in 0..n
            invariant
                n == config.ldaps@.len(),
                targets == config@.ldaps,
                fresh.entries_ok(),
                fresh@ == statuses_for(targets.take(i as int)),
        {
            let target: &LdapTargetConfig = &config.ldaps[i];
            let status = LdapStatus::initial(target);
            assert(targets[i as int] == target@);
            assert(targets.take(i + 1).drop_last() =~= targets.take(i as int));
            fresh.put(status);
        }
        assert(targets.take(n as int) =~= targets);
        fresh.targets = Ghost(targets);
        proof {
            lemma_statuses_for_matches(targets);
        }
        *self = fresh;
        proof {
            self.lemma_well_formed_facts();
        }
    }

    /// Inserts a status, replacing the one with the same id if any.
    fn put(&mut self, status: LdapStatus)
        requires
            old(self).entries_ok(),
            status@.consistent(),
            status@.coherent(),
        ensures
            final(self).entries_ok(),
            final(self)@ == old(self)@.insert(status@.id, status@),
            final(self).targets == old(self).targets,
    {
        let ghost sv = status_views(self.entries@);
        let ghost v = status@;
        match self.position(&status.id) {
            Some(i) => {
                self.entries.set(i, status);
                proof {
                    assert(sv[i as int].id == v.id);
                    lemma_statuses_map_update(sv, i as int, v);
                    assert(status_views(self.entries@) =~= sv.update(i as int, v));
                }
            },
            None => {
                self.entries.push(status);
                proof {
                    lemma_statuses_map_push(sv, v);
                    assert(status_views(self.entries@) =~= sv.push(v));
                    assert forall|j: int| 0 <= j < sv.len() implies sv[j].id != v.id by {
                        assert(sv[j] == old(self).entries@[j]@);
                    }
                }
            },
        }
    }

    /// Records a finished bind check of target `id` at `at`; a target that
    /// is not in the store is ignored.
    pub fn record_bind_check_at(
        &mut self,
        id: &String,
        at: Timestamp,
        latency_ms: u64,
        outcome: Result<(), String>,
    )
        requires
            old(self).well_formed(),
        ensures
            final(self).well_formed(),
            old(self)@.contains_key(id@) ==> final(self)@ == old(self)@.insert(
                id@,
                after_bind(old(self)@[id@], at, latency_ms, outcome_view(outcome)),
            ),
            !old(self)@.contains_key(id@) ==> final(self)@ == old(self)@,
            final(self).configured_targets() == old(self).configured_targets(),
    {
        let ghost sv = status_views(self.entries@);
        proof {
            lemma_statuses_map_dom(sv);
        }
        match self.position(id) {
            Some(i) => {
                proof {
                    lemma_statuses_map_value(sv, i as int);
                    assert(sv[i as int] == self.entries@[i as int]@);
                }
                let mut status = self.entries[i].duplicate();
                status.record_bind(at, latency_ms, outcome);
                proof {
                    lemma_record_frames(old(self)@[id@], at, latency_ms, outcome_view(outcome));
                }
                let ghost v = status@;
                self.put(status);
                proof {
                    lemma_replace_keeps_match(old(self)@, self.targets@, id@, v);
                }
            },
            None => {
                proof {
                    assert forall|j: int| 0 <= j < sv.len() implies sv[j].id != id@ by {
                        assert(sv[j] == self.entries@[j]@);
                    }
                }
            },
        }
    }

    /// Records a finished search check of target `id` at `at`; a target
    /// that is not in the store is ignored.
    pub fn record_search_check_at(
        &mut self,
        id: &String,
        at: Timestamp,
        latency_ms: u64,
        outcome: Result<(), String>,
    )
        requires
            old(self).well_formed(),
        ensures
            final(self).well_formed(),
            old(self)@.contains_key(id@) ==> final(self)@ == old(self)@.insert(
                id@,
                after_search(old(self)@[id@], at, latency_ms, outcome_view(outcome)),
            ),
            !old(self)@.contains_key(id@) ==> final(self)@ == old(self)@,
            final(self).configured_targets() == old(self).configured_targets(),
    {
        let ghost sv = status_views(self.entries@);
        proof {
            lemma_statuses_map_dom(sv);
        }
        match self.position(id) {
            Some(i) => {
                proof {
                    lemma_statuses_map_value(sv, i as int);
                    assert(sv[i as int] == self.entries@[i as int]@);
                }
                let mut status = self.entries[i].duplicate();
                status.record_search(at, latency_ms, outcome);
                proof {
                    lemma_record_frames(old(self)@[id@], at, latency_ms, outcome_view(outcome));
                }
                let ghost v = status@;
                self.put(status);
                proof {
                    lemma_replace_keeps_match(old(self)@, self.targets@, id@, v);
                }
            },
            None => {
                proof {
                    assert forall|j: int| 0 <= j < sv.len() implies sv[j].id != id@ by {
                        assert(sv[j] == self.entries@[j]@);
                    }
                }
            },
        }
    }

    /// Whether a status is kept for `id`.
    pub fn contains(&self, id: &String) -> (b: bool)
        requires
            self.well_formed(),
        ensures
            b == self@.contains_key(id@),
    {
        let ghost sv = status_views(self.entries@);
        proof {
            lemma_statuses_map_dom(sv);
        }
        match self.position(id) {
            Some(i) => {
                assert(sv[i as int] == self.entries@[i as int]@);
                true
            },
            None => {
                assert forall|j: int| 0 <= j < sv.len() implies sv[j].id != id@ by {
                    assert(sv[j] == self.entries@[j]@);
                }
                false
            },
        }
    }

    /// Records a finished bind check of target `id`, stamped with the
    /// current time, when the target is in the store; a target that is not
    /// in the store is ignored. Always answers `true`.
    pub fn record_bind_check(&mut self, id: &String, latency_ms: u64, outcome: Result<(), String>) -> (recorded: bool)
        requires
            old(self).well_formed(),
        ensures
            recorded,
            final(self).well_formed(),
            final(self).configured_targets() == old(self).configured_targets(),
            recorded && old(self)@.contains_key(id@) ==> final(self)@.contains_key(id@) && final(self)@
                == old(self)@.insert(
                id@,
                after_bind(
                    old(self)@[id@],
                    final(self)@[id@].last_bind_time.unwrap(),
                    latency_ms,
                    outcome_view(outcome),
                ),
            ),
            !recorded ==> old(self)@.contains_key(id@),
            !recorded || !old(self)@.contains_key(id@) ==> final(self)@ == old(self)@,
    {
        if self.contains(id) {
            let at = utc_now();
            self.record_bind_check_at(id, at, latency_ms, outcome);
            true
        } else {
            true
        }
    }

    /// Records a finished search check of target `id`, stamped with the
    /// current time, when the target is in the store; a target that is not
    /// in the store is ignored. Always answers `true`.
    pub fn record_search_check(&mut self, id: &String, latency_ms: u64, outcome: Result<(), String>) -> (recorded: bool)
        requires
            old(self).well_formed(),
        ensures
            recorded,
            final(self).well_formed(),
            final(self).configured_targets() == old(self).configured_targets(),
            recorded && old(self)@.contains_key(id@) ==> final(self)@.contains_key(id@) && final(self)@
                == old(self)@.insert(
                id@,
                after_search(
                    old(self)@[id@],
                    final(self)@[id@].last_search_time.unwrap(),
                    latency_ms,
                    outcome_view(outcome),
                ),
            ),
            !recorded ==> old(self)@.contains_key(id@),
            !recorded || !old(self)@.contains_key(id@) ==> final(self)@ == old(self)@,
    {
        if self.contains(id) {
            let at = utc_now();
            self.record_search_check_at(id, at, latency_ms, outcome);
            true
        } else {
            true
        }
    }
}

/// The number of keys equals the number of statuses when ids are distinct.
proof fn lemma_dom_len(s: Seq<LdapStatusView>)
    requires
        ids_unique(s),
    ensures
        statuses_map(s).dom().finite(),
        statuses_map(s).dom().len() == s.len(),
    decreases s.len(),
{
    if s.len() > 0 {
        let t = s.drop_last();
        lemma_dom_len(t);
        lemma_statuses_map_dom(t);
        assert(!statuses_map(t).contains_key(s.last().id)) by {
            if statuses_map(t).contains_key(s.last().id) {
                let i = choose|i: int| 0 <= i < t.len() && #[trigger] t[i].id == s.last().id;
                assert(s[i].id == s[s.len() - 1].id);
            }
        }
    }
}

} // verus!
