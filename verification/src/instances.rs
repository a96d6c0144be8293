//! The connected Studio windows, tracked by their role-tagged polls.
//!
//! A window is known by its instance id, which reads `placeId|placeName`.

use crate::role::TargetRole;
use crate::text::{
    insert_sorted, same_text, split_once, split_once_spec, strictly_sorted, text_less,
    text_order_is_total, texts,
};
use crate::timing::{elapsed, elapsed_spec, INSTANCE_PRUNE_AFTER_SECS, ROLE_FRESHNESS};
use crate::binary64::NANOS_PER_SEC;
use vstd::prelude::*;

verus! {

/// An instance id as people read it: `0|Place1` becomes `Place1 (placeId 0)`.
pub open spec fn display_spec(id: Seq<char>) -> Seq<char> {
    match split_once_spec(id, '|') {
        Some((place_id, name)) => name + " (placeId "@ + place_id + ")"@,
        None => id,
    }
}

/// Writes an instance id for people.
pub fn instance_display(id: &str) -> (text: String)
    ensures
        text@ == display_spec(id@),
{
    match split_once(id, '|') {
        Some((place_id, name)) => {
            let mut text = name.to_owned();
            text.append(" (placeId ");
            text.append(place_id);
            text.append(")");
            text
        },
        None => id.to_owned(),
    }
}

/// One connected Studio window: when each of its DataModels last polled. The legacy role names no
/// DataModel and is never recorded.
#[derive(Clone, Copy, Debug)]
pub struct StudioInstance {
    pub edit: Option<u64>,
    pub server: Option<u64>,
    pub client: Option<u64>,
}

/// Whether a poll is recent enough to count as a connection.
pub open spec fn fresh_poll(poll: Option<u64>, now: u64) -> bool {
    poll matches Some(at) && elapsed_spec(now, at) < ROLE_FRESHNESS
}

/// The whole seconds since a poll.
pub open spec fn poll_age(at: u64, now: u64) -> u64 {
    elapsed_spec(now, at) / NANOS_PER_SEC
}

/// The lesser of two optional numbers, where there is one.
pub open spec fn lesser(a: Option<u64>, b: Option<u64>) -> Option<u64> {
    match (a, b) {
        (Some(x), Some(y)) => if x <= y {
            Some(x)
        } else {
            Some(y)
        },
        (Some(x), None) => Some(x),
        (None, y) => y,
    }
}

/// The age of an optional poll.
pub open spec fn age_of(poll: Option<u64>, now: u64) -> Option<u64> {
    match poll {
        Some(at) => Some(poll_age(at, now)),
        None => None,
    }
}

impl StudioInstance {
    /// When a role last polled.
    pub open spec fn last_poll(self, role: TargetRole) -> Option<u64> {
        match role {
            TargetRole::Edit => self.edit,
            TargetRole::Server => self.server,
            TargetRole::Client => self.client,
            TargetRole::Legacy => None,
        }
    }

    /// A window that has not polled yet.
    pub open spec fn unseen() -> StudioInstance {
        StudioInstance { edit: None, server: None, client: None }
    }

    /// The window after a poll.
    pub open spec fn polled(self, role: TargetRole, now: u64) -> StudioInstance {
        match role {
            TargetRole::Edit => StudioInstance { edit: Some(now), ..self },
            TargetRole::Server => StudioInstance { server: Some(now), ..self },
            TargetRole::Client => StudioInstance { client: Some(now), ..self },
            TargetRole::Legacy => self,
        }
    }

    /// Whether a role of the window is connected.
    pub open spec fn role_fresh_spec(self, role: TargetRole, now: u64) -> bool {
        fresh_poll(self.last_poll(role), now)
    }

    /// Whether any role of the window is connected.
    pub open spec fn any_role_fresh_spec(self, now: u64) -> bool {
        exists|role: TargetRole| self.role_fresh_spec(role, now)
    }

    /// The whole seconds since the window's most recent poll.
    pub open spec fn seconds_since_poll_spec(self, now: u64) -> Option<u64> {
        lesser(age_of(self.edit, now), lesser(age_of(self.server, now), age_of(self.client, now)))
    }

    /// Whether the window is remembered: it polled less than ten minutes ago.
    pub open spec fn remembered(self, now: u64) -> bool {
        self.seconds_since_poll_spec(now) matches Some(age) && age < INSTANCE_PRUNE_AFTER_SECS
    }

    /// When a role last polled.
    pub fn poll_time(&self, role: TargetRole) -> (at: Option<u64>)
        ensures
            at == self.last_poll(role),
    {
        match role {
            TargetRole::Edit => self.edit,
            TargetRole::Server => self.server,
            TargetRole::Client => self.client,
            TargetRole::Legacy => None,
        }
    }

    fn with_poll(&self, role: TargetRole, now: u64) -> (instance: StudioInstance)
        ensures
            instance == self.polled(role, now),
    {
        match role {
            TargetRole::Edit => StudioInstance {
                edit: Some(now),
                server: self.server,
                client: self.client,
            },
            TargetRole::Server => StudioInstance {
                edit: self.edit,
                server: Some(now),
                client: self.client,
            },
            TargetRole::Client => StudioInstance {
                edit: self.edit,
                server: self.server,
                client: Some(now),
            },
            TargetRole::Legacy => *self,
        }
    }

    /// Whether a role of the window is connected.
    pub fn role_fresh(&self, role: TargetRole, now: u64) -> (fresh: bool)
        ensures
            fresh == self.role_fresh_spec(role, now),
    {
        match self.poll_time(role) {
            Some(at) => elapsed(now, at) < ROLE_FRESHNESS,
            None => false,
        }
    }

    /// Whether any role of the window is connected.
    pub fn any_role_fresh(&self, now: u64) -> (fresh: bool)
        ensures
            fresh == self.any_role_fresh_spec(now),
    {
        let fresh = self.role_fresh(TargetRole::Edit, now) || self.role_fresh(TargetRole::Server, now)
            || self.role_fresh(TargetRole::Client, now);
        proof {
            if self.any_role_fresh_spec(now) {
                let role = choose|role: TargetRole| self.role_fresh_spec(role, now);
                assert(self.role_fresh_spec(role, now));
                assert(role != TargetRole::Legacy);
            }
        }
        fresh
    }

    /// The whole seconds since the window's most recent poll.
    pub fn seconds_since_poll(&self, now: u64) -> (seconds: Option<u64>)
        ensures
            seconds == self.seconds_since_poll_spec(now),
    {
        pick_lesser(
            age(self.edit, now),
            pick_lesser(age(self.server, now), age(self.client, now)),
        )
    }
}

fn age(poll: Option<u64>, now: u64) -> (seconds: Option<u64>)
    ensures
        seconds == age_of(poll, now),
{
    match poll {
        Some(at) => Some(elapsed(now, at) / NANOS_PER_SEC),
        None => None,
    }
}

fn pick_lesser(a: Option<u64>, b: Option<u64>) -> (least: Option<u64>)
    ensures
        least == lesser(a, b),
{
    match a {
        Some(x) => match b {
            Some(y) => if x <= y {
                Some(x)
            } else {
                Some(y)
            },
            None => Some(x),
        },
        None => b,
    }
}

/// A Studio window under its instance id.
pub struct InstanceEntry {
    pub id: String,
    pub instance: StudioInstance,
}

/// The windows of a list by their ids.
pub open spec fn entries_map(entries: Seq<InstanceEntry>) -> Map<Seq<char>, StudioInstance>
    decreases entries.len(),
{
    if entries.len() == 0 {
        Map::empty()
    } else {
        entries_map(entries.drop_last()).insert(entries.last().id@, entries.last().instance)
    }
}

/// Whether no two windows of a list have the same id.
pub open spec fn distinct_ids(entries: Seq<InstanceEntry>) -> bool {
    forall|i: int, j: int| 0 <= i < j < entries.len() ==> (#[trigger] entries[i]).id@ != (#[trigger] entries[j]).id@
}

/// Whether a window of a list has this id.
pub open spec fn listed(entries: Seq<InstanceEntry>, id: Seq<char>) -> bool {
    exists|i: int| 0 <= i < entries.len() && (#[trigger] entries[i]).id@ == id
}

proof fn lemma_entries_map(entries: Seq<InstanceEntry>)
    requires
        distinct_ids(entries),
    ensures
        forall|id: Seq<char>| #[trigger] entries_map(entries).contains_key(id) <==> listed(entries, id),
        forall|i: int|
            0 <= i < entries.len() ==> entries_map(entries)[(#[trigger] entries[i]).id@]
                == entries[i].instance,
    decreases entries.len(),
{
    if entries.len() > 0 {
        let shorter = entries.drop_last();
        assert(distinct_ids(shorter)) by {
            assert forall|i: int, j: int| 0 <= i < j < shorter.len() implies (#[trigger] shorter[i]).id@
                != (#[trigger] shorter[j]).id@ by {
                assert(shorter[i] == entries[i] && shorter[j] == entries[j]);
            }
        }
        lemma_entries_map(shorter);
        assert forall|id: Seq<char>| #[trigger] entries_map(entries).contains_key(id) <==> listed(entries, id) by {
            if entries_map(shorter).contains_key(id) {
                let i = choose|i: int| 0 <= i < shorter.len() && (#[trigger] shorter[i]).id@ == id;
                assert(entries[i].id@ == id);
            }
            if listed(entries, id) && id != entries.last().id@ {
                let i = choose|i: int| 0 <= i < entries.len() && (#[trigger] entries[i]).id@ == id;
                assert(shorter[i].id@ == id);
                assert(listed(shorter, id));
            }
            assert(entries[entries.len() - 1] == entries.last());
        }
        assert forall|i: int| 0 <= i < entries.len() implies entries_map(entries)[(
        #[trigger] entries[i]).id@] == entries[i].instance by {
            if i < entries.len() - 1 {
                assert(shorter[i] == entries[i]);
                assert(entries[i].id@ != entries[entries.len() - 1].id@);
            }
        }
    }
}

/// The windows that are remembered.
pub open spec fn pruned(instances: Map<Seq<char>, StudioInstance>, now: u64) -> Map<
    Seq<char>,
    StudioInstance,
> {
    Map::new(
        |id: Seq<char>| instances.contains_key(id) && instances[id].remembered(now),
        |id: Seq<char>| instances[id],
    )
}

/// What is known of a window, which is nothing before its first poll.
pub open spec fn known(instances: Map<Seq<char>, StudioInstance>, id: Seq<char>) -> StudioInstance {
    if instances.contains_key(id) {
        instances[id]
    } else {
        StudioInstance::unseen()
    }
}

/// The windows after a poll. A legacy poll carries no role or instance and registers nothing.
pub open spec fn noted(
    instances: Map<Seq<char>, StudioInstance>,
    id: Seq<char>,
    role: TargetRole,
    now: u64,
) -> Map<Seq<char>, StudioInstance> {
    if role == TargetRole::Legacy {
        instances
    } else {
        pruned(instances.insert(id, known(instances, id).polled(role, now)), now)
    }
}

/// Whether a role of a window is connected.
pub open spec fn role_is_fresh(
    instances: Map<Seq<char>, StudioInstance>,
    id: Seq<char>,
    role: TargetRole,
    now: u64,
) -> bool {
    instances.contains_key(id) && instances[id].role_fresh_spec(role, now)
}

/// Whether a window is connected.
pub open spec fn is_connected(
    instances: Map<Seq<char>, StudioInstance>,
    id: Seq<char>,
    now: u64,
) -> bool {
    instances.contains_key(id) && instances[id].any_role_fresh_spec(now)
}

/// Whether a list holds the ids of the connected windows, each once and in order.
pub open spec fn lists_connected(
    instances: Map<Seq<char>, StudioInstance>,
    now: u64,
    ids: Seq<Seq<char>>,
) -> bool {
    &&& strictly_sorted(ids)
    &&& forall|id: Seq<char>| #[trigger] ids.contains(id) <==> is_connected(instances, id, now)
}

/// The ids of the connected windows in order.
pub open spec fn connected_ids(instances: Map<Seq<char>, StudioInstance>, now: u64) -> Seq<Seq<char>> {
    choose|ids: Seq<Seq<char>>| lists_connected(instances, now, ids)
}

/// Whether a list holds the ids of all known windows, each once and in order.
pub open spec fn lists_known(instances: Map<Seq<char>, StudioInstance>, ids: Seq<Seq<char>>) -> bool {
    &&& strictly_sorted(ids)
    &&& forall|id: Seq<char>| #[trigger] ids.contains(id) <==> instances.contains_key(id)
}

/// Two sorted lists of the same texts are the same list.
pub proof fn sorted_list_is_unique(a: Seq<Seq<char>>, b: Seq<Seq<char>>)
    requires
        strictly_sorted(a),
        strictly_sorted(b),
        forall|t: Seq<char>| #[trigger] a.contains(t) <==> #[trigger] b.contains(t),
    ensures
        a == b,
    decreases a.len(),
{
    if a.len() == 0 {
        if b.len() > 0 {
            assert(b.contains(b[0]));
            assert(a.contains(b[0]));
        }
        assert(a =~= b);
    } else {
        assert(a.contains(a[0]));
        assert(b.contains(a[0]));
        let j = choose|j: int| 0 <= j < b.len() && b[j] == a[0];
        assert(b.contains(b[0]));
        assert(a.contains(b[0]));
        let k = choose|k: int| 0 <= k < a.len() && a[k] == b[0];
        if j > 0 {
            assert(text_less(b[0], b[j]));
            text_order_is_total(a[0], b[0]);
            if k > 0 {
                assert(text_less(a[0], a[k]));
            }
        }
        assert(a[0] == b[0]);
        let x = a.skip(1);
        let y = b.skip(1);
        assert forall|t: Seq<char>| #[trigger] x.contains(t) <==> #[trigger] y.contains(t) by {
            if x.contains(t) {
                let i = choose|i: int| 0 <= i < x.len() && x[i] == t;
                assert(a[i + 1] == t);
                assert(text_less(a[0], a[i + 1]));
                text_order_is_total(a[0], t);
                assert(a.contains(t));
                assert(b.contains(t));
                let m = choose|m: int| 0 <= m < b.len() && b[m] == t;
                assert(y[m - 1] == t);
            }
            if y.contains(t) {
                let i = choose|i: int| 0 <= i < y.len() && y[i] == t;
                assert(b[i + 1] == t);
                assert(text_less(b[0], b[i + 1]));
                text_order_is_total(b[0], t);
                assert(b.contains(t));
                assert(a.contains(t));
                let m = choose|m: int| 0 <= m < a.len() && a[m] == t;
                assert(x[m - 1] == t);
            }
        }
        assert(strictly_sorted(x)) by {
            assert forall|i: int, l: int| 0 <= i < l < x.len() implies text_less(
                #[trigger] x[i],
                #[trigger] x[l],
            ) by {
                assert(x[i] == a[i + 1] && x[l] == a[l + 1]);
            }
        }
        assert(strictly_sorted(y)) by {
            assert forall|i: int, l: int| 0 <= i < l < y.len() implies text_less(
                #[trigger] y[i],
                #[trigger] y[l],
            ) by {
                assert(y[i] == b[i + 1] && y[l] == b[l + 1]);
            }
        }
        sorted_list_is_unique(x, y);
        assert(a =~= seq![a[0]] + x);
        assert(b =~= seq![b[0]] + y);
    }
}

/// The known Studio windows, each under one id.
pub struct InstanceTable {
    entries: Vec<InstanceEntry>,
}

impl View for InstanceTable {
    type V = Map<Seq<char>, StudioInstance>;

    closed spec fn view(&self) -> Map<Seq<char>, StudioInstance> {
        entries_map(self.entries@)
    }
}

impl InstanceTable {
    /// No two entries have the same id.
    pub closed spec fn wf(&self) -> bool {
        distinct_ids(self.entries@)
    }

    /// A table without windows.
    pub fn new() -> (table: InstanceTable)
        ensures
            table.wf(),
            table@ == Map::<Seq<char>, StudioInstance>::empty(),
    {
        InstanceTable { entries: Vec::new() }
    }

    fn position(&self, id: &str) -> (at: Option<usize>)
        requires
            self.wf(),
        ensures
            match at {
                Some(at) => at < self.entries@.len() && self.entries@[at as int].id@ == id@
                    && self@.contains_key(id@) && self@[id@] == self.entries@[at as int].instance,
                None => !listed(self.entries@, id@) && !self@.contains_key(id@),
            },
    {
        proof {
            lemma_entries_map(self.entries@);
        }
        let mut i: usize = 0;
        while i < self.entries.len()
            invariant
                self.wf(),
                i <= self.entries.len(),
                forall|k: int| 0 <= k < i ==> (#[trigger] self.entries@[k]).id@ != id@,
            decreases self.entries.len() - i,
        {
            if same_text(self.entries[i].id.as_str(), id) {
                proof {
                    lemma_entries_map(self.entries@);
                    assert(listed(self.entries@, self.entries@[i as int].id@));
                }
                return Some(i);
            }
            i = i + 1;
        }
        None
    }

    /// What is known of one window.
    pub fn get(&self, id: &str) -> (instance: Option<StudioInstance>)
        requires
            self.wf(),
        ensures
            match instance {
                Some(instance) => self@.contains_key(id@) && self@[id@] == instance,
                None => !self@.contains_key(id@),
            },
    {
        match self.position(id) {
            Some(at) => Some(self.entries[at].instance),
            None => None,
        }
    }

    /// Whether no window is known.
    pub fn is_empty(&self) -> (empty: bool)
        requires
            self.wf(),
        ensures
            empty == self@.is_empty(),
    {
        proof {
            lemma_entries_map(self.entries@);
            if self.entries@.len() > 0 {
                assert(listed(self.entries@, self.entries@[0].id@));
                assert(self@.contains_key(self.entries@[0].id@));
                assert(self@.dom().contains(self.entries@[0].id@));
            } else {
                assert(self@ =~= Map::empty());
            }
        }
        self.entries.len() == 0
    }

    fn record(&mut self, id: &str, role: TargetRole, now: u64)
        requires
            old(self).wf(),
        ensures
            final(self).wf(),
            final(self)@ == old(self)@.insert(id@, known(old(self)@, id@).polled(role, now)),
    {
        let ghost before = self.entries@;
        proof {
            lemma_entries_map(before);
        }
        match self.position(id) {
            Some(at) => {
                let instance = self.entries[at].instance.with_poll(role, now);
                let key = self.entries[at].id.clone();
                self.entries.set(at, InstanceEntry { id: key, instance });
                proof {
                    let after = self.entries@;
                    assert(distinct_ids(after)) by {
                        assert forall|i: int, j: int| 0 <= i < j < after.len() implies (
                        #[trigger] after[i]).id@ != (#[trigger] after[j]).id@ by {
                            assert(after[i].id@ == before[i].id@ && after[j].id@ == before[j].id@);
                        }
                    }
                    lemma_entries_map(after);
                    let goal = entries_map(before).insert(id@, known(entries_map(before), id@).polled(role, now));
                    assert forall|k: Seq<char>| #[trigger] entries_map(after).contains_key(k)
                        == goal.contains_key(k) by {
                        if listed(after, k) {
                            let i = choose|i: int| 0 <= i < after.len() && (#[trigger] after[i]).id@ == k;
                            assert(before[i].id@ == k);
                        }
                        if listed(before, k) {
                            let i = choose|i: int| 0 <= i < before.len() && (#[trigger] before[i]).id@ == k;
                            assert(after[i].id@ == k);
                        }
                        assert(before[at as int].id@ == id@);
                    }
                    assert forall|k: Seq<char>| entries_map(after).contains_key(k) implies
                        #[trigger] entries_map(after)[k] == goal[k] by {
                        let i = choose|i: int| 0 <= i < after.len() && (#[trigger] after[i]).id@ == k;
                        assert(entries_map(after)[after[i].id@] == after[i].instance);
                        assert(entries_map(before)[before[i].id@] == before[i].instance);
                        if i != at {
                            assert(before[i].id@ != before[at as int].id@);
                        }
                    }
                    assert(entries_map(after) =~= goal);
                }
            },
            None => {
                let unseen = StudioInstance { edit: None, server: None, client: None };
                let instance = unseen.with_poll(role, now);
                self.entries.push(InstanceEntry { id: id.to_owned(), instance });
                proof {
                    let after = self.entries@;
                    assert(after.drop_last() == before);
                    assert(distinct_ids(after)) by {
                        assert forall|i: int, j: int| 0 <= i < j < after.len() implies (
                        #[trigger] after[i]).id@ != (#[trigger] after[j]).id@ by {
                            assert(after[i] == before[i]);
                            if j < before.len() {
                                assert(after[j] == before[j]);
                            }
                        }
                    }
                }
            },
        }
    }

    fn prune(&mut self, now: u64)
        requires
            old(self).wf(),
        ensures
            final(self).wf(),
            final(self)@ == pruned(old(self)@, now),
    {
        let ghost all = self.entries@;
        let mut kept: Vec<InstanceEntry> = Vec::new();
        let mut i: usize = 0;
        while i < self.entries.len()
            invariant
                i <= self.entries.len(),
                all == self.entries@,
                distinct_ids(all),
                distinct_ids(kept@),
                forall|k: int|
                    #![trigger kept@[k]]
                    0 <= k < kept@.len() ==> kept@[k].instance.remembered(now) && exists|j: int|
                        0 <= j < i && #[trigger] all[j] == kept@[k],
                forall|j: int|
                    #![trigger all[j]]
                    0 <= j < i && all[j].instance.remembered(now) ==> kept@.contains(all[j]),
            decreases self.entries.len() - i,
        {
            let instance = self.entries[i].instance;
            let keep = match instance.seconds_since_poll(now) {
                Some(age) => age < INSTANCE_PRUNE_AFTER_SECS,
                None => false,
            };
            if keep {
                let ghost shorter = kept@;
                kept.push(InstanceEntry { id: self.entries[i].id.clone(), instance });
                proof {
                    assert(kept@.last() == all[i as int]);
                    assert forall|a: int, b: int| 0 <= a < b < kept@.len() implies (
                    #[trigger] kept@[a]).id@ != (#[trigger] kept@[b]).id@ by {
                        assert(kept@[a] == shorter[a]);
                        if b < shorter.len() {
                            assert(kept@[b] == shorter[b]);
                        } else {
                            let j = choose|j: int| 0 <= j < i && #[trigger] all[j] == shorter[a];
                            assert(all[j].id@ != all[i as int].id@);
                        }
                    }
                    assert forall|k: int| 0 <= k < kept@.len() implies (#[trigger] kept@[k]).instance.remembered(
                        now,
                    ) && exists|j: int| 0 <= j < i + 1 && #[trigger] all[j] == kept@[k] by {
                        if k < shorter.len() {
                            assert(kept@[k] == shorter[k]);
                        } else {
                            assert(all[i as int] == kept@[k]);
                        }
                    }
                    assert forall|j: int| 0 <= j < i + 1 && (#[trigger] all[j]).instance.remembered(now) implies kept@.contains(
                        all[j],
                    ) by {
                        if j < i {
                            assert(shorter.contains(all[j]));
                            let k = choose|k: int| 0 <= k < shorter.len() && shorter[k] == all[j];
                            assert(kept@[k] == all[j]);
                        } else {
                            assert(kept@[kept@.len() - 1] == all[j]);
                        }
                    }
                }
            }
            i = i + 1;
        }
        proof {
            lemma_entries_map(all);
            lemma_entries_map(kept@);
            let goal = pruned(entries_map(all), now);
            assert forall|id: Seq<char>| #[trigger] entries_map(kept@).contains_key(id) == goal.contains_key(id) by {
                if listed(kept@, id) {
                    let k = choose|k: int| 0 <= k < kept@.len() && (#[trigger] kept@[k]).id@ == id;
                    let j = choose|j: int| 0 <= j < i && #[trigger] all[j] == kept@[k];
                    assert(entries_map(all)[all[j].id@] == all[j].instance);
                    assert(listed(all, id));
                }
                if goal.contains_key(id) {
                    assert(listed(all, id));
                    let j = choose|j: int| 0 <= j < all.len() && (#[trigger] all[j]).id@ == id;
                    assert(entries_map(all)[all[j].id@] == all[j].instance);
                    assert(kept@.contains(all[j]));
                    let k = choose|k: int| 0 <= k < kept@.len() && kept@[k] == all[j];
                    assert(kept@[k].id@ == id);
                }
            }
            assert forall|id: Seq<char>| entries_map(kept@).contains_key(id) implies
                #[trigger] entries_map(kept@)[id] == goal[id] by {
                let k = choose|k: int| 0 <= k < kept@.len() && (#[trigger] kept@[k]).id@ == id;
                let j = choose|j: int| 0 <= j < i && #[trigger] all[j] == kept@[k];
                assert(entries_map(all)[all[j].id@] == all[j].instance);
                assert(entries_map(kept@)[kept@[k].id@] == kept@[k].instance);
            }
            assert(entries_map(kept@) =~= goal);
        }
        self.entries = kept;
    }

    /// Takes note of a poll and forgets the windows that have been silent for too long.
    pub fn note_poll(&mut self, id: &str, role: TargetRole, now: u64)
        requires
            old(self).wf(),
        ensures
            final(self).wf(),
            final(self)@ == noted(old(self)@, id@, role, now),
    {
        if role == TargetRole::Legacy {
            return;
        }
        self.record(id, role, now);
        self.prune(now);
    }

    /// The ids of all known windows in order.
    fn ids(&self) -> (ids: Vec<String>)
        requires
            self.wf(),
        ensures
            lists_known(self@, texts(ids@)),
    {
        let mut ids: Vec<String> = Vec::new();
        let mut i: usize = 0;
        proof {
            lemma_entries_map(self.entries@);
        }
        while i < self.entries.len()
            invariant
                self.wf(),
                i <= self.entries.len(),
                strictly_sorted(texts(ids@)),
                forall|id: Seq<char>| #[trigger]
                    texts(ids@).contains(id) <==> listed(self.entries@.take(i as int), id),
            decreases self.entries.len() - i,
        {
            let ghost before = self.entries@.take(i as int);
            let ghost after = self.entries@.take(i + 1);
            let ghost new = self.entries@[i as int].id@;
            proof {
                if listed(before, new) {
                    let k = choose|k: int| 0 <= k < before.len() && (#[trigger] before[k]).id@ == new;
                    assert(self.entries@[k].id@ != self.entries@[i as int].id@);
                }
                assert forall|id: Seq<char>| #[trigger] listed(after, id) <==> (listed(before, id) || id == new) by {
                    if listed(after, id) {
                        let k = choose|k: int| 0 <= k < after.len() && (#[trigger] after[k]).id@ == id;
                        if k < i {
                            assert(before[k].id@ == id);
                        }
                    }
                    if listed(before, id) {
                        let k = choose|k: int| 0 <= k < before.len() && (#[trigger] before[k]).id@ == id;
                        assert(after[k].id@ == id);
                    }
                    assert(after[i as int].id@ == new);
                }
            }
            insert_sorted(&mut ids, self.entries[i].id.clone());
            i = i + 1;
        }
        proof {
            assert(self.entries@.take(self.entries.len() as int) == self.entries@);
        }
        ids
    }

    /// The ids of the connected windows in order.
    pub fn connected(&self, now: u64) -> (ids: Vec<String>)
        requires
            self.wf(),
        ensures
            texts(ids@) == connected_ids(self@, now),
            lists_connected(self@, now, texts(ids@)),
    {
        let all = self.ids();
        let mut ids: Vec<String> = Vec::new();
        let mut i: usize = 0;
        while i < all.len()
            invariant
                self.wf(),
                i <= all.len(),
                lists_known(self@, texts(all@)),
                strictly_sorted(texts(ids@)),
                forall|id: Seq<char>| #[trigger]
                    texts(ids@).contains(id) <==> (texts(all@).take(i as int).contains(id) && is_connected(
                        self@,
                        id,
                        now,
                    )),
                forall|k: int, j: int|
                    0 <= k < ids@.len() && i <= j < all@.len() ==> text_less(
                        #[trigger] ids@[k]@,
                        #[trigger] all@[j]@,
                    ),
            decreases all.len() - i,
        {
            let ghost new = all@[i as int]@;
            let ghost seen = texts(all@).take(i as int);
            let ghost next = texts(all@).take(i + 1);
            proof {
                assert(texts(all@)[i as int] == new);
                assert(texts(all@).contains(new));
                assert(next =~= seen.push(new));
                assert forall|id: Seq<char>| #[trigger] next.contains(id) <==> (seen.contains(id) || id == new) by {
                    if next.contains(id) && id != new {
                        let k = choose|k: int| 0 <= k < next.len() && next[k] == id;
                        assert(seen[k] == id);
                    }
                    if seen.contains(id) {
                        let k = choose|k: int| 0 <= k < seen.len() && seen[k] == id;
                        assert(next[k] == id);
                    }
                    assert(next[i as int] == new);
                }
            }
            let connected = match self.get(all[i].as_str()) {
                Some(instance) => instance.any_role_fresh(now),
                None => false,
            };
            if connected {
                let ghost shorter = ids@;
                ids.push(all[i].clone());
                proof {
                    assert(texts(ids@) =~= texts(shorter).push(new));
                    assert forall|id: Seq<char>| #[trigger] texts(ids@).contains(id) <==> (texts(
                        shorter,
                    ).contains(id) || id == new) by {
                        if texts(ids@).contains(id) && id != new {
                            let k = choose|k: int| 0 <= k < texts(ids@).len() && texts(ids@)[k] == id;
                            assert(texts(shorter)[k] == id);
                        }
                        if texts(shorter).contains(id) {
                            let k = choose|k: int| 0 <= k < texts(shorter).len() && texts(shorter)[k] == id;
                            assert(texts(ids@)[k] == id);
                        }
                        assert(texts(ids@)[shorter.len() as int] == new);
                    }
                    assert forall|a: int, b: int| 0 <= a < b < texts(ids@).len() implies text_less(
                        #[trigger] texts(ids@)[a],
                        #[trigger] texts(ids@)[b],
                    ) by {
                        assert(texts(ids@)[a] == texts(shorter)[a]);
                        assert(texts(ids@)[a] == shorter[a]@);
                        if b < shorter.len() {
                            assert(texts(ids@)[b] == texts(shorter)[b]);
                        } else {
                            assert(text_less(shorter[a]@, all@[i as int]@));
                        }
                    }
                    assert forall|k: int, j: int| 0 <= k < ids@.len() && i + 1 <= j < all@.len() implies text_less(
                        #[trigger] ids@[k]@,
                        #[trigger] all@[j]@,
                    ) by {
                        if k < shorter.len() {
                            assert(ids@[k] == shorter[k]);
                        } else {
                            assert(text_less(texts(all@)[i as int], texts(all@)[j]));
                        }
                    }
                }
            }
            i = i + 1;
        }
        proof {
            assert(texts(all@).take(all.len() as int) == texts(all@));
            assert(lists_connected(self@, now, texts(ids@)));
            sorted_list_is_unique(texts(ids@), connected_ids(self@, now));
        }
        ids
    }
}

} // verus!
