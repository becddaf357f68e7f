use vstd::prelude::*;

verus! {

/// What the store holds for one record: the last address written to the
/// provider and the time of that write, in seconds since the Unix epoch.
#[derive(Clone, Debug)]
pub struct ReconciliationState {
    pub last_ip: Option<String>,
    pub last_update_time: Option<i64>,
}

/// The model of a [`ReconciliationState`].
pub struct RecordState {
    pub last_ip: Option<Seq<char>>,
    pub last_update_time: Option<i64>,
}

impl View for ReconciliationState {
    type V = RecordState;

    open spec fn view(&self) -> RecordState {
        RecordState { last_ip: self.last_ip.deep_view(), last_update_time: self.last_update_time }
    }
}

/// The last address recorded for `id`, if any.
pub open spec fn last_ip_in(m: Map<Seq<char>, RecordState>, id: Seq<char>) -> Option<Seq<char>> {
    if m.contains_key(id) {
        m[id].last_ip
    } else {
        None
    }
}

/// The time of the last confirmed write for `id`, if any.
pub open spec fn last_update_time_in(m: Map<Seq<char>, RecordState>, id: Seq<char>) -> Option<i64> {
    if m.contains_key(id) {
        m[id].last_update_time
    } else {
        None
    }
}

struct StateEntry {
    identity: String,
    state: ReconciliationState,
}

/// Per-record reconciliation state, keyed by record identity.
///
/// Reads and writes of one key are atomic with respect to each other; the
/// last write wins.
pub struct StateStore {
    entries: Vec<StateEntry>,
    model: Ghost<Map<Seq<char>, RecordState>>,
}

impl View for StateStore {
    type V = Map<Seq<char>, RecordState>;

    closed spec fn view(&self) -> Map<Seq<char>, RecordState> {
        self.model@
    }
}

impl StateStore {
    spec fn key_at(&self, i: int) -> Seq<char> {
        self.entries@[i].identity@
    }

    /// The entries have distinct identities and agree with the model.
    pub closed spec fn wf(&self) -> bool {
        &&& forall|i: int, j: int|
            0 <= i < j < self.entries@.len() ==> self.key_at(i) != self.key_at(j)
        &&& forall|i: int|
            0 <= i < self.entries@.len() ==> {
                &&& self.model@.contains_key(#[trigger] self.key_at(i))
                &&& self.model@[self.key_at(i)] == self.entries@[i].state@
            }
        &&& forall|k: Seq<char>| #[trigger]
            self.model@.contains_key(k) ==> exists|i: int|
                0 <= i < self.entries@.len() && self.key_at(i) == k
    }

    pub fn new() -> (r: StateStore)
        ensures
            r.wf(),
            r@ == Map::<Seq<char>, RecordState>::empty(),
    {
        StateStore { entries: Vec::new(), model: Ghost(Map::empty()) }
    }

    fn position(&self, identity: &String) -> (r: Option<usize>)
        requires
            self.wf(),
        ensures
            match r {
                Some(i) => i < self.entries@.len() && self.key_at(i as int) == identity@,
                None => !self@.contains_key(identity@),
            },
    {
        let mut i: usize = 0;
        while i < self.entries.len()
            invariant
                self.wf(),
                i <= self.entries@.len(),
                forall|j: int| 0 <= j < i ==> self.key_at(j) != identity@,
            decreases self.entries@.len() - i,
        {
            if self.entries[i].identity == *identity {
                return Some(i);
            }
            i = i + 1;
        }
        None
    }

    /// Replaces the state of `identity`, adding an entry if there was none.
    fn put(&mut self, identity: &String, state: ReconciliationState)
        requires
            old(self).wf(),
        ensures
            final(self).wf(),
            final(self)@ == old(self)@.insert(identity@, state@),
    {
        let ghost new_model = self.model@.insert(identity@, state@);
        match self.position(identity) {
            Some(i) => {
                self.entries[i] = StateEntry { identity: identity.clone(), state };
                self.model = Ghost(new_model);
                assert(self.key_at(i as int) == old(self).key_at(i as int));
                assert forall|a: int, b: int| 0 <= a < b < self.entries@.len() implies self.key_at(
                    a,
                ) != self.key_at(b) by {
                    assert(old(self).key_at(a) != old(self).key_at(b));
                }
                assert forall|a: int| 0 <= a < self.entries@.len() implies {
                    &&& self.model@.contains_key(#[trigger] self.key_at(a))
                    &&& self.model@[self.key_at(a)] == self.entries@[a].state@
                } by {
                    if a != i {
                        assert(old(self).key_at(a) != old(self).key_at(i as int));
                        assert(old(self).model@.contains_key(old(self).key_at(a)));
                    }
                }
                assert forall|k: Seq<char>| #[trigger] self.model@.contains_key(k) implies exists|
                    j: int,
                | 0 <= j < self.entries@.len() && self.key_at(j) == k by {
                    if k != identity@ {
                        let j = choose|j: int|
                            0 <= j < old(self).entries@.len() && old(self).key_at(j) == k;
                        assert(self.key_at(j) == k);
                    } else {
                        assert(self.key_at(i as int) == k);
                    }
                }
            },
            None => {
                self.entries.push(StateEntry { identity: identity.clone(), state });
                self.model = Ghost(new_model);
                let ghost last = self.entries@.len() - 1;
                assert forall|a: int, b: int| 0 <= a < b < self.entries@.len() implies self.key_at(
                    a,
                ) != self.key_at(b) by {
                    if b < last {
                        assert(old(self).key_at(a) != old(self).key_at(b));
                    } else {
                        assert(self.key_at(b) == identity@);
                        assert(old(self).model@.contains_key(old(self).key_at(a)));
                    }
                }
                assert forall|a: int| 0 <= a < self.entries@.len() implies {
                    &&& self.model@.contains_key(#[trigger] self.key_at(a))
                    &&& self.model@[self.key_at(a)] == self.entries@[a].state@
                } by {
                    if a != last {
                        assert(old(self).model@.contains_key(old(self).key_at(a)));
                    }
                }
                assert forall|k: Seq<char>| #[trigger] self.model@.contains_key(k) implies exists|
                    j: int,
                | 0 <= j < self.entries@.len() && self.key_at(j) == k by {
                    if k != identity@ {
                        let j = choose|j: int|
                            0 <= j < old(self).entries@.len() && old(self).key_at(j) == k;
                        assert(self.key_at(j) == k);
                    } else {
                        assert(self.key_at(self.entries@.len() - 1) == k);
                    }
                }
            },
        }
    }

    /// The state held for `identity`; a record never written has none.
    pub fn get_state(&self, identity: &String) -> (r: Option<ReconciliationState>)
        requires
            self.wf(),
        ensures
            match r {
                Some(s) => self@.contains_key(identity@) && s@ == self@[identity@],
                None => !self@.contains_key(identity@),
            },
    {
        match self.position(identity) {
            Some(i) => {
                let s = &self.entries[i].state;
                Some(ReconciliationState { last_ip: s.last_ip.clone(), last_update_time: s.last_update_time })
            },
            None => None,
        }
    }

    pub fn get_last_ip(&self, identity: &String) -> (r: Option<String>)
        requires
            self.wf(),
        ensures
            r.deep_view() == last_ip_in(self@, identity@),
    {
        match self.position(identity) {
            Some(i) => self.entries[i].state.last_ip.clone(),
            None => None,
        }
    }

    pub fn get_last_update_time(&self, identity: &String) -> (r: Option<i64>)
        requires
            self.wf(),
        ensures
            r == last_update_time_in(self@, identity@),
    {
        match self.position(identity) {
            Some(i) => self.entries[i].state.last_update_time,
            None => None,
        }
    }

    /// Records `ip` as the last address of `identity`; the update time is kept.
    pub fn set_last_ip(&mut self, identity: &String, ip: &String)
        requires
            old(self).wf(),
        ensures
            final(self).wf(),
            final(self)@ == old(self)@.insert(
                identity@,
                RecordState {
                    last_ip: Some(ip@),
                    last_update_time: last_update_time_in(old(self)@, identity@),
                },
            ),
    {
        let time = self.get_last_update_time(identity);
        self.put(identity, ReconciliationState { last_ip: Some(ip.clone()), last_update_time: time });
    }

    /// Records `time` as the last update time of `identity`; the address is kept.
    pub fn set_last_update_time(&mut self, identity: &String, time: i64)
        requires
            old(self).wf(),
        ensures
            final(self).wf(),
            final(self)@ == old(self)@.insert(
                identity@,
                RecordState {
                    last_ip: last_ip_in(old(self)@, identity@),
                    last_update_time: Some(time),
                },
            ),
    {
        let ip = self.get_last_ip(identity);
        self.put(identity, ReconciliationState { last_ip: ip, last_update_time: Some(time) });
    }
}

} // verus!
