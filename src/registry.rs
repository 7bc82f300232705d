//! The in-memory timeline registry as startup fills it: the timelines read
//! from the data directory, and whether timelines must be pulled from peers.
use vstd::prelude::*;

verus! {

/// A timeline, named by its tenant and its own identifier.
#[derive(Debug, Clone, Copy, PartialEq, Eq, Structural)]
pub struct TimelineKey {
    pub tenant: u128,
    pub timeline: u128,
}

/// The timelines that this node hosts, each listed once.
#[derive(Debug, Clone)]
pub struct TimelineRegistry {
    timelines: Vec<TimelineKey>,
}

/// The set of timelines after loading `persisted` into a registry that held
/// `current`.
pub open spec fn loaded(current: Set<TimelineKey>, persisted: Seq<TimelineKey>) -> Set<
    TimelineKey,
> {
    current.union(persisted.to_set())
}

/// Whether startup must pull timelines from peers: only when peer recovery
/// is on and nothing was found locally.
pub open spec fn needs_peer_pull_spec(recovery_enabled: bool, local: Set<TimelineKey>) -> bool {
    recovery_enabled && local.is_empty()
}

impl View for TimelineRegistry {
    type V = Set<TimelineKey>;

    closed spec fn view(&self) -> Set<TimelineKey> {
        self.timelines@.to_set()
    }
}

impl TimelineRegistry {
    /// Each timeline is listed once.
    pub closed spec fn wf(&self) -> bool {
        self.timelines@.no_duplicates()
    }

    /// An empty registry.
    pub fn new() -> (r: TimelineRegistry)
        ensures
            r.wf(),
            r@ == Set::<TimelineKey>::empty(),
    {
        let r = TimelineRegistry { timelines: Vec::new() };
        assert(r.timelines@.to_set() =~= Set::<TimelineKey>::empty());
        r
    }

    /// Whether `key` is hosted here.
    pub fn contains(&self, key: TimelineKey) -> (r: bool)
        ensures
            r == self@.contains(key),
    {
        let mut i: usize = 0;
        while i < self.timelines.len()
            invariant
                i <= self.timelines@.len(),
                forall|j: int| 0 <= j < i ==> self.timelines@[j] != key,
            decreases self.timelines.len() - i,
        {
            if self.timelines[i] == key {
                assert(self.timelines@.to_set().contains(self.timelines@[i as int]));
                return true;
            }
            i = i + 1;
        }
        assert(!self.timelines@.to_set().contains(key)) by {
            if self.timelines@.to_set().contains(key) {
                let j = choose|j: int| 0 <= j < self.timelines@.len() && self.timelines@[j] == key;
            }
        }
        false
    }

    /// Whether no timeline is hosted.
    pub fn is_empty(&self) -> (r: bool)
        ensures
            r == self@.is_empty(),
    {
        if self.timelines.len() == 0 {
            assert(self.timelines@.to_set() =~= Set::<TimelineKey>::empty());
            true
        } else {
            assert(self.timelines@.to_set().contains(self.timelines@[0]));
            false
        }
    }

    /// The number of timelines hosted.
    pub fn count(&self) -> (r: usize)
        requires
            self.wf(),
        ensures
            r == self@.len(),
    {
        proof {
            self.timelines@.unique_seq_to_set();
        }
        self.timelines.len()
    }

    /// The timelines hosted, each once.
    pub fn keys(&self) -> (r: Vec<TimelineKey>)
        requires
            self.wf(),
        ensures
            r@.to_set() == self@,
            r@.no_duplicates(),
    {
        self.timelines.clone()
    }

    /// Adds the timelines read from the data directory; those already hosted
    /// are kept once.
    pub fn load_all(&mut self, persisted: &[TimelineKey])
        requires
            old(self).wf(),
        ensures
            final(self).wf(),
            final(self)@ == loaded(old(self)@, persisted@),
    {
        let mut i: usize = 0;
        while i < persisted.len()
            invariant
                i <= persisted@.len(),
                self.wf(),
                self@ == loaded(old(self)@, persisted@.take(i as int)),
            decreases persisted.len() - i,
        {
            let key = persisted[i];
            let present = self.contains(key);
            let ghost before = self.timelines@;
            if !present {
                self.timelines.push(key);
                assert(self.timelines@.to_set() =~= before.to_set().insert(key)) by {
                    assert forall|k: TimelineKey| #[trigger]
                        self.timelines@.to_set().contains(k) implies before.to_set().insert(
                        key,
                    ).contains(k) by {
                        let j = choose|j: int|
                            0 <= j < self.timelines@.len() && self.timelines@[j] == k;
                        if j < before.len() {
                            assert(before[j] == k);
                        }
                    }
                    assert forall|k: TimelineKey| #[trigger]
                        before.to_set().insert(key).contains(k) implies self.timelines@.to_set().contains(
                        k,
                    ) by {
                        if k == key {
                            assert(self.timelines@[before.len() as int] == k);
                        } else {
                            let j = choose|j: int| 0 <= j < before.len() && before[j] == k;
                            assert(self.timelines@[j] == k);
                        }
                    }
                }
            }
            assert(persisted@.take(i + 1) =~= persisted@.take(i as int).push(key));
            proof {
                let t = persisted@.take(i as int);
                let t1 = persisted@.take(i + 1);
                assert forall|k: TimelineKey| #[trigger]
                    t1.to_set().contains(k) implies t.to_set().insert(key).contains(k) by {
                    let j = choose|j: int| 0 <= j < t1.len() && #[trigger] t1[j] == k;
                    if j < i {
                        assert(t[j] == k);
                    }
                }
                assert forall|k: TimelineKey| #[trigger]
                    t.to_set().insert(key).contains(k) implies t1.to_set().contains(k) by {
                    if k == key {
                        assert(t1[i as int] == k);
                    } else {
                        let j = choose|j: int| 0 <= j < t.len() && #[trigger] t[j] == k;
                        assert(t1[j] == k);
                    }
                }
                assert(t1.to_set() =~= t.to_set().insert(key));
            }
            assert(self@ =~= loaded(old(self)@, persisted@.take(i + 1)));
            i = i + 1;
        }
        assert(persisted@.take(i as int) =~= persisted@);
    }

    /// Whether startup must pull timelines from peers before serving.
    pub fn needs_peer_pull(&self, recovery_enabled: bool) -> (r: bool)
        ensures
            r == needs_peer_pull_spec(recovery_enabled, self@),
    {
        recovery_enabled && self.is_empty()
    }
}

/// Loading the same persisted timelines a second time changes nothing: the
/// registry holds the same set after the second load as after the first.
pub proof fn lemma_load_idempotent(current: Set<TimelineKey>, persisted: Seq<TimelineKey>)
    ensures
        loaded(loaded(current, persisted), persisted) == loaded(current, persisted),
{
    assert(loaded(loaded(current, persisted), persisted) =~= loaded(current, persisted));
}

/// A registry that holds any timeline is never filled from peers.
pub proof fn lemma_no_pull_when_populated(
    recovery_enabled: bool,
    local: Set<TimelineKey>,
    key: TimelineKey,
)
    requires
        local.contains(key),
    ensures
        !needs_peer_pull_spec(recovery_enabled, local),
{
}

} // verus!
