//! The debounce store: when each (client, metric) pair last fired an alert.
//!
//! A breach fires at once unless the same pair fired less than a window ago.
//! Checking and arming are one step on an exclusively borrowed store, so two
//! breaches of one pair can never both pass the check.

use vstd::prelude::*;
use vstd::string::StringExecFns;

verus! {

/// Seconds that must pass between two alerts of one (client, metric) pair.
pub const DEBOUNCE_WINDOW_SECS: u64 = 300;

/// What an entry is found by: the client's id and the metric's name.
pub type DebounceKey = (Seq<char>, Seq<char>);

/// The seconds from `earlier` to `now`; none if the clock has not advanced.
pub open spec fn elapsed(now: u64, earlier: u64) -> u64 {
    if now >= earlier {
        (now - earlier) as u64
    } else {
        0
    }
}

/// Whether a breach of `key` at `now` is held back: the pair fired less
/// than `window` seconds ago.
pub open spec fn suppressed(
    fired: Map<DebounceKey, u64>,
    window: u64,
    key: DebounceKey,
    now: u64,
) -> bool {
    fired.contains_key(key) && elapsed(now, fired[key]) < window
}

/// The store after a breach of `key` at `now`: armed anew unless held back.
pub open spec fn armed(fired: Map<DebounceKey, u64>, window: u64, key: DebounceKey, now: u64) -> Map<
    DebounceKey,
    u64,
> {
    if suppressed(fired, window, key, now) {
        fired
    } else {
        fired.insert(key, now)
    }
}

/// When one (client, metric) pair last fired.
pub struct DebounceEntry {
    pub client_id: String,
    pub metric_type: String,
    pub last_fired: u64,
}

impl DebounceEntry {
    pub open spec fn key(&self) -> DebounceKey {
        (self.client_id@, self.metric_type@)
    }
}

/// The last firing time of every pair that has fired since the process
/// started.
pub struct DebounceStore {
    entries: Vec<DebounceEntry>,
    window: u64,
}

impl View for DebounceStore {
    type V = Map<DebounceKey, u64>;

    closed spec fn view(&self) -> Map<DebounceKey, u64> {
        Map::new(
            |key: DebounceKey| exists|i: int| self.holds_at(key, i),
            |key: DebounceKey| self.entries@[choose|i: int| self.holds_at(key, i)].last_fired,
        )
    }
}

impl DebounceStore {
    /// Whether the entry at `i` is that of `key`.
    closed spec fn holds_at(&self, key: DebounceKey, i: int) -> bool {
        0 <= i < self.entries@.len() && self.entries@[i].key() == key
    }

    /// The store's invariant: no pair has two entries.
    pub closed spec fn wf(&self) -> bool {
        forall|i: int, j: int|
            0 <= i < j < self.entries@.len() ==> self.entries@[i].key() != self.entries@[j].key()
    }

    /// The cool-down, in seconds, that the store enforces.
    pub closed spec fn spec_window(&self) -> u64 {
        self.window
    }

    /// An empty store with the usual window.
    pub fn new() -> (store: Self)
        ensures
            store.wf(),
            store@ == Map::<DebounceKey, u64>::empty(),
            store.spec_window() == DEBOUNCE_WINDOW_SECS,
    {
        let store = DebounceStore { entries: Vec::new(), window: DEBOUNCE_WINDOW_SECS };
        assert(store@ =~= Map::<DebounceKey, u64>::empty());
        store
    }

    /// An empty store that holds alerts of one pair `window` seconds apart.
    pub fn with_window(window: u64) -> (store: Self)
        ensures
            store.wf(),
            store@ == Map::<DebounceKey, u64>::empty(),
            store.spec_window() == window,
    {
        let store = DebounceStore { entries: Vec::new(), window };
        assert(store@ =~= Map::<DebounceKey, u64>::empty());
        store
    }

    pub fn window(&self) -> (window: u64)
        ensures
            window == self.spec_window(),
    {
        self.window
    }

    /// Where the entry of the pair is, if it has one.
    fn position(&self, client_id: &String, metric_type: &String) -> (found: Option<usize>)
        requires
            self.wf(),
        ensures
            match found {
                Some(i) => self.holds_at((client_id@, metric_type@), i as int),
                None => forall|i: int| !self.holds_at((client_id@, metric_type@), i),
            },
    {
        let mut i: usize = 0;
        while i < self.entries.len()
            invariant
                i <= self.entries@.len(),
                forall|j: int| 0 <= j < i ==> self.entries@[j].key() != (client_id@, metric_type@),
            decreases self.entries@.len() - i,
        {
            if self.entries[i].client_id == *client_id && self.entries[i].metric_type
                == *metric_type {
                return Some(i);
            }
            i += 1;
        }
        None
    }

    /// The entry at a pair's position is what the view holds for the pair.
    proof fn lemma_view_at(&self, key: DebounceKey, i: int)
        requires
            self.wf(),
            self.holds_at(key, i),
        ensures
            self@.contains_key(key),
            self@[key] == self.entries@[i].last_fired,
    {
        let j = choose|j: int| self.holds_at(key, j);
        assert(j == i);
    }

    /// When the pair last fired, if it has.
    pub fn last_fired(&self, client_id: &str, metric_type: &str) -> (last: Option<u64>)
        requires
            self.wf(),
        ensures
            last is Some <==> self@.contains_key((client_id@, metric_type@)),
            last is Some ==> last->Some_0 == self@[(client_id@, metric_type@)],
    {
        let client = String::from_str(client_id);
        let metric = String::from_str(metric_type);
        match self.position(&client, &metric) {
            Some(i) => {
                proof {
                    self.lemma_view_at((client_id@, metric_type@), i as int);
                }
                Some(self.entries[i].last_fired)
            },
            None => None,
        }
    }

    /// Decides, for a breach of the pair at `now`, whether an alert fires,
    /// and arms the pair if it does. A held-back breach changes nothing.
    pub fn check_and_arm(&mut self, client_id: &str, metric_type: &str, now: u64) -> (fire: bool)
        requires
            old(self).wf(),
        ensures
            final(self).wf(),
            final(self).spec_window() == old(self).spec_window(),
            fire == !suppressed(
                old(self)@,
                old(self).spec_window(),
                (client_id@, metric_type@),
                now,
            ),
            final(self)@ == armed(
                old(self)@,
                old(self).spec_window(),
                (client_id@, metric_type@),
                now,
            ),
    {
        let ghost key = (client_id@, metric_type@);
        let client = String::from_str(client_id);
        let metric = String::from_str(metric_type);
        match self.position(&client, &metric) {
            Some(i) => {
                proof {
                    self.lemma_view_at(key, i as int);
                }
                let last: u64 = self.entries[i].last_fired;
                let gone: u64 = if now >= last {
                    now - last
                } else {
                    0
                };
                if gone < self.window {
                    return false;
                }
                self.entries[i].last_fired = now;
                proof {
                    assert(final(self).entries@.len() == old(self).entries@.len());
                    assert forall|a: int, b: int|
                        0 <= a < b < final(self).entries@.len() implies final(self).entries@[a].key()
                        != final(self).entries@[b].key() by {
                        assert(final(self).entries@[a].key() == old(self).entries@[a].key());
                        assert(final(self).entries@[b].key() == old(self).entries@[b].key());
                    }
                    assert forall|j: int| 0 <= j < final(self).entries@.len() implies (
                    #[trigger] final(self).entries@[j]).key() == old(self).entries@[j].key() by {}
                    assert forall|k: DebounceKey, j: int|
                        final(self).holds_at(k, j) == old(self).holds_at(k, j) by {}
                    assert forall|k: DebounceKey| #[trigger]
                        final(self)@.contains_key(k) implies final(self)@[k] == old(self)@.insert(
                        key,
                        now,
                    )[k] by {
                        let j = choose|j: int| final(self).holds_at(k, j);
                        assert(old(self).holds_at(k, j));
                        old(self).lemma_view_at(k, j);
                        if k == key {
                            assert(j == i);
                        }
                    }
                    assert(final(self)@ =~= old(self)@.insert(key, now));
                }
                true
            },
            None => {
                self.entries.push(DebounceEntry { client_id: client, metric_type: metric, last_fired: now });
                proof {
                    let n = old(self).entries@.len() as int;
                    assert(final(self).holds_at(key, n));
                    assert forall|a: int, b: int|
                        0 <= a < b < final(self).entries@.len() implies final(self).entries@[a].key()
                        != final(self).entries@[b].key() by {
                        if b == n {
                            assert(!old(self).holds_at(key, a));
                        }
                    }
                    assert forall|k: DebounceKey, j: int|
                        final(self).holds_at(k, j) == (old(self).holds_at(k, j) || (j == n && k
                            == key)) by {}
                    assert forall|k: DebounceKey| #[trigger]
                        final(self)@.contains_key(k) implies final(self)@[k] == old(self)@.insert(
                        key,
                        now,
                    )[k] by {
                        let j = choose|j: int| final(self).holds_at(k, j);
                        if k == key {
                            assert(!old(self).holds_at(k, j));
                        } else {
                            assert(old(self).holds_at(k, j));
                            old(self).lemma_view_at(k, j);
                        }
                    }
                    assert(final(self)@ =~= old(self)@.insert(key, now));
                }
                true
            },
        }
    }
}

/// Of two breaches of one pair less than a window apart, at most one fires:
/// whenever the first fires, the second is held back.
pub proof fn lemma_near_breaches_fire_once(
    fired: Map<DebounceKey, u64>,
    window: u64,
    key: DebounceKey,
    first: u64,
    second: u64,
)
    requires
        elapsed(second, first) < window,
    ensures
        !suppressed(fired, window, key, first) ==> suppressed(
            armed(fired, window, key, first),
            window,
            key,
            second,
        ),
        !fired.contains_key(key) ==> !suppressed(fired, window, key, first),
{
}

/// A pair fires again once a full window has passed since it last fired.
pub proof fn lemma_rearms_after_window(
    fired: Map<DebounceKey, u64>,
    window: u64,
    key: DebounceKey,
    first: u64,
    later: u64,
)
    requires
        !suppressed(fired, window, key, first),
        later >= first,
        later - first >= window,
    ensures
        !suppressed(armed(fired, window, key, first), window, key, later),
{
}

/// A breach of one pair never touches what the store holds for another.
pub proof fn lemma_pairs_are_independent(
    fired: Map<DebounceKey, u64>,
    window: u64,
    key: DebounceKey,
    other: DebounceKey,
    now: u64,
)
    requires
        key != other,
    ensures
        armed(fired, window, key, now).contains_key(other) == fired.contains_key(other),
        fired.contains_key(other) ==> armed(fired, window, key, now)[other] == fired[other],
{
}

} // verus!
