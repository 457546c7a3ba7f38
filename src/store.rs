//! The counter store: expiring integer counters and bounded sample histories,
//! keyed by strings. Time is passed in explicitly, in whole seconds.

use vstd::prelude::*;

verus! {

/// How many samples a history keeps; older samples roll off the front.
pub const HISTORY_LIMIT: usize = 64;

/// `a + b`, held at `u64::MAX`.
pub open spec fn sat_add(a: u64, b: u64) -> u64 {
    if a + b > u64::MAX {
        u64::MAX
    } else {
        (a + b) as u64
    }
}

/// `h` with `x` appended, keeping only the newest `HISTORY_LIMIT` samples.
pub open spec fn rolled(h: Seq<u32>, x: u32) -> Seq<u32> {
    let p = h.push(x);
    if p.len() > HISTORY_LIMIT {
        p.subrange(p.len() - HISTORY_LIMIT, p.len() as int)
    } else {
        p
    }
}

/// A counter's state: its value and the second at which it expires.
pub type CounterState = (u64, u64);

/// Whether `m` holds a counter at `k` that has not expired at `now`.
pub open spec fn live_in(m: Map<Seq<char>, CounterState>, k: Seq<char>, now: u64) -> bool {
    m.contains_key(k) && now < m[k].1
}

/// The value of the counter at `k` in `m` at `now`; 0 if absent or expired.
pub open spec fn value_in(m: Map<Seq<char>, CounterState>, k: Seq<char>, now: u64) -> u64 {
    if live_in(m, k, now) {
        m[k].0
    } else {
        0
    }
}

/// The state of `k` in `m` after adding `amount` at `now`: a live counter
/// grows and keeps its expiry (a fixed window); otherwise a new window opens
/// with `amount` as its count.
pub open spec fn next_state(
    m: Map<Seq<char>, CounterState>,
    k: Seq<char>,
    amount: u64,
    window: u64,
    now: u64,
) -> CounterState {
    if live_in(m, k, now) {
        (sat_add(m[k].0, amount), m[k].1)
    } else {
        (amount, sat_add(now, window))
    }
}

struct CounterEntry {
    key: String,
    value: u64,
    expires_at: u64,
}

struct SampleHistory {
    key: String,
    samples: Vec<u32>,
}

/// In-process counter store. A counter is live while `now < expires_at`; an
/// expired counter reads as absent.
pub struct CounterStore {
    counters: Vec<CounterEntry>,
    histories: Vec<SampleHistory>,
    counter_model: Ghost<Map<Seq<char>, CounterState>>,
    history_model: Ghost<Map<Seq<char>, Seq<u32>>>,
}

impl CounterStore {
    /// Every stored counter, live or expired.
    pub closed spec fn counters(&self) -> Map<Seq<char>, CounterState> {
        self.counter_model@
    }

    /// Every stored sample history.
    pub closed spec fn histories(&self) -> Map<Seq<char>, Seq<u32>> {
        self.history_model@
    }

    pub closed spec fn wf(&self) -> bool {
        self.counters_wf() && self.histories_wf()
    }

    closed spec fn counters_wf(&self) -> bool {
        &&& forall|i: int|
            0 <= i < self.counters@.len() ==> {
                &&& #[trigger] self.counter_model@.contains_key(self.counters@[i].key@)
                &&& self.counter_model@[self.counters@[i].key@] == (
                    self.counters@[i].value,
                    self.counters@[i].expires_at,
                )
            }
        &&& forall|k: Seq<char>|
            #[trigger] self.counter_model@.contains_key(k) ==> exists|i: int|
                0 <= i < self.counters@.len() && self.counters@[i].key@ == k
        &&& forall|i: int, j: int|
            0 <= i < self.counters@.len() && 0 <= j < self.counters@.len() && i != j
                ==> #[trigger] self.counters@[i].key@ != #[trigger] self.counters@[j].key@
    }

    closed spec fn histories_wf(&self) -> bool {
        &&& forall|i: int|
            0 <= i < self.histories@.len() ==> {
                &&& #[trigger] self.history_model@.contains_key(self.histories@[i].key@)
                &&& self.history_model@[self.histories@[i].key@] == self.histories@[i].samples@
                &&& self.histories@[i].samples@.len() <= HISTORY_LIMIT
            }
        &&& forall|k: Seq<char>|
            #[trigger] self.history_model@.contains_key(k) ==> exists|i: int|
                0 <= i < self.histories@.len() && self.histories@[i].key@ == k
        &&& forall|i: int, j: int|
            0 <= i < self.histories@.len() && 0 <= j < self.histories@.len() && i != j
                ==> #[trigger] self.histories@[i].key@ != #[trigger] self.histories@[j].key@
    }

    /// Whether the counter at `k` exists and has not expired at `now`.
    pub open spec fn is_live(&self, k: Seq<char>, now: u64) -> bool {
        live_in(self.counters(), k, now)
    }

    /// The value of the counter at `k` at `now`; 0 if absent or expired.
    pub open spec fn live_value(&self, k: Seq<char>, now: u64) -> u64 {
        value_in(self.counters(), k, now)
    }

    /// Seconds left in the window of the counter at `k`; 0 if absent or expired.
    pub open spec fn ttl(&self, k: Seq<char>, now: u64) -> u64 {
        if self.is_live(k, now) {
            (self.counters()[k].1 - now) as u64
        } else {
            0
        }
    }

    /// The state of `k` after adding `amount` at `now`.
    pub open spec fn next_counter(&self, k: Seq<char>, amount: u64, window: u64, now: u64) -> CounterState {
        next_state(self.counters(), k, amount, window, now)
    }

    /// The samples recorded at `k`, oldest first.
    pub open spec fn history(&self, k: Seq<char>) -> Seq<u32> {
        if self.histories().contains_key(k) {
            self.histories()[k]
        } else {
            Seq::empty()
        }
    }

    pub proof fn lemma_history_bounded(&self, k: Seq<char>)
        requires
            self.wf(),
        ensures
            self.history(k).len() <= HISTORY_LIMIT,
    {
        if self.histories().contains_key(k) {
            let i = choose|i: int| 0 <= i < self.histories@.len() && self.histories@[i].key@ == k;
            assert(self.history_model@.contains_key(self.histories@[i].key@));
        }
    }

    /// An empty store.
    pub fn new() -> (s: Self)
        ensures
            s.wf(),
            s.counters() == Map::<Seq<char>, CounterState>::empty(),
            s.histories() == Map::<Seq<char>, Seq<u32>>::empty(),
    {
        CounterStore {
            counters: Vec::new(),
            histories: Vec::new(),
            counter_model: Ghost(Map::empty()),
            history_model: Ghost(Map::empty()),
        }
    }

    fn find_counter(&self, key: &String) -> (r: Option<usize>)
        requires
            self.wf(),
        ensures
            match r {
                Some(i) => i < self.counters@.len() && self.counters@[i as int].key@ == key@,
                None => !self.counters().contains_key(key@),
            },
    {
        let mut i: usize = 0;
        while i < self.counters.len()
            invariant
                self.wf(),
                0 <= i <= self.counters@.len(),
                forall|j: int| 0 <= j < i ==> self.counters@[j].key@ != key@,
            decreases self.counters@.len() - i,
        {
            if self.counters[i].key == *key {
                return Some(i);
            }
            i += 1;
        }
        None
    }

    fn find_history(&self, key: &String) -> (r: Option<usize>)
        requires
            self.wf(),
        ensures
            match r {
                Some(i) => i < self.histories@.len() && self.histories@[i as int].key@ == key@,
                None => !self.histories().contains_key(key@),
            },
    {
        let mut i: usize = 0;
        while i < self.histories.len()
            invariant
                self.wf(),
                0 <= i <= self.histories@.len(),
                forall|j: int| 0 <= j < i ==> self.histories@[j].key@ != key@,
            decreases self.histories@.len() - i,
        {
            if self.histories[i].key == *key {
                return Some(i);
            }
            i += 1;
        }
        None
    }

    /// Writes `state` at `key`, whether or not a counter was there.
    #[verifier::rlimit(40)]
    fn put_counter(&mut self, key: String, state: CounterState)
        requires
            old(self).wf(),
        ensures
            final(self).wf(),
            final(self).counters() == old(self).counters().insert(key@, state),
            final(self).histories() == old(self).histories(),
    {
        let ghost k = key@;
        let ghost before = self.counters@;
        let ghost idx: int;
        match self.find_counter(&key) {
            Some(i) => {
                self.counters.set(i, CounterEntry { key, value: state.0, expires_at: state.1 });
                proof {
                    idx = i as int;
                }
            },
            None => {
                self.counters.push(CounterEntry { key, value: state.0, expires_at: state.1 });
                proof {
                    idx = before.len() as int;
                }
            },
        }
        self.counter_model = Ghost(self.counter_model@.insert(k, state));
        proof {
            assert(self.counters@[idx].key@ == k);
            assert(self.histories == old(self).histories);
            assert(self.history_model == old(self).history_model);
            assert(self.histories_wf());
            assert forall|j: int| 0 <= j < self.counters@.len() && j != idx implies self.counters@[j]
                == before[j] by {}
            assert forall|j: int| 0 <= j < self.counters@.len() implies {
                &&& #[trigger] self.counter_model@.contains_key(self.counters@[j].key@)
                &&& self.counter_model@[self.counters@[j].key@] == (
                    self.counters@[j].value,
                    self.counters@[j].expires_at,
                )
            } by {
                if j != idx {
                    assert(old(self).counter_model@.contains_key(before[j].key@));
                }
            }
            assert forall|k2: Seq<char>| #[trigger] self.counter_model@.contains_key(k2) implies exists|i: int|
                0 <= i < self.counters@.len() && self.counters@[i].key@ == k2 by {
                if k2 == k {
                    assert(self.counters@[idx].key@ == k2);
                } else {
                    assert(old(self).counter_model@.contains_key(k2));
                    let j = choose|j: int| 0 <= j < before.len() && before[j].key@ == k2;
                    assert(self.counters@[j] == before[j]);
                }
            }
            assert forall|a: int, b: int|
                0 <= a < self.counters@.len() && 0 <= b < self.counters@.len() && a != b
                implies #[trigger] self.counters@[a].key@ != #[trigger] self.counters@[b].key@ by {
                if a != idx && b != idx {
                    assert(self.counters@[a] == before[a]);
                    assert(self.counters@[b] == before[b]);
                } else if a == idx {
                    assert(self.counters@[b] == before[b]);
                    if idx < before.len() {
                        assert(before[idx].key@ == k);
                    } else {
                        assert(old(self).counter_model@.contains_key(before[b].key@));
                    }
                } else {
                    assert(self.counters@[a] == before[a]);
                    if idx < before.len() {
                        assert(before[idx].key@ == k);
                    } else {
                        assert(old(self).counter_model@.contains_key(before[a].key@));
                    }
                }
            }
        }
    }

    /// Adds `amount` to the counter at `key` and returns its new value. A
    /// counter that is absent or expired starts over at `amount` with a fresh
    /// window of `window` seconds; a live one keeps its expiry.
    pub fn increment_with_window(&mut self, key: &str, amount: u64, window: u64, now: u64) -> (r: u64)
        requires
            old(self).wf(),
        ensures
            final(self).wf(),
            r == old(self).next_counter(key@, amount, window, now).0,
            final(self).counters() == old(self).counters().insert(
                key@,
                old(self).next_counter(key@, amount, window, now),
            ),
            final(self).histories() == old(self).histories(),
    {
        let k = key.to_owned();
        let state = match self.find_counter(&k) {
            Some(i) => {
                proof {
                    assert(self.counter_model@.contains_key(self.counters@[i as int].key@));
                }
                let value = self.counters[i].value;
                let expires_at = self.counters[i].expires_at;
                if now < expires_at {
                    (value.saturating_add(amount), expires_at)
                } else {
                    (amount, now.saturating_add(window))
                }
            },
            None => (amount, now.saturating_add(window)),
        };
        self.put_counter(k, state);
        state.0
    }

    /// Sets the counter at `key` to `value`, expiring `window` seconds from `now`.
    pub fn set_with_expiry(&mut self, key: &str, value: u64, window: u64, now: u64)
        requires
            old(self).wf(),
        ensures
            final(self).wf(),
            final(self).counters() == old(self).counters().insert(key@, (value, sat_add(now, window))),
            final(self).histories() == old(self).histories(),
    {
        let k = key.to_owned();
        self.put_counter(k, (value, now.saturating_add(window)));
    }

    /// The value of the counter at `key`; 0 if absent or expired.
    pub fn get(&self, key: &str, now: u64) -> (r: u64)
        requires
            self.wf(),
        ensures
            r == self.live_value(key@, now),
    {
        let k = key.to_owned();
        match self.find_counter(&k) {
            Some(i) => {
                proof {
                    assert(self.counter_model@.contains_key(self.counters@[i as int].key@));
                }
                if now < self.counters[i].expires_at {
                    self.counters[i].value
                } else {
                    0
                }
            },
            None => 0,
        }
    }

    /// Seconds until the counter at `key` expires; 0 if absent or expired.
    pub fn time_to_live(&self, key: &str, now: u64) -> (r: u64)
        requires
            self.wf(),
        ensures
            r == self.ttl(key@, now),
    {
        let k = key.to_owned();
        match self.find_counter(&k) {
            Some(i) => {
                proof {
                    assert(self.counter_model@.contains_key(self.counters@[i as int].key@));
                }
                if now < self.counters[i].expires_at {
                    self.counters[i].expires_at - now
                } else {
                    0
                }
            },
            None => 0,
        }
    }

    /// Removes the counter at `key`.
    #[verifier::rlimit(40)]
    pub fn delete(&mut self, key: &str)
        requires
            old(self).wf(),
        ensures
            final(self).wf(),
            final(self).counters() == old(self).counters().remove(key@),
            final(self).histories() == old(self).histories(),
    {
        let k = key.to_owned();
        match self.find_counter(&k) {
            Some(i) => {
                let ghost before = self.counters@;
                self.counters.remove(i);
                self.counter_model = Ghost(self.counter_model@.remove(k@));
                proof {
                    assert forall|k2: Seq<char>| #[trigger] self.history_model@.contains_key(k2) implies exists|j: int|
                        0 <= j < self.histories@.len() && self.histories@[j].key@ == k2 by {
                        assert(old(self).history_model@.contains_key(k2));
                        let j = choose|j: int| 0 <= j < old(self).histories@.len() && old(self).histories@[j].key@ == k2;
                        assert(self.histories@[j].key@ == k2);
                    }
                    assert forall|j: int| 0 <= j < self.counters@.len() implies {
                        &&& #[trigger] self.counter_model@.contains_key(self.counters@[j].key@)
                        &&& self.counter_model@[self.counters@[j].key@] == (
                            self.counters@[j].value,
                            self.counters@[j].expires_at,
                        )
                    } by {
                        if j < i {
                            assert(self.counters@[j] == before[j]);
                            assert(old(self).counter_model@.contains_key(before[j].key@));
                        } else {
                            assert(self.counters@[j] == before[j + 1]);
                            assert(old(self).counter_model@.contains_key(before[j + 1].key@));
                        }
                    }
                    assert forall|k2: Seq<char>| #[trigger] self.counter_model@.contains_key(k2) implies exists|j: int|
                        0 <= j < self.counters@.len() && self.counters@[j].key@ == k2 by {
                        assert(old(self).counter_model@.contains_key(k2));
                        let j = choose|j: int| 0 <= j < before.len() && before[j].key@ == k2;
                        if j < i {
                            assert(self.counters@[j] == before[j]);
                        } else {
                            assert(self.counters@[j - 1] == before[j]);
                        }
                    }
                    assert forall|a: int, b: int|
                        0 <= a < self.counters@.len() && 0 <= b < self.counters@.len() && a != b
                        implies #[trigger] self.counters@[a].key@ != #[trigger] self.counters@[b].key@ by {
                        let a0 = if a < i { a } else { a + 1 };
                        let b0 = if b < i { b } else { b + 1 };
                        assert(self.counters@[a] == before[a0]);
                        assert(self.counters@[b] == before[b0]);
                    }
                }
            },
            None => {
                assert(self.counter_model@.remove(k@) =~= self.counter_model@);
            },
        }
    }

    /// Destroys every counter that has expired at `now`; live counters stay
    /// as they are.
    pub fn purge_expired(&mut self, now: u64)
        requires
            old(self).wf(),
        ensures
            final(self).wf(),
            final(self).counters() == old(self).counters().restrict(
                Set::new(|k: Seq<char>| live_in(old(self).counters(), k, now)),
            ),
            final(self).histories() == old(self).histories(),
    {
        let ghost orig = self.counters();
        let mut expired: Vec<String> = Vec::new();
        let mut i: usize = 0;
        while i < self.counters.len()
            invariant
                self.wf(),
                self.counters() == orig,
                self.histories() == old(self).histories(),
                i <= self.counters@.len(),
                forall|e: int|
                    0 <= e < expired@.len() ==> orig.contains_key(#[trigger] expired@[e]@) && !live_in(
                        orig,
                        expired@[e]@,
                        now,
                    ),
                forall|j: int|
                    0 <= j < i && !(now < #[trigger] self.counters@[j].expires_at) ==> exists|e: int|
                        0 <= e < expired@.len() && expired@[e]@ == self.counters@[j].key@,
            decreases self.counters@.len() - i,
        {
            proof {
                assert(self.counter_model@.contains_key(self.counters@[i as int].key@));
            }
            let ghost prev = expired@;
            if !(now < self.counters[i].expires_at) {
                let key = self.counters[i].key.clone();
                expired.push(key);
                proof {
                    let e = expired@.len() - 1;
                    assert(expired@[e]@ == self.counters@[i as int].key@);
                }
            }
            proof {
                assert forall|j: int|
                    0 <= j < i + 1 && !(now < #[trigger] self.counters@[j].expires_at) implies exists|e: int|
                        0 <= e < expired@.len() && expired@[e]@ == self.counters@[j].key@ by {
                    if j < i {
                        let e = choose|e: int| 0 <= e < prev.len() && prev[e]@ == self.counters@[j].key@;
                        assert(expired@[e] == prev[e]);
                    } else {
                        let e = expired@.len() - 1;
                        assert(expired@[e]@ == self.counters@[j].key@);
                    }
                }
            }
            i += 1;
        }
        proof {
            assert forall|k: Seq<char>| orig.contains_key(k) && !live_in(orig, k, now) implies exists|e: int|
                0 <= e < expired@.len() && expired@[e]@ == k by {
                let j = choose|j: int| 0 <= j < self.counters@.len() && self.counters@[j].key@ == k;
                assert(self.counter_model@.contains_key(self.counters@[j].key@));
                assert(!(now < self.counters@[j].expires_at));
            }
        }
        let mut j: usize = 0;
        while j < expired.len()
            invariant
                self.wf(),
                self.histories() == old(self).histories(),
                j <= expired@.len(),
                forall|e: int|
                    0 <= e < expired@.len() ==> orig.contains_key(#[trigger] expired@[e]@) && !live_in(
                        orig,
                        expired@[e]@,
                        now,
                    ),
                forall|k: Seq<char>|
                    #[trigger] self.counters().contains_key(k) <==> orig.contains_key(k) && !(exists|e: int|
                        0 <= e < j && expired@[e]@ == k),
                forall|k: Seq<char>| #[trigger] self.counters().contains_key(k) ==> self.counters()[k] == orig[k],
            decreases expired@.len() - j,
        {
            let ghost before = self.counters();
            self.delete(expired[j].as_str());
            proof {
                assert forall|k: Seq<char>| #[trigger] self.counters().contains_key(k) <==> orig.contains_key(k)
                    && !(exists|e: int| 0 <= e < j + 1 && expired@[e]@ == k) by {
                    if k == expired@[j as int]@ {
                        assert(0 <= j < j + 1 && expired@[j as int]@ == k);
                    } else if exists|e: int| 0 <= e < j + 1 && expired@[e]@ == k {
                        let e = choose|e: int| 0 <= e < j + 1 && expired@[e]@ == k;
                        assert(e < j);
                    }
                }
            }
            j += 1;
        }
        proof {
            let live = Set::new(|k: Seq<char>| live_in(orig, k, now));
            assert forall|k: Seq<char>| #[trigger] self.counters().contains_key(k) <==> orig.restrict(live).contains_key(k) by {
                if orig.contains_key(k) && live_in(orig, k, now) {
                    if exists|e: int| 0 <= e < j && expired@[e]@ == k {
                        let e = choose|e: int| 0 <= e < j && expired@[e]@ == k;
                        assert(!live_in(orig, expired@[e]@, now));
                    }
                }
            }
            assert(self.counters() =~= orig.restrict(live));
        }
    }

    /// Appends `sample` to the history at `key`, dropping the oldest sample
    /// once `HISTORY_LIMIT` are held.
    #[verifier::rlimit(40)]
    pub fn append_sample(&mut self, key: &str, sample: u32)
        requires
            old(self).wf(),
        ensures
            final(self).wf(),
            final(self).histories() == old(self).histories().insert(key@, rolled(old(self).history(key@), sample)),
            final(self).counters() == old(self).counters(),
    {
        let k = key.to_owned();
        let ghost kv = k@;
        let ghost new_h = rolled(self.history(kv), sample);
        let ghost before = self.histories@;
        let ghost idx: int;
        match self.find_history(&k) {
            Some(i) => {
                proof {
                    assert(self.history_model@.contains_key(self.histories@[i as int].key@));
                    idx = i as int;
                }
                if self.histories[i].samples.len() >= HISTORY_LIMIT {
                    self.histories[i].samples.remove(0);
                }
                self.histories[i].samples.push(sample);
                proof {
                    assert(self.histories@[idx].samples@ =~= new_h);
                }
            },
            None => {
                let mut samples: Vec<u32> = Vec::new();
                samples.push(sample);
                proof {
                    assert(samples@ =~= new_h);
                    idx = before.len() as int;
                }
                self.histories.push(SampleHistory { key: k, samples });
            },
        }
        self.history_model = Ghost(self.history_model@.insert(kv, new_h));
        proof {
            assert(self.histories@[idx].key@ == kv);
            assert forall|k2: Seq<char>| #[trigger] self.counter_model@.contains_key(k2) implies exists|i: int|
                0 <= i < self.counters@.len() && self.counters@[i].key@ == k2 by {
                assert(old(self).counter_model@.contains_key(k2));
                let j = choose|j: int| 0 <= j < old(self).counters@.len() && old(self).counters@[j].key@ == k2;
                assert(self.counters@[j].key@ == k2);
            }
            assert(self.histories@[idx].samples@ == new_h);
            assert forall|j: int| 0 <= j < self.histories@.len() && j != idx implies self.histories@[j]
                == before[j] by {}
            assert forall|j: int| 0 <= j < self.histories@.len() implies {
                &&& #[trigger] self.history_model@.contains_key(self.histories@[j].key@)
                &&& self.history_model@[self.histories@[j].key@] == self.histories@[j].samples@
                &&& self.histories@[j].samples@.len() <= HISTORY_LIMIT
            } by {
                if j != idx {
                    assert(old(self).history_model@.contains_key(before[j].key@));
                }
            }
            assert forall|k2: Seq<char>| #[trigger] self.history_model@.contains_key(k2) implies exists|i: int|
                0 <= i < self.histories@.len() && self.histories@[i].key@ == k2 by {
                if k2 == kv {
                    assert(self.histories@[idx].key@ == k2);
                } else {
                    assert(old(self).history_model@.contains_key(k2));
                    let j = choose|j: int| 0 <= j < before.len() && before[j].key@ == k2;
                    assert(self.histories@[j] == before[j]);
                }
            }
            assert forall|a: int, b: int|
                0 <= a < self.histories@.len() && 0 <= b < self.histories@.len() && a != b
                implies #[trigger] self.histories@[a].key@ != #[trigger] self.histories@[b].key@ by {
                if a != idx && b != idx {
                    assert(self.histories@[a] == before[a]);
                    assert(self.histories@[b] == before[b]);
                } else if a == idx {
                    assert(self.histories@[b] == before[b]);
                    if idx < before.len() {
                        assert(before[idx].key@ == kv);
                    } else {
                        assert(old(self).history_model@.contains_key(before[b].key@));
                    }
                } else {
                    assert(self.histories@[a] == before[a]);
                    if idx < before.len() {
                        assert(before[idx].key@ == kv);
                    } else {
                        assert(old(self).history_model@.contains_key(before[a].key@));
                    }
                }
            }
        }
    }

    /// The samples recorded at `key`, oldest first.
    pub fn samples(&self, key: &str) -> (r: Vec<u32>)
        requires
            self.wf(),
        ensures
            r@ == self.history(key@),
    {
        let k = key.to_owned();
        match self.find_history(&k) {
            Some(i) => {
                proof {
                    assert(self.history_model@.contains_key(self.histories@[i as int].key@));
                }
                let src = &self.histories[i].samples;
                let mut out: Vec<u32> = Vec::new();
                let mut j: usize = 0;
                while j < src.len()
                    invariant
                        0 <= j <= src@.len(),
                        out@ == src@.subrange(0, j as int),
                    decreases src@.len() - j,
                {
                    out.push(src[j]);
                    j += 1;
                    proof {
                        assert(out@ =~= src@.subrange(0, j as int));
                    }
                }
                proof {
                    assert(out@ =~= src@);
                }
                out
            },
            None => Vec::new(),
        }
    }

    /// Removes the history at `key`.
    #[verifier::rlimit(40)]
    pub fn clear_history(&mut self, key: &str)
        requires
            old(self).wf(),
        ensures
            final(self).wf(),
            final(self).histories() == old(self).histories().remove(key@),
            final(self).counters() == old(self).counters(),
    {
        let k = key.to_owned();
        match self.find_history(&k) {
            Some(i) => {
                let ghost before = self.histories@;
                self.histories.remove(i);
                self.history_model = Ghost(self.history_model@.remove(k@));
                proof {
                    assert forall|k2: Seq<char>| #[trigger] self.counter_model@.contains_key(k2) implies exists|j: int|
                        0 <= j < self.counters@.len() && self.counters@[j].key@ == k2 by {
                        assert(old(self).counter_model@.contains_key(k2));
                        let j = choose|j: int| 0 <= j < old(self).counters@.len() && old(self).counters@[j].key@ == k2;
                        assert(self.counters@[j].key@ == k2);
                    }
                    assert forall|j: int| 0 <= j < self.histories@.len() implies {
                        &&& #[trigger] self.history_model@.contains_key(self.histories@[j].key@)
                        &&& self.history_model@[self.histories@[j].key@] == self.histories@[j].samples@
                        &&& self.histories@[j].samples@.len() <= HISTORY_LIMIT
                    } by {
                        if j < i {
                            assert(self.histories@[j] == before[j]);
                            assert(old(self).history_model@.contains_key(before[j].key@));
                        } else {
                            assert(self.histories@[j] == before[j + 1]);
                            assert(old(self).history_model@.contains_key(before[j + 1].key@));
                        }
                    }
                    assert forall|k2: Seq<char>| #[trigger] self.history_model@.contains_key(k2) implies exists|j: int|
                        0 <= j < self.histories@.len() && self.histories@[j].key@ == k2 by {
                        assert(old(self).history_model@.contains_key(k2));
                        let j = choose|j: int| 0 <= j < before.len() && before[j].key@ == k2;
                        if j < i {
                            assert(self.histories@[j] == before[j]);
                        } else {
                            assert(self.histories@[j - 1] == before[j]);
                        }
                    }
                    assert forall|a: int, b: int|
                        0 <= a < self.histories@.len() && 0 <= b < self.histories@.len() && a != b
                        implies #[trigger] self.histories@[a].key@ != #[trigger] self.histories@[b].key@ by {
                        let a0 = if a < i { a } else { a + 1 };
                        let b0 = if b < i { b } else { b + 1 };
                        assert(self.histories@[a] == before[a0]);
                        assert(self.histories@[b] == before[b0]);
                    }
                }
            },
            None => {
                assert(self.history_model@.remove(k@) =~= self.history_model@);
            },
        }
    }
}

} // verus!
