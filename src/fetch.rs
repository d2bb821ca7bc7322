use vstd::prelude::*;
use vstd::string::*;

verus! {

/// The window of the first failure, in seconds.
pub const INITIAL_BACKOFF: u64 = 30;

/// The largest window a repeated failure grows to, in seconds.
pub const MAX_BACKOFF: u64 = 86400;

/// The state of one identity in a single-flight cache.
#[derive(Debug, PartialEq, Eq, Structural, Clone, Copy)]
pub enum Entry<V> {
    /// Nothing known.
    Missing,
    /// One fetch is under way; `backoff` is the window of the last failure, or 0.
    Pending { backoff: u64 },
    /// The fetched value.
    Resolved(V),
    /// The last fetch failed; no new fetch before `retry_at`.
    Failed { retry_at: u64, backoff: u64 },
}

/// What a caller asking for an identity is told to do.
#[derive(Debug, PartialEq, Eq, Structural, Clone, Copy)]
pub enum Outcome {
    /// Perform the one network fetch for this identity.
    Fetch,
    /// A fetch is under way: wait for its result.
    Wait,
    /// The value is cached.
    Hit,
    /// The last fetch failed and its window has not elapsed.
    CachedFailure,
}

/// The window after a failure, given the window of the failure before (0 if none).
pub open spec fn next_backoff(previous: u64) -> u64 {
    if previous == 0 {
        INITIAL_BACKOFF
    } else if previous >= MAX_BACKOFF / 2 {
        MAX_BACKOFF
    } else {
        (2 * previous) as u64
    }
}

/// The entry and outcome after a request at time `now`.
pub open spec fn on_request<V>(e: Entry<V>, now: u64) -> (Entry<V>, Outcome) {
    match e {
        Entry::Missing => (Entry::Pending { backoff: 0 }, Outcome::Fetch),
        Entry::Pending { .. } => (e, Outcome::Wait),
        Entry::Resolved(_) => (e, Outcome::Hit),
        Entry::Failed { retry_at, backoff } => if now < retry_at {
            (e, Outcome::CachedFailure)
        } else {
            (Entry::Pending { backoff }, Outcome::Fetch)
        },
    }
}

/// The entry after the fetch under way ends at time `now` with `result`
/// (`None` for a failure).
pub open spec fn on_complete<V>(e: Entry<V>, result: Option<V>, now: u64) -> Entry<V> {
    match e {
        Entry::Pending { backoff } => match result {
            Some(v) => Entry::Resolved(v),
            None => {
                let b = next_backoff(backoff);
                Entry::Failed {
                    retry_at: if now <= u64::MAX - b {
                        (now + b) as u64
                    } else {
                        u64::MAX
                    },
                    backoff: b,
                }
            },
        },
        _ => e,
    }
}

/// The number of network fetches that `n` successive requests at time `now`
/// start, with no fetch completing in between.
pub open spec fn fetch_count<V>(e: Entry<V>, now: u64, n: nat) -> nat
    decreases n,
{
    if n == 0 {
        0
    } else {
        let (next, o) = on_request(e, now);
        (if o == Outcome::Fetch {
            1nat
        } else {
            0nat
        }) + fetch_count(next, now, (n - 1) as nat)
    }
}

impl<V> Entry<V> {
    /// Records a request at time `now` and says what the caller must do.
    pub fn request(&mut self, now: u64) -> (r: Outcome)
        ensures
            (*final(self), r) == on_request(*old(self), now),
    {
        match *self {
            Entry::Missing => {
                *self = Entry::Pending { backoff: 0 };
                Outcome::Fetch
            },
            Entry::Pending { .. } => Outcome::Wait,
            Entry::Resolved(_) => Outcome::Hit,
            Entry::Failed { retry_at, backoff } => {
                if now < retry_at {
                    Outcome::CachedFailure
                } else {
                    *self = Entry::Pending { backoff };
                    Outcome::Fetch
                }
            },
        }
    }

    /// Records the end of the fetch under way, at time `now`.
    pub fn complete(&mut self, result: Option<V>, now: u64)
        ensures
            *final(self) == on_complete(*old(self), result, now),
    {
        if let Entry::Pending { backoff } = *self {
            match result {
                Some(v) => {
                    *self = Entry::Resolved(v);
                },
                None => {
                    let b: u64 = if backoff == 0 {
                        INITIAL_BACKOFF
                    } else if backoff >= MAX_BACKOFF / 2 {
                        MAX_BACKOFF
                    } else {
                        2 * backoff
                    };
                    let retry_at: u64 = if now <= u64::MAX - b {
                        now + b
                    } else {
                        u64::MAX
                    };
                    *self = Entry::Failed { retry_at, backoff: b };
                },
            }
        }
    }

    /// The cached value, if the entry is resolved.
    pub fn value(&self) -> (r: Option<&V>)
        ensures
            match *self {
                Entry::Resolved(v) => r == Some(&v),
                _ => r is None,
            },
    {
        match self {
            Entry::Resolved(v) => Some(v),
            _ => None,
        }
    }
}

/// A single-flight cache of entries keyed by identity (an actor IRI, a
/// server authority).
pub struct FetchTable<V> {
    keys: Vec<String>,
    entries: Vec<Entry<V>>,
    contents: Ghost<Map<Seq<char>, Entry<V>>>,
}

/// Whether some key of the table holds the resolved value `v`.
pub open spec fn holds_resolved<V>(m: Map<Seq<char>, Entry<V>>, v: V) -> bool {
    exists|k: Seq<char>| m.contains_key(k) && #[trigger] m[k] == Entry::Resolved(v)
}

/// The entry a table holds for `k`: `Missing` where it holds none.
pub open spec fn entry_of<V>(m: Map<Seq<char>, Entry<V>>, k: Seq<char>) -> Entry<V> {
    if m.contains_key(k) {
        m[k]
    } else {
        Entry::Missing
    }
}

impl<V> View for FetchTable<V> {
    type V = Map<Seq<char>, Entry<V>>;

    closed spec fn view(&self) -> Map<Seq<char>, Entry<V>> {
        self.contents@
    }
}

impl<V> FetchTable<V> {
    /// Keys are distinct, and each key's slot holds the entry the view maps it to.
    pub closed spec fn wf(&self) -> bool {
        &&& self.keys.len() == self.entries.len()
        &&& forall|i: int, j: int|
            0 <= i < j < self.keys.len() ==> self.keys@[i]@ != self.keys@[j]@
        &&& forall|i: int|
            0 <= i < self.keys.len() ==> #[trigger] self.contents@.contains_key(self.keys@[i]@)
                && self.contents@[self.keys@[i]@] == self.entries@[i]
        &&& forall|k: Seq<char>|
            #[trigger] self.contents@.contains_key(k) ==> exists|i: int|
                0 <= i < self.keys.len() && self.keys@[i]@ == k
    }

    /// An empty table.
    pub fn new() -> (r: Self)
        ensures
            r.wf(),
            r@ == Map::<Seq<char>, Entry<V>>::empty(),
    {
        FetchTable { keys: Vec::new(), entries: Vec::new(), contents: Ghost(Map::empty()) }
    }

    fn find(&self, key: &str) -> (r: Option<usize>)
        requires
            self.wf(),
        ensures
            match r {
                Some(i) => i < self.keys.len() && self.keys@[i as int]@ == key@,
                None => !self@.contains_key(key@),
            },
    {
        let wanted = String::from_str(key);
        let mut i: usize = 0;
        while i < self.keys.len()
            invariant
                self.wf(),
                wanted@ == key@,
                0 <= i <= self.keys.len(),
                forall|j: int| 0 <= j < i ==> self.keys@[j]@ != key@,
            decreases self.keys.len() - i,
        {
            if self.keys[i] == wanted {
                return Some(i);
            }
            i = i + 1;
        }
        None
    }

    /// Records a request for `key` at time `now` and says what the caller
    /// must do; only an unknown key or an elapsed failure starts a fetch.
    pub fn request(&mut self, key: &str, now: u64) -> (r: Outcome)
        requires
            old(self).wf(),
        ensures
            final(self).wf(),
            final(self)@ == old(self)@.insert(key@, on_request(entry_of(old(self)@, key@), now).0),
            r == on_request(entry_of(old(self)@, key@), now).1,
    {
        match self.find(key) {
            Some(i) => {
                let mut e = self.entries.remove(i);
                let r = e.request(now);
                self.entries.insert(i, e);
                proof {
                    assert(self.entries@ =~= old(self).entries@.update(i as int, e));
                    self.contents@ = self.contents@.insert(key@, e);
                    assert forall|j: int| 0 <= j < self.keys.len() implies #[trigger] self.contents@.contains_key(self.keys@[j]@)
                        && self.contents@[self.keys@[j]@] == self.entries@[j] by {
                        if j == i {
                            assert(self.keys@[j]@ == key@);
                        } else {
                            assert(old(self).contents@.contains_key(old(self).keys@[j]@));
                            assert(self.keys@[j]@ != key@);
                        }
                    }
                }
                r
            },
            None => {
                let mut e: Entry<V> = Entry::Missing;
                let r = e.request(now);
                self.keys.push(String::from_str(key));
                self.entries.push(e);
                proof {
                    self.contents@ = self.contents@.insert(key@, e);
                    let n = self.keys.len() - 1;
                    assert(self.keys@[n as int]@ == key@);
                    assert forall|k: Seq<char>| #[trigger] self.contents@.contains_key(k) implies exists|i: int|
                        0 <= i < self.keys.len() && self.keys@[i]@ == k by {
                        if k != key@ {
                            let i = choose|i: int| 0 <= i < old(self).keys.len() && old(self).keys@[i]@ == k;
                            assert(self.keys@[i]@ == k);
                        }
                    }
                }
                r
            },
        }
    }

    /// Records the end, at time `now`, of the fetch under way for `key`.
    pub fn complete(&mut self, key: &str, result: Option<V>, now: u64)
        requires
            old(self).wf(),
        ensures
            final(self).wf(),
            final(self)@ == if old(self)@.contains_key(key@) {
                old(self)@.insert(key@, on_complete(old(self)@[key@], result, now))
            } else {
                old(self)@
            },
    {
        match self.find(key) {
            Some(i) => {
                let mut e = self.entries.remove(i);
                e.complete(result, now);
                self.entries.insert(i, e);
                proof {
                    assert(self.entries@ =~= old(self).entries@.update(i as int, e));
                    self.contents@ = self.contents@.insert(key@, e);
                    assert forall|j: int| 0 <= j < self.keys.len() implies #[trigger] self.contents@.contains_key(self.keys@[j]@)
                        && self.contents@[self.keys@[j]@] == self.entries@[j] by {
                        if j == i {
                            assert(self.keys@[j]@ == key@);
                        } else {
                            assert(old(self).contents@.contains_key(old(self).keys@[j]@));
                            assert(self.keys@[j]@ != key@);
                        }
                    }
                }
            },
            None => {},
        }
    }

    /// The entry held for `key`.
    pub fn get(&self, key: &str) -> (r: Option<&Entry<V>>)
        requires
            self.wf(),
        ensures
            match r {
                Some(e) => self@.contains_key(key@) && *e == self@[key@],
                None => !self@.contains_key(key@),
            },
    {
        match self.find(key) {
            Some(i) => {
                proof {
                    assert(self.contents@.contains_key(self.keys@[i as int]@));
                }
                Some(&self.entries[i])
            },
            None => None,
        }
    }

    /// Every resolved value, and nothing else; starts no fetch.
    pub fn resolved(&self) -> (r: Vec<&V>)
        requires
            self.wf(),
        ensures
            forall|k: Seq<char>|
                #[trigger] self@.contains_key(k) && self@[k] is Resolved ==> r@.contains(
                    &self@[k]->Resolved_0,
                ),
            forall|i: int|
                0 <= i < r.len() ==> holds_resolved(self@, *#[trigger] r@[i]),
    {
        let mut r: Vec<&V> = Vec::new();
        let mut i: usize = 0;
        while i < self.entries.len()
            invariant
                self.wf(),
                0 <= i <= self.entries.len(),
                forall|j: int|
                    0 <= j < i && #[trigger] self.entries@[j] is Resolved ==> r@.contains(
                        &self.entries@[j]->Resolved_0,
                    ),
                forall|j: int|
                    0 <= j < r.len() ==> holds_resolved(self@, *#[trigger] r@[j]),
            decreases self.entries.len() - i,
        {
            let ghost before = r@;
            match &self.entries[i] {
                Entry::Resolved(v) => {
                    r.push(v);
                    proof {
                        let key = self.keys@[i as int]@;
                        assert(self.contents@.contains_key(key));
                        assert(self.entries@[i as int] == Entry::Resolved(*v));
                        assert(self@.contains_key(key) && self@[key] == Entry::Resolved(*v));
                        assert(r@[r.len() - 1] == v);
                        assert forall|j: int| 0 <= j < r.len() implies holds_resolved(self@, *#[trigger] r@[j]) by {
                            if j == r.len() - 1 {
                                assert(self@.contains_key(key) && self@[key] == Entry::Resolved(*r@[j]));
                            } else {
                                assert(r@[j] == before[j]);
                            }
                        }
                        assert forall|j: int|
                            0 <= j < i + 1 && #[trigger] self.entries@[j] is Resolved implies r@.contains(
                                &self.entries@[j]->Resolved_0,
                            ) by {
                            if j == i {
                                assert(r@[r.len() - 1] == &self.entries@[j]->Resolved_0);
                            } else {
                                let w = choose|w: int| 0 <= w < before.len() && before[w] == &self.entries@[j]->Resolved_0;
                                assert(r@[w] == before[w]);
                            }
                        }
                    }
                },
                _ => {},
            }
            i = i + 1;
        }
        proof {
            assert forall|k: Seq<char>|
                #[trigger] self@.contains_key(k) && self@[k] is Resolved implies r@.contains(
                    &self@[k]->Resolved_0,
                ) by {
                let j = choose|j: int| 0 <= j < self.keys.len() && self.keys@[j]@ == k;
                assert(self.entries@[j] is Resolved);
            }
        }
        r
    }
}

/// While a fetch is under way, further requests start no fetch.
pub proof fn lemma_pending_starts_none<V>(backoff: u64, now: u64, n: nat)
    ensures
        fetch_count(Entry::<V>::Pending { backoff }, now, n) == 0,
    decreases n,
{
    if n > 0 {
        lemma_pending_starts_none::<V>(backoff, now, (n - 1) as nat);
    }
}

/// Any number of concurrent requests for an unknown identity start exactly
/// one network fetch, and the entry they then share is settled by that
/// fetch's result alone.
pub proof fn lemma_single_flight<V>(now: u64, n: nat, result: Option<V>, done: u64)
    requires
        n >= 1,
    ensures
        fetch_count(Entry::<V>::Missing, now, n) == 1,
        result matches Some(v) ==> on_complete(on_request(Entry::<V>::Missing, now).0, result, done)
            == Entry::Resolved(v),
        result is None ==> on_complete(on_request(Entry::<V>::Missing, now).0, result, done) is Failed,
{
    lemma_pending_starts_none::<V>(0, now, (n - 1) as nat);
}

/// After a failed fetch, requests within the window start no fetch and see
/// the cached failure; once it has elapsed, any number of requests start
/// exactly one new fetch.
pub proof fn lemma_negative_cache<V>(backoff: u64, failed_at: u64, now: u64, n: nat)
    requires
        n >= 1,
    ensures
        ({
            let e = on_complete(Entry::<V>::Pending { backoff }, None, failed_at);
            &&& e matches Entry::Failed { retry_at, backoff: b } && b > 0 && retry_at >= failed_at
            &&& now < e->retry_at ==> fetch_count(e, now, n) == 0 && on_request(e, now) == (
            e,
            Outcome::CachedFailure,
            )
            &&& now >= e->retry_at ==> fetch_count(e, now, n) == 1
        }),
{
    let e = on_complete(Entry::<V>::Pending { backoff }, None, failed_at);
    let b = next_backoff(backoff);
    if now < e->retry_at {
        lemma_waiting_starts_none(e, now, n);
    } else {
        lemma_pending_starts_none::<V>(b, now, (n - 1) as nat);
    }
}

proof fn lemma_waiting_starts_none<V>(e: Entry<V>, now: u64, n: nat)
    requires
        e matches Entry::Failed { retry_at, .. } && now < retry_at,
    ensures
        fetch_count(e, now, n) == 0,
    decreases n,
{
    if n > 0 {
        lemma_waiting_starts_none(e, now, (n - 1) as nat);
    }
}

} // verus!
