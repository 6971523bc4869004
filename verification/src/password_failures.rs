//! Wrong lobby passwords, counted for each source and lobby.
use vstd::prelude::*;
use crate::ip::IpAddr;
use crate::limits::{
    MAX_REGISTER_PASSWORD_FAILURES, MAX_REGISTER_PASSWORD_KEYS, NANOS_PER_SEC,
    REGISTER_PASSWORD_FAILURE_WINDOW_SECS,
};
use crate::table::{Key, Table};

verus! {

/// A source and the lobby that it tried.
impl Key for (IpAddr, String) {
    fn same(&self, other: &Self) -> (r: bool) {
        self.0 == other.0 && self.1 == other.1
    }

    fn copied(&self) -> (r: Self) {
        (self.0, self.1.clone())
    }
}

/// The failures of each key, oldest first.
pub type FailureMap = Map<(IpAddr, Seq<char>), Seq<u64>>;

/// A failure at `at` has left the window.
pub open spec fn is_expired(at: u64, now: u64) -> bool {
    now - at > REGISTER_PASSWORD_FAILURE_WINDOW_SECS * NANOS_PER_SEC
}

/// The failures from the first one that is still in the window.
pub open spec fn fresh(failures: Seq<u64>, now: u64) -> Seq<u64>
    decreases failures.len(),
{
    if failures.len() > 0 && is_expired(failures[0], now) {
        fresh(failures.drop_first(), now)
    } else {
        failures
    }
}

/// The table without what has left the window.
pub open spec fn pruned(m: FailureMap, now: u64) -> FailureMap {
    Map::new(
        |k: (IpAddr, Seq<char>)| m.contains_key(k) && fresh(m[k], now).len() > 0,
        |k: (IpAddr, Seq<char>)| fresh(m[k], now),
    )
}

/// The failures of one key.
pub open spec fn failures_of(m: FailureMap, key: (IpAddr, Seq<char>)) -> Seq<u64> {
    if m.contains_key(key) {
        m[key]
    } else {
        Seq::empty()
    }
}

/// The key is locked out at `now`.
pub open spec fn locked(m: FailureMap, key: (IpAddr, Seq<char>), now: u64) -> bool {
    failures_of(pruned(m, now), key).len() >= MAX_REGISTER_PASSWORD_FAILURES
}

/// The failures that are left of one key; none where all have left the window.
pub open spec fn kept_failures(s: Seq<u64>, now: u64) -> Option<Seq<u64>> {
    if fresh(s, now).len() > 0 {
        Some(fresh(s, now))
    } else {
        None
    }
}

/// No key failed longer ago than `key`.
pub open spec fn is_oldest(m: FailureMap, key: (IpAddr, Seq<char>)) -> bool {
    m.contains_key(key) && forall|k: (IpAddr, Seq<char>)| #[trigger]
        m.contains_key(k) ==> m[key].last() <= m[k].last()
}

/// The table with one more failure of `key`.
pub open spec fn with_failure(m: FailureMap, key: (IpAddr, Seq<char>), now: u64) -> FailureMap {
    let failures = failures_of(m, key);
    m.insert(
        key,
        if failures.len() < MAX_REGISTER_PASSWORD_FAILURES {
            failures.push(now)
        } else {
            failures
        },
    )
}

/// What a recorded failure makes of the table: a full table gives up the key
/// that failed longest ago, so that no other user is refused on its account.
pub open spec fn recorded(
    before: FailureMap,
    after: FailureMap,
    key: (IpAddr, Seq<char>),
    now: u64,
) -> bool {
    let m = pruned(before, now);
    if m.contains_key(key) || m.dom().len() < MAX_REGISTER_PASSWORD_KEYS {
        after == with_failure(m, key, now)
    } else {
        exists|oldest: (IpAddr, Seq<char>)| #[trigger]
            is_oldest(m, oldest) && after == with_failure(m.remove(oldest), key, now)
    }
}

/// The table is finite and within its bound.
pub open spec fn failures_bounded(m: FailureMap) -> bool {
    m.dom().finite() && m.dom().len() <= MAX_REGISTER_PASSWORD_KEYS
}

/// Failed passwords. A source that fails too often at one lobby is locked out of
/// it for a while, even with the right password.
pub struct RegisterPasswordFailures {
    pub attempts: Table<(IpAddr, String), Vec<u64>>,
}

impl View for RegisterPasswordFailures {
    type V = FailureMap;

    open spec fn view(&self) -> FailureMap {
        self.attempts@
    }
}

fn fresh_failures(failures: &Vec<u64>, now: u64) -> (r: Vec<u64>)
    ensures
        r@ == fresh(failures@, now),
{
    let window: u64 = REGISTER_PASSWORD_FAILURE_WINDOW_SECS * NANOS_PER_SEC;
    let mut start: usize = 0;
    assert(failures@.skip(0) =~= failures@);
    while start < failures.len() && now.saturating_sub(failures[start]) > window
        invariant
            start <= failures@.len(),
            window == REGISTER_PASSWORD_FAILURE_WINDOW_SECS * NANOS_PER_SEC,
            fresh(failures@, now) == fresh(failures@.skip(start as int), now),
        decreases failures@.len() - start,
    {
        assert(failures@.skip(start as int).drop_first() =~= failures@.skip(start + 1));
        start = start + 1;
    }
    assert(fresh(failures@, now) == failures@.skip(start as int));
    let mut out: Vec<u64> = Vec::new();
    let mut i: usize = start;
    while i < failures.len()
        invariant
            start <= i <= failures@.len(),
            out@ == failures@.subrange(start as int, i as int),
        decreases failures@.len() - i,
    {
        out.push(failures[i]);
        i = i + 1;
        assert(out@ =~= failures@.subrange(start as int, i as int));
    }
    assert(out@ =~= failures@.skip(start as int));
    out
}

/// `r` is what is left of the failures `s`.
pub open spec fn is_kept(r: Option<Vec<u64>>, s: Seq<u64>, now: u64) -> bool {
    match r {
        Some(left) => kept_failures(s, now) == Some(left@),
        None => kept_failures(s, now) is None,
    }
}

fn keep_failures(failures: &Vec<u64>, now: u64) -> (r: Option<Vec<u64>>)
    ensures
        is_kept(r, failures@, now),
{
    let left = fresh_failures(failures, now);
    if left.len() > 0 {
        Some(left)
    } else {
        None
    }
}

/// Pruning keeps a table within its bound.
pub proof fn lemma_pruned_bounded(m: FailureMap, now: u64)
    requires
        m.dom().finite(),
    ensures
        pruned(m, now).dom().finite(),
        pruned(m, now).dom().len() <= m.dom().len(),
{
    assert(pruned(m, now).dom().subset_of(m.dom()));
    vstd::set_lib::lemma_len_subset(pruned(m, now).dom(), m.dom());
}

impl RegisterPasswordFailures {
    pub fn new() -> (r: Self)
        ensures
            r@ == FailureMap::empty(),
    {
        RegisterPasswordFailures { attempts: Table::new() }
    }

    /// Forgets what has left the window.
    pub fn prune(&mut self, now: u64)
        ensures
            final(self)@ == pruned(old(self)@, now),
            failures_bounded(old(self)@) ==> failures_bounded(final(self)@),
    {
        let ghost before = self.attempts@;
        self.attempts.refine(
            |failures: Vec<u64>| -> (r: Option<Vec<u64>>)
                ensures
                    is_kept(r, failures@, now)
            { keep_failures(&failures, now) },
            Ghost(|s: Seq<u64>| kept_failures(s, now)),
        );
        assert(self.attempts@ =~= pruned(before, now));
        proof {
            if failures_bounded(before) {
                lemma_pruned_bounded(before, now);
            }
        }
    }

    /// Decides whether a source is locked out of a lobby. Only its own failures
    /// at this lobby count.
    pub fn is_locked(&mut self, key: &(IpAddr, String), now: u64) -> (r: bool)
        ensures
            r == locked(old(self)@, key@, now),
            final(self)@ == pruned(old(self)@, now),
            failures_bounded(old(self)@) ==> failures_bounded(final(self)@),
    {
        self.prune(now);
        match self.attempts.get(key) {
            Some(attempts) => attempts.len() >= MAX_REGISTER_PASSWORD_FAILURES,
            None => false,
        }
    }

    /// Records a wrong password.
    pub fn record_failure(&mut self, key: &(IpAddr, String), now: u64)
        ensures
            recorded(old(self)@, final(self)@, key@, now),
            failures_bounded(old(self)@) ==> failures_bounded(final(self)@),
    {
        self.prune(now);
        let ghost m = self@;
        let known = self.attempts.contains(key);
        let count: usize = self.attempts.len();
        if !known && count >= MAX_REGISTER_PASSWORD_KEYS {
            let i = self.oldest();
            let ghost oldest = self.attempts.items()[i as int].0;
            let _ = self.attempts.take_at(i);
            assert(self@ == m.remove(oldest));
            assert(is_oldest(m, oldest));
        }
        let ghost n = self@;
        let mut attempts: Vec<u64> = match self.attempts.take(key) {
            Some(attempts) => attempts,
            None => Vec::new(),
        };
        assert(attempts@ =~= failures_of(n, key@));
        if attempts.len() < MAX_REGISTER_PASSWORD_FAILURES {
            attempts.push(now);
        }
        self.attempts.put(key.copied(), attempts);
        assert(self@ =~= with_failure(n, key@, now));
    }

    /// The position of a key that failed longest ago.
    fn oldest(&self) -> (r: usize)
        requires
            self@.dom().len() > 0,
            forall|k: (IpAddr, Seq<char>)| #[trigger] self@.contains_key(k) ==> self@[k].len() > 0,
        ensures
            r < self.attempts.items().len(),
            is_oldest(self@, self.attempts.items()[r as int].0),
    {
        let n: usize = self.attempts.len();
        let mut best: usize = 0;
        let mut i: usize = 1;
        while i < n
            invariant
                0 < n == self.attempts.items().len(),
                best < i <= n,
                forall|j: int|
                    0 <= j < n ==> (#[trigger] self.attempts.items()[j]).1.len() > 0,
                forall|j: int|
                    0 <= j < i ==> self.attempts.items()[best as int].1.last() <= (
                    #[trigger] self.attempts.items()[j]).1.last(),
            decreases n - i,
        {
            let candidate = self.attempts.entry(i).1;
            let current = self.attempts.entry(best).1;
            assert(candidate@ == self.attempts.items()[i as int].1);
            assert(current@ == self.attempts.items()[best as int].1);
            if candidate[candidate.len() - 1] < current[current.len() - 1] {
                best = i;
            }
            i = i + 1;
        }
        best
    }

    /// Forgets the failures of a key.
    pub fn clear(&mut self, key: &(IpAddr, String))
        ensures
            final(self)@ == old(self)@.remove(key@),
            failures_bounded(old(self)@) ==> failures_bounded(final(self)@),
    {
        let _ = self.attempts.take(key);
    }
}

} // verus!
